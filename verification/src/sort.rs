use vstd::prelude::*;
use crate::appointment::{Appointment, start_key, appointment_eq, same_appointments};

verus! {

/// `a` inserted into `s` directly before the first element whose key
/// exceeds the key of `a`: after every element it compares equal to.
pub open spec fn spec_insert_sorted(a: Appointment, s: Seq<Appointment>) -> Seq<Appointment>
    decreases s.len(),
{
    if s.len() == 0 {
        seq![a]
    } else if start_key(a) < start_key(s[0]) {
        seq![a] + s
    } else {
        seq![s[0]] + spec_insert_sorted(a, s.drop_first())
    }
}

/// `s` ordered by start key, ascending; elements with equal keys keep
/// their relative order (a stable sort).
pub open spec fn spec_sort(s: Seq<Appointment>) -> Seq<Appointment>
    decreases s.len(),
{
    if s.len() == 0 {
        Seq::empty()
    } else {
        spec_insert_sorted(s.last(), spec_sort(s.drop_last()))
    }
}

/// Ordered by start key, ascending.
pub open spec fn sorted_by_start(s: Seq<Appointment>) -> bool {
    forall|i: int, j: int| 0 <= i <= j < s.len() ==> start_key(s[i]) <= start_key(s[j])
}

pub proof fn lemma_insert_len(a: Appointment, s: Seq<Appointment>)
    ensures
        spec_insert_sorted(a, s).len() == s.len() + 1,
    decreases s.len(),
{
    if s.len() > 0 && !(start_key(a) < start_key(s[0])) {
        lemma_insert_len(a, s.drop_first());
    }
}

/// Sorting does not change how many appointments there are.
pub proof fn lemma_sort_len(s: Seq<Appointment>)
    ensures
        spec_sort(s).len() == s.len(),
    decreases s.len(),
{
    if s.len() > 0 {
        lemma_sort_len(s.drop_last());
        lemma_insert_len(s.last(), spec_sort(s.drop_last()));
    }
}

pub proof fn lemma_insert_sorted(a: Appointment, s: Seq<Appointment>)
    requires
        sorted_by_start(s),
    ensures
        sorted_by_start(spec_insert_sorted(a, s)),
    decreases s.len(),
{
    if s.len() == 0 {
    } else if start_key(a) < start_key(s[0]) {
        let out = seq![a] + s;
        assert forall|i: int, j: int| 0 <= i <= j < out.len() implies start_key(out[i])
            <= start_key(out[j]) by {
            if i > 0 {
                assert(out[i] == s[i - 1]);
                assert(out[j] == s[j - 1]);
            }
        }
    } else {
        let rest = s.drop_first();
        assert(sorted_by_start(rest)) by {
            assert forall|i: int, j: int| 0 <= i <= j < rest.len() implies start_key(rest[i])
                <= start_key(rest[j]) by {
                assert(rest[i] == s[i + 1]);
                assert(rest[j] == s[j + 1]);
            }
        }
        lemma_insert_sorted(a, rest);
        lemma_insert_len(a, rest);
        let out = seq![s[0]] + spec_insert_sorted(a, rest);
        let sub = spec_insert_sorted(a, rest);
        assert forall|i: int, j: int| 0 <= i <= j < out.len() implies start_key(out[i])
            <= start_key(out[j]) by {
            if i == 0 && j > 0 {
                assert(out[j] == sub[j - 1]);
                // every element of the inserted tail is either a itself or
                // some element of rest, both at least start_key(s[0])
                lemma_insert_member(a, rest, j - 1);
            } else if i > 0 {
                assert(out[i] == sub[i - 1]);
                assert(out[j] == sub[j - 1]);
            }
        }
    }
}

/// Every position of the inserted sequence holds either `a` or an element
/// of `s`.
pub proof fn lemma_insert_member(a: Appointment, s: Seq<Appointment>, i: int)
    requires
        0 <= i < spec_insert_sorted(a, s).len(),
    ensures
        spec_insert_sorted(a, s)[i] == a || (exists|k: int|
            0 <= k < s.len() && spec_insert_sorted(a, s)[i] == s[k]),
    decreases s.len(),
{
    lemma_insert_len(a, s);
    if s.len() == 0 {
    } else if start_key(a) < start_key(s[0]) {
        if i > 0 {
            assert(spec_insert_sorted(a, s)[i] == s[i - 1]);
        }
    } else {
        let rest = s.drop_first();
        if i > 0 {
            lemma_insert_member(a, rest, i - 1);
            assert(spec_insert_sorted(a, s)[i] == spec_insert_sorted(a, rest)[i - 1]);
            if spec_insert_sorted(a, rest)[i - 1] != a {
                let k = choose|k: int|
                    0 <= k < rest.len() && spec_insert_sorted(a, rest)[i - 1] == rest[k];
                assert(rest[k] == s[k + 1]);
            }
        }
    }
}

/// The sorted sequence is in ascending start-key order.
pub proof fn lemma_sort_sorted(s: Seq<Appointment>)
    ensures
        sorted_by_start(spec_sort(s)),
    decreases s.len(),
{
    if s.len() > 0 {
        lemma_sort_sorted(s.drop_last());
        lemma_insert_sorted(s.last(), spec_sort(s.drop_last()));
    }
}

/// Inserting at the first position whose key exceeds the key of `a` is
/// what `spec_insert_sorted` does.
pub proof fn lemma_insert_at(a: Appointment, s: Seq<Appointment>, j: int)
    requires
        0 <= j <= s.len(),
        forall|k: int| 0 <= k < j ==> start_key(s[k]) <= start_key(a),
        j < s.len() ==> start_key(s[j]) > start_key(a),
    ensures
        spec_insert_sorted(a, s) == s.take(j) + seq![a] + s.skip(j),
    decreases s.len(),
{
    if s.len() == 0 {
        assert(spec_insert_sorted(a, s) =~= s.take(j) + seq![a] + s.skip(j));
    } else if start_key(a) < start_key(s[0]) {
        assert(j == 0);
        assert(s.skip(0) =~= s);
        assert(seq![a] + s =~= s.take(0) + seq![a] + s.skip(0));
    } else {
        assert(j > 0);
        let rest = s.drop_first();
        lemma_insert_at(a, rest, j - 1);
        assert(seq![s[0]] + (rest.take(j - 1) + seq![a] + rest.skip(j - 1)) =~= s.take(j)
            + seq![a] + s.skip(j));
    }
}

/// How insertion acts on a filtered view. For a predicate whose matches
/// all share one start key, a matching inserted element lands after every
/// earlier match; a non-matching one leaves the filtered view unchanged.
pub proof fn lemma_insert_filter(a: Appointment, s: Seq<Appointment>, p: spec_fn(Appointment) -> bool)
    requires
        sorted_by_start(s),
    ensures
        (p(a) && (forall|b: Appointment| p(b) ==> start_key(b) == start_key(a)))
            ==> spec_insert_sorted(a, s).filter(p) == s.filter(p).push(a),
        !p(a) ==> spec_insert_sorted(a, s).filter(p) == s.filter(p),
    decreases s.len(),
{
    broadcast use Seq::lemma_filter_prepend;

    if s.len() == 0 {
        reveal(Seq::filter);
        assert(spec_insert_sorted(a, s) =~= seq![a] + s);
        if p(a) {
            assert(s.filter(p).push(a) =~= (seq![a] + Seq::<Appointment>::empty()) + s.filter(p));
        }
    } else if start_key(a) < start_key(s[0]) {
        if p(a) && (forall|b: Appointment| p(b) ==> start_key(b) == start_key(a)) {
            // no element of s can match: their keys all exceed the key of a
            assert(s.all(|x: Appointment| !p(x))) by {
                assert forall|i: int| 0 <= i < s.len() implies !p(s[i]) by {
                    assert(start_key(s[0]) <= start_key(s[i]));
                }
                assert(forall|x: Appointment| s.contains(x) ==> !p(x));
            }
            s.lemma_all_neg_filter_empty(p);
            assert(s.filter(p) =~= Seq::<Appointment>::empty());
            assert((seq![a] + s).filter(p) == seq![a] + s.filter(p));
            assert(seq![a] + s.filter(p) =~= s.filter(p).push(a));
        } else if !p(a) {
            assert((seq![a] + s).filter(p) == Seq::<Appointment>::empty() + s.filter(p));
            assert(Seq::<Appointment>::empty() + s.filter(p) =~= s.filter(p));
        }
    } else {
        let rest = s.drop_first();
        assert(sorted_by_start(rest)) by {
            assert forall|i: int, j: int| 0 <= i <= j < rest.len() implies start_key(rest[i])
                <= start_key(rest[j]) by {
                assert(rest[i] == s[i + 1]);
                assert(rest[j] == s[j + 1]);
            }
        }
        lemma_insert_filter(a, rest, p);
        let sub = spec_insert_sorted(a, rest);
        assert(s =~= seq![s[0]] + rest);
        assert(s.filter(p) == (if p(s[0]) {
            seq![s[0]]
        } else {
            Seq::<Appointment>::empty()
        }) + rest.filter(p));
        assert(spec_insert_sorted(a, s).filter(p) == (if p(s[0]) {
            seq![s[0]]
        } else {
            Seq::<Appointment>::empty()
        }) + sub.filter(p));
        if p(a) && (forall|b: Appointment| p(b) ==> start_key(b) == start_key(a)) {
            assert(sub.filter(p) == rest.filter(p).push(a));
            if p(s[0]) {
                assert(seq![s[0]] + rest.filter(p).push(a) =~= (seq![s[0]] + rest.filter(p)).push(
                    a,
                ));
            } else {
                assert(Seq::<Appointment>::empty() + rest.filter(p).push(a) =~= (
                Seq::<Appointment>::empty() + rest.filter(p)).push(a));
            }
        } else if !p(a) {
            assert(sub.filter(p) == rest.filter(p));
        }
    }
}

/// Sorting keeps the relative order of the appointments a predicate picks
/// out, provided all its matches share one start key: the sort is stable.
pub proof fn lemma_sort_filter(s: Seq<Appointment>, p: spec_fn(Appointment) -> bool)
    requires
        forall|b1: Appointment, b2: Appointment| p(b1) && p(b2) ==> start_key(b1) == start_key(b2),
    ensures
        spec_sort(s).filter(p) == s.filter(p),
    decreases s.len(),
{
    reveal(Seq::filter);
    if s.len() > 0 {
        let a = s.last();
        let rest = s.drop_last();
        lemma_sort_filter(rest, p);
        lemma_sort_sorted(rest);
        lemma_insert_filter(a, spec_sort(rest), p);
        if p(a) {
            assert(spec_sort(s).filter(p) == spec_sort(rest).filter(p).push(a));
        }
    }
}

/// Every element of the inserted sequence satisfies `q` when `a` and all
/// of `s` do.
pub proof fn lemma_insert_all(a: Appointment, s: Seq<Appointment>, q: spec_fn(Appointment) -> bool)
    requires
        q(a),
        forall|i: int| 0 <= i < s.len() ==> q(s[i]),
    ensures
        forall|i: int| 0 <= i < spec_insert_sorted(a, s).len() ==> q(spec_insert_sorted(a, s)[i]),
    decreases s.len(),
{
    lemma_insert_len(a, s);
    let out = spec_insert_sorted(a, s);
    assert forall|i: int| 0 <= i < out.len() implies q(out[i]) by {
        lemma_insert_member(a, s, i);
    }
}

/// Every element of the sorted sequence satisfies `q` when all of `s` do.
pub proof fn lemma_sort_all(s: Seq<Appointment>, q: spec_fn(Appointment) -> bool)
    requires
        forall|i: int| 0 <= i < s.len() ==> q(s[i]),
    ensures
        forall|i: int| 0 <= i < spec_sort(s).len() ==> q(spec_sort(s)[i]),
    decreases s.len(),
{
    if s.len() > 0 {
        let rest = s.drop_last();
        assert(forall|i: int| 0 <= i < rest.len() ==> q(rest[i])) by {
            assert(forall|i: int| 0 <= i < rest.len() ==> rest[i] == s[i]);
        }
        lemma_sort_all(rest, q);
        lemma_insert_all(s.last(), spec_sort(rest), q);
    }
}

/// Inserting appointments that agree, into sequences that agree, yields
/// sequences that agree.
pub proof fn lemma_insert_eq(a1: Appointment, a2: Appointment, s1: Seq<Appointment>, s2: Seq<Appointment>)
    requires
        appointment_eq(a1, a2),
        same_appointments(s1, s2),
    ensures
        same_appointments(spec_insert_sorted(a1, s1), spec_insert_sorted(a2, s2)),
    decreases s1.len(),
{
    lemma_insert_len(a1, s1);
    lemma_insert_len(a2, s2);
    if s1.len() == 0 {
    } else {
        assert(appointment_eq(s1[0], s2[0]));
        assert(start_key(a1) == start_key(a2));
        assert(start_key(s1[0]) == start_key(s2[0]));
        if start_key(a1) < start_key(s1[0]) {
            let o1 = seq![a1] + s1;
            let o2 = seq![a2] + s2;
            assert forall|i: int| 0 <= i < o1.len() implies appointment_eq(
                #[trigger] o1[i],
                o2[i],
            ) by {
                if i > 0 {
                    assert(o1[i] == s1[i - 1]);
                    assert(o2[i] == s2[i - 1]);
                }
            }
        } else {
            let r1 = s1.drop_first();
            let r2 = s2.drop_first();
            assert(same_appointments(r1, r2)) by {
                assert forall|i: int| 0 <= i < r1.len() implies appointment_eq(
                    #[trigger] r1[i],
                    r2[i],
                ) by {
                    assert(r1[i] == s1[i + 1]);
                    assert(r2[i] == s2[i + 1]);
                }
            }
            lemma_insert_eq(a1, a2, r1, r2);
            let o1 = seq![s1[0]] + spec_insert_sorted(a1, r1);
            let o2 = seq![s2[0]] + spec_insert_sorted(a2, r2);
            assert forall|i: int| 0 <= i < o1.len() implies appointment_eq(
                #[trigger] o1[i],
                o2[i],
            ) by {
                if i > 0 {
                    assert(o1[i] == spec_insert_sorted(a1, r1)[i - 1]);
                    assert(o2[i] == spec_insert_sorted(a2, r2)[i - 1]);
                }
            }
        }
    }
}

/// Sorting sequences that agree yields sequences that agree: what the sort
/// does depends only on what the appointments say.
pub proof fn lemma_sort_eq(s1: Seq<Appointment>, s2: Seq<Appointment>)
    requires
        same_appointments(s1, s2),
    ensures
        same_appointments(spec_sort(s1), spec_sort(s2)),
    decreases s1.len(),
{
    if s1.len() > 0 {
        let r1 = s1.drop_last();
        let r2 = s2.drop_last();
        assert(same_appointments(r1, r2)) by {
            assert forall|i: int| 0 <= i < r1.len() implies appointment_eq(
                #[trigger] r1[i],
                r2[i],
            ) by {
                assert(r1[i] == s1[i]);
                assert(r2[i] == s2[i]);
            }
        }
        lemma_sort_eq(r1, r2);
        assert(appointment_eq(s1.last(), s2.last()));
        lemma_insert_eq(s1.last(), s2.last(), spec_sort(r1), spec_sort(r2));
    }
}

/// Appointments without a start sort as if they started at 0: when no
/// start is negative they stand at the front of the sorted sequence, and
/// among themselves they keep the order they arrived in.
pub proof fn lemma_missing_start_front(s: Seq<Appointment>)
    requires
        forall|i: int| 0 <= i < s.len() ==> start_key(#[trigger] s[i]) >= 0,
    ensures
        forall|i: int, j: int|
            0 <= i < j < spec_sort(s).len() && (#[trigger] spec_sort(s)[j]).start is None
                ==> start_key(#[trigger] spec_sort(s)[i]) == 0,
        spec_sort(s).filter(|a: Appointment| a.start is None) == s.filter(
            |a: Appointment| a.start is None,
        ),
{
    lemma_sort_sorted(s);
    lemma_sort_all(s, |x: Appointment| start_key(x) >= 0);
    lemma_sort_filter(s, |a: Appointment| a.start is None);
    let out = spec_sort(s);
    assert forall|i: int, j: int|
        0 <= i < j < out.len() && (#[trigger] out[j]).start is None implies start_key(
        #[trigger] out[i],
    ) == 0 by {
        assert(start_key(out[j]) == 0);
        assert(start_key(out[i]) <= start_key(out[j]));
        assert(start_key(out[i]) >= 0);
    }
}

/// The start key of one appointment, with 0 standing in for a missing
/// start.
fn start_key_exec(a: &Appointment) -> (r: i64)
    ensures
        r as int == start_key(*a),
{
    match a.start {
        Some(t) => t,
        None => 0,
    }
}

/// Inserts `a` into the already sorted `out`, after every element whose
/// key does not exceed the key of `a`.
fn insert_sorted(out: &mut Vec<Appointment>, a: Appointment)
    requires
        sorted_by_start(old(out)@),
    ensures
        final(out)@ == spec_insert_sorted(a, old(out)@),
{
    let ka = start_key_exec(&a);
    let mut j: usize = 0;
    while j < out.len() && start_key_exec(&out[j]) <= ka
        invariant
            j <= out@.len(),
            out@ == old(out)@,
            forall|k: int| 0 <= k < j ==> start_key(out@[k]) <= start_key(a),
            ka as int == start_key(a),
        decreases out@.len() - j,
    {
        j += 1;
    }
    proof {
        lemma_insert_at(a, out@, j as int);
    }
    out.insert(j, a);
    proof {
        assert(final(out)@ =~= old(out)@.take(j as int) + seq![a] + old(out)@.skip(j as int));
    }
}

/// Sorts the appointments by start key, ascending, missing starts counting
/// as 0; appointments with equal keys keep their relative order.
pub fn sort_appointments(v: Vec<Appointment>) -> (r: Vec<Appointment>)
    ensures
        r@ == spec_sort(v@),
{
    let ghost orig = v@;
    let mut input = v;
    let mut out: Vec<Appointment> = Vec::new();
    proof {
        assert(orig.take(0) =~= Seq::<Appointment>::empty());
        assert(out@ =~= Seq::<Appointment>::empty());
    }
    while input.len() > 0
        invariant
            input@ =~= orig.skip(orig.len() - input@.len()),
            input@.len() <= orig.len(),
            out@ == spec_sort(orig.take(orig.len() - input@.len())),
            sorted_by_start(out@),
        decreases input@.len(),
    {
        let ghost i = orig.len() - input@.len();
        let a = input.remove(0);
        proof {
            assert(a == orig[i]);
            assert(input@ =~= orig.skip(i + 1));
            assert(orig.take(i + 1).drop_last() =~= orig.take(i));
            assert(orig.take(i + 1).last() == orig[i]);
        }
        insert_sorted(&mut out, a);
        proof {
            assert(out@ == spec_insert_sorted(orig[i], spec_sort(orig.take(i))));
            assert(spec_sort(orig.take(i + 1)) == spec_insert_sorted(
                orig.take(i + 1).last(),
                spec_sort(orig.take(i + 1).drop_last()),
            ));
            lemma_sort_sorted(orig.take(i + 1));
        }
    }
    proof {
        assert(orig.take(orig.len() - 0) =~= orig);
    }
    out
}

} // verus!
