use vstd::prelude::*;

verus! {

/// Every occurrence of `pat` in `s`, scanned left to right without overlap,
/// replaced by `rep`. An empty pattern leaves `s` unchanged.
pub open spec fn spec_replace(s: Seq<u8>, pat: Seq<u8>, rep: Seq<u8>) -> Seq<u8>
    decreases s.len(),
{
    if pat.len() == 0 || s.len() < pat.len() {
        s
    } else if s.take(pat.len() as int) == pat {
        rep + spec_replace(s.skip(pat.len() as int), pat, rep)
    } else {
        seq![s[0]] + spec_replace(s.skip(1), pat, rep)
    }
}

/// Whether `pat` occurs in `s` at position `i`.
fn match_at(s: &Vec<u8>, pat: &Vec<u8>, i: usize) -> (r: bool)
    requires
        i <= s@.len(),
    ensures
        r <==> (i + pat@.len() <= s@.len()
            && s@.subrange(i as int, i + pat@.len()) == pat@),
{
    if s.len() - i < pat.len() {
        return false;
    }
    let n = s.len();
    let mut j: usize = 0;
    while j < pat.len()
        invariant
            i + pat@.len() <= s@.len(),
            s@.len() == n,
            j <= pat@.len(),
            forall|k: int| 0 <= k < j ==> s@[i + k] == pat@[k],
        decreases pat@.len() - j,
    {
        if s[i + j] != pat[j] {
            proof {
                assert(s@.subrange(i as int, i + pat@.len())[j as int] == s@[i + j]);
            }
            return false;
        }
        j += 1;
    }
    proof {
        assert(s@.subrange(i as int, i + pat@.len()) =~= pat@);
    }
    true
}

/// Replaces every occurrence of `pat` in `s` by `rep`, scanning left to
/// right without overlap.
pub fn replace_bytes(s: &Vec<u8>, pat: &Vec<u8>, rep: &Vec<u8>) -> (r: Vec<u8>)
    ensures
        r@ == spec_replace(s@, pat@, rep@),
{
    let mut out: Vec<u8> = Vec::new();
    if pat.len() == 0 {
        out.extend_from_slice(s.as_slice());
        proof {
            assert(out@ =~= s@);
        }
        return out;
    }
    let n = s.len();
    let mut i: usize = 0;
    proof {
        assert(out@ =~= Seq::<u8>::empty());
        assert(s@.skip(0) =~= s@);
        assert(Seq::<u8>::empty() + spec_replace(s@, pat@, rep@)
            =~= spec_replace(s@, pat@, rep@));
    }
    while i < s.len()
        invariant
            pat@.len() > 0,
            i <= s@.len(),
            s@.len() == n,
            spec_replace(s@, pat@, rep@) == out@ + spec_replace(s@.skip(i as int), pat@, rep@),
        decreases s@.len() - i,
    {
        let ghost pre = out@;
        let ghost tail = s@.skip(i as int);
        if match_at(s, pat, i) {
            proof {
                assert(tail.take(pat@.len() as int) =~= s@.subrange(i as int, i + pat@.len()));
                assert(tail.skip(pat@.len() as int) =~= s@.skip(i + pat@.len()));
                assert(spec_replace(tail, pat@, rep@)
                    == rep@ + spec_replace(s@.skip(i + pat@.len()), pat@, rep@));
            }
            out.extend_from_slice(rep.as_slice());
            i = i + pat.len();
            proof {
                assert(out@ =~= pre + rep@);
                assert(pre + (rep@ + spec_replace(s@.skip(i as int), pat@, rep@))
                    =~= out@ + spec_replace(s@.skip(i as int), pat@, rep@));
            }
        } else {
            let b = s[i];
            proof {
                if i + pat@.len() <= s@.len() {
                    // the pattern does not match here, so one byte is copied
                    assert(tail.take(pat@.len() as int) =~= s@.subrange(i as int, i + pat@.len()));
                    assert(tail.skip(1) =~= s@.skip(i + 1));
                    assert(spec_replace(tail, pat@, rep@)
                        == seq![s@[i as int]] + spec_replace(s@.skip(i + 1), pat@, rep@));
                } else {
                    // too little input is left for any further match
                    assert(tail.len() < pat@.len());
                    assert(spec_replace(tail, pat@, rep@) == tail);
                    assert(s@.skip(i + 1).len() < pat@.len());
                    assert(spec_replace(s@.skip(i + 1), pat@, rep@) == s@.skip(i + 1));
                    assert(tail =~= seq![s@[i as int]] + s@.skip(i + 1));
                }
            }
            out.push(b);
            i = i + 1;
            proof {
                assert(out@ =~= pre + seq![s@[i - 1]]);
                assert(pre + (seq![s@[i - 1]] + spec_replace(s@.skip(i as int), pat@, rep@))
                    =~= out@ + spec_replace(s@.skip(i as int), pat@, rep@));
            }
        }
    }
    proof {
        assert(s@.skip(i as int) =~= Seq::<u8>::empty());
        assert(spec_replace(s@.skip(i as int), pat@, rep@) == s@.skip(i as int));
        assert(out@ + Seq::<u8>::empty() =~= out@);
    }
    out
}

} // verus!
