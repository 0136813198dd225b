use vstd::prelude::*;
use vstd::string::StringSliceAdditionalSpecFns;

verus! {

/// The decimal digits of `n`, most significant first, as ASCII bytes.
pub open spec fn spec_u64_decimal(n: nat) -> Seq<u8>
    decreases n,
{
    if n < 10 {
        seq![(48 + n) as u8]
    } else {
        spec_u64_decimal(n / 10) + seq![(48 + n % 10) as u8]
    }
}

/// The decimal rendering of `n`, with a leading minus sign when `n` is
/// negative.
pub open spec fn spec_i64_decimal(n: int) -> Seq<u8> {
    if n < 0 {
        seq![45u8] + spec_u64_decimal((-n) as nat)
    } else {
        spec_u64_decimal(n as nat)
    }
}

/// Appends the decimal digits of `n`.
fn push_u64_decimal(out: &mut Vec<u8>, n: u64)
    ensures
        final(out)@ == old(out)@ + spec_u64_decimal(n as nat),
    decreases n,
{
    let ghost pre = out@;
    if n >= 10 {
        push_u64_decimal(out, n / 10);
    }
    let d: u8 = (n % 10) as u8;
    out.push(48 + d);
    proof {
        if n < 10 {
            assert(final(out)@ =~= pre + spec_u64_decimal(n as nat));
        } else {
            assert(pre + spec_u64_decimal((n / 10) as nat) + seq![(48 + (n as nat) % 10) as u8]
                =~= pre + spec_u64_decimal(n as nat));
            assert(final(out)@ =~= pre + spec_u64_decimal((n / 10) as nat) + seq![
                (48 + (n as nat) % 10) as u8,
            ]);
        }
    }
}

/// Appends the decimal rendering of `n`, minus sign included when needed.
fn push_i64_decimal(out: &mut Vec<u8>, n: i64)
    ensures
        final(out)@ == old(out)@ + spec_i64_decimal(n as int),
{
    let ghost pre = out@;
    if n < 0 {
        out.push(45);
        let m: u64 = if n == i64::MIN {
            9223372036854775808u64
        } else {
            (-n) as u64
        };
        proof {
            assert(m as nat == (-(n as int)) as nat);
        }
        push_u64_decimal(out, m);
        proof {
            assert(pre + seq![45u8] + spec_u64_decimal(m as nat) =~= pre + spec_i64_decimal(
                n as int,
            ));
        }
    } else {
        push_u64_decimal(out, n as u64);
    }
}

/// The token-exchange endpoint on one school's subdomain.
pub open spec fn spec_token_url(school: Seq<u8>) -> Seq<u8> {
    "https://".spec_bytes() + school + ".zportal.nl/api/v3/oauth/token".spec_bytes()
}

/// Builds the URL the access token is requested from, for one school.
pub fn token_url(school: &str) -> (r: Vec<u8>)
    ensures
        r@ == spec_token_url(school.spec_bytes()),
{
    let mut out: Vec<u8> = Vec::new();
    out.extend_from_slice("https://".as_bytes());
    out.extend_from_slice(school.as_bytes());
    out.extend_from_slice(".zportal.nl/api/v3/oauth/token".as_bytes());
    proof {
        assert(out@ =~= spec_token_url(school.spec_bytes()));
    }
    out
}

/// The appointment query on one school's subdomain: a time window given as
/// two epoch-second bounds, and the access token as a query parameter.
pub open spec fn spec_appointments_url(
    school: Seq<u8>,
    start: int,
    end: int,
    token: Seq<u8>,
) -> Seq<u8> {
    "https://".spec_bytes() + school
        + ".zportal.nl/api/v3/appointments?user=~me&start=".spec_bytes() + spec_i64_decimal(start)
        + "&end=".spec_bytes() + spec_i64_decimal(end) + "&access_token=".spec_bytes() + token
}

/// Builds the URL appointments between `start` and `end` are fetched from.
/// The access token travels in the query string: that is how the upstream
/// API wants it, though it exposes the credential to logs and proxies.
pub fn appointments_url(school: &str, start: i64, end: i64, token: &str) -> (r: Vec<u8>)
    ensures
        r@ == spec_appointments_url(
            school.spec_bytes(),
            start as int,
            end as int,
            token.spec_bytes(),
        ),
{
    let mut out: Vec<u8> = Vec::new();
    out.extend_from_slice("https://".as_bytes());
    out.extend_from_slice(school.as_bytes());
    out.extend_from_slice(".zportal.nl/api/v3/appointments?user=~me&start=".as_bytes());
    push_i64_decimal(&mut out, start);
    out.extend_from_slice("&end=".as_bytes());
    push_i64_decimal(&mut out, end);
    out.extend_from_slice("&access_token=".as_bytes());
    out.extend_from_slice(token.as_bytes());
    proof {
        assert(out@ =~= spec_appointments_url(
            school.spec_bytes(),
            start as int,
            end as int,
            token.spec_bytes(),
        ));
    }
    out
}

} // verus!
