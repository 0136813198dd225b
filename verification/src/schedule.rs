use vstd::prelude::*;
use vstd::string::{StrSliceExecFns, StringSliceAdditionalSpecFns, StringExecFns};
use crate::appointment::{Appointment, same_appointments};
use crate::error::ScheduleError;
use crate::extract::{
    appointments_from_body, appointments_match, extract_access_token, spec_access_token,
    spec_fetch_data, spec_fetch_ok,
};
use crate::sort::{lemma_sort_eq, lemma_sort_len, spec_sort};
use crate::text::{replace_bytes, spec_replace};

verus! {

/// A client of the scheduling service: one school, one bearer credential,
/// and the most recently fetched appointments.
pub struct Schedule {
    /// The school id used in the URL. For the school id `example`,
    /// requests go to `https://example.zportal.nl/`.
    pub school: String,
    /// The access token obtained from the service, sent along with every
    /// fetch.
    pub access_token: String,
    /// The appointments of the last successful fetch, ordered by start
    /// time; empty until a fetch succeeds.
    pub appointments: Vec<Appointment>,
}

/// The value of the `grant_type` form field of the token exchange.
pub fn grant_type() -> (r: &'static str)
    ensures
        r@ == "authorization_code"@,
{
    "authorization_code"
}

/// An authorization code with every space removed: the upstream service
/// rejects codes that contain spaces, and users often paste them with
/// grouping spaces.
pub open spec fn spec_clean_code(code: Seq<u8>) -> Seq<u8> {
    spec_replace(code, " ".spec_bytes(), Seq::empty())
}

/// Removes every space from an authorization code.
pub fn clean_code(code: &str) -> (r: Vec<u8>)
    ensures
        r@ == spec_clean_code(code.spec_bytes()),
{
    let code_bytes = code.as_bytes_vec();
    let pat = " ".as_bytes_vec();
    let rep: Vec<u8> = Vec::new();
    proof {
        assert(rep@ =~= Seq::<u8>::empty());
    }
    replace_bytes(&code_bytes, &pat, &rep)
}

/// How one answer of the appointment fetch acts on a client: a non-200
/// status or a malformed body leaves the client untouched and names the
/// failure; a well-formed body replaces the stored appointments wholesale
/// with the records of its data array, sorted by start key.
pub open spec fn fetch_post(
    pre: Schedule,
    status: u16,
    body: Seq<u8>,
    post: Schedule,
    r: Result<(), ScheduleError>,
) -> bool {
    &&& post.school == pre.school
    &&& post.access_token == pre.access_token
    &&& status != 200 ==> r == Err::<(), ScheduleError>(
        ScheduleError::ResponseError { status },
    ) && post == pre
    &&& status == 200 && !spec_fetch_ok(body) ==> r == Err::<(), ScheduleError>(
        ScheduleError::MalformedResponse,
    ) && post == pre
    &&& status == 200 && spec_fetch_ok(body) ==> r == Ok::<(), ScheduleError>(()) && (exists|
        raw: Seq<Appointment>,
    |
        appointments_match(raw, spec_fetch_data(body)) && post.appointments@ == spec_sort(raw))
}

impl Schedule {
    /// Creates a client from a school id and an access token obtained
    /// earlier. No request is issued and nothing can fail; the
    /// appointment list starts empty.
    pub fn with_access_token(school: &str, access_token: &str) -> (s: Schedule)
        ensures
            s.school@ == school@,
            s.access_token@ == access_token@,
            s.appointments@ == Seq::<Appointment>::empty(),
    {
        let s = Schedule {
            school: String::from_str(school),
            access_token: String::from_str(access_token),
            appointments: Vec::new(),
        };
        proof {
            assert(s.appointments@ =~= Seq::<Appointment>::empty());
        }
        s
    }

    /// Builds a client from the answer of the token exchange: on status
    /// 200 and a body that carries an `access_token` string, a client for
    /// that school with an empty appointment list; an
    /// `AuthenticationFailed` error for any other status; a
    /// `MalformedResponse` error for a body without such a token.
    pub fn from_token_response(school: &str, status: u16, body: &Vec<u8>) -> (r: Result<
        Schedule,
        ScheduleError,
    >)
        ensures
            status != 200 ==> r == Err::<Schedule, ScheduleError>(
                ScheduleError::AuthenticationFailed { status },
            ),
            status == 200 && spec_access_token(body@) is None ==> r == Err::<
                Schedule,
                ScheduleError,
            >(ScheduleError::MalformedResponse),
            status == 200 && spec_access_token(body@) is Some ==> (r matches Ok(s)
                && s.school@ == school@ && Some(s.access_token@) == spec_access_token(body@)
                && s.appointments@ == Seq::<Appointment>::empty()),
    {
        if status != 200 {
            return Err(ScheduleError::AuthenticationFailed { status });
        }
        let token = match extract_access_token(body) {
            Ok(t) => t,
            Err(e) => {
                return Err(e);
            },
        };
        let s = Schedule {
            school: String::from_str(school),
            access_token: token,
            appointments: Vec::new(),
        };
        proof {
            assert(s.appointments@ =~= Seq::<Appointment>::empty());
        }
        Ok(s)
    }

    /// Works one answer of the appointment fetch into the client. A
    /// failure of any kind leaves the stored appointments exactly as they
    /// were; success replaces them wholesale.
    pub fn apply_appointments_response(&mut self, status: u16, body: &Vec<u8>) -> (r: Result<
        (),
        ScheduleError,
    >)
        ensures
            fetch_post(*old(self), status, body@, *final(self), r),
    {
        if status != 200 {
            return Err(ScheduleError::ResponseError { status });
        }
        match appointments_from_body(body) {
            Ok(list) => {
                self.appointments = list;
                Ok(())
            },
            Err(e) => Err(e),
        }
    }
}

/// A fetch replaces the stored appointments wholesale: after two clients
/// work in the same answer, they hold the same appointments, whatever each
/// held before — nothing accumulates across fetches.
pub proof fn lemma_fetch_replaces(
    pre1: Schedule,
    pre2: Schedule,
    status: u16,
    body: Seq<u8>,
    post1: Schedule,
    post2: Schedule,
    r1: Result<(), ScheduleError>,
    r2: Result<(), ScheduleError>,
)
    requires
        fetch_post(pre1, status, body, post1, r1),
        fetch_post(pre2, status, body, post2, r2),
        r1 is Ok,
    ensures
        r2 is Ok,
        same_appointments(post1.appointments@, post2.appointments@),
{
    let raw1 = choose|raw: Seq<Appointment>|
        appointments_match(raw, spec_fetch_data(body)) && post1.appointments@ == spec_sort(raw);
    let raw2 = choose|raw: Seq<Appointment>|
        appointments_match(raw, spec_fetch_data(body)) && post2.appointments@ == spec_sort(raw);
    assert(same_appointments(raw1, raw2)) by {
        crate::extract::lemma_match_same(raw1, raw2, spec_fetch_data(body));
    }
    lemma_sort_eq(raw1, raw2);
}

/// A well-formed fetch answer with a given number of appointment records
/// leaves exactly that many appointments in the client.
pub proof fn lemma_fetch_count(
    pre: Schedule,
    status: u16,
    body: Seq<u8>,
    post: Schedule,
    r: Result<(), ScheduleError>,
)
    requires
        fetch_post(pre, status, body, post, r),
        r is Ok,
    ensures
        post.appointments@.len() == spec_fetch_data(body).len(),
{
    let raw = choose|raw: Seq<Appointment>|
        appointments_match(raw, spec_fetch_data(body)) && post.appointments@ == spec_sort(raw);
    lemma_sort_len(raw);
}

} // verus!
