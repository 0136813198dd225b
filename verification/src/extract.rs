use vstd::prelude::*;
use crate::appointment::{Appointment, opt_strings_eq};
use crate::error::ScheduleError;
use crate::json::{
    JsonData, json_model, json_parsed, parse_json, json_get, json_is_null, json_is_object,
    json_as_i64, json_as_str, json_as_bool, json_as_array,
};
use crate::rename::{rename_wire_fields, spec_rename};
use crate::sort::{spec_sort, sort_appointments};

verus! {

/// Whether the member `name` of `m` can fill an optional integer field:
/// absent or null is fine, as is an integer that fits in an i64.
pub open spec fn opt_i64_ok(m: Map<Seq<char>, JsonData>, name: Seq<char>) -> bool {
    ||| !m.contains_key(name)
    ||| m[name] is Null
    ||| (m[name] matches JsonData::Int(n) && i64::MIN <= n <= i64::MAX)
}

/// The optional integer field `f` holds exactly what the member `name` of
/// `m` says: `None` for an absent or null member, the value otherwise.
pub open spec fn opt_i64_matches(
    f: Option<i64>,
    m: Map<Seq<char>, JsonData>,
    name: Seq<char>,
) -> bool {
    if !m.contains_key(name) || m[name] is Null {
        f is None
    } else {
        m[name] matches JsonData::Int(n) && f == Some(n as i64)
    }
}

/// Whether the member `name` of `m` can fill an optional string field.
pub open spec fn opt_string_ok(m: Map<Seq<char>, JsonData>, name: Seq<char>) -> bool {
    ||| !m.contains_key(name)
    ||| m[name] is Null
    ||| m[name] is Str
}

/// The optional string field `f` holds exactly what the member `name` of
/// `m` says.
pub open spec fn opt_string_matches(
    f: Option<String>,
    m: Map<Seq<char>, JsonData>,
    name: Seq<char>,
) -> bool {
    if !m.contains_key(name) || m[name] is Null {
        f is None
    } else {
        m[name] matches JsonData::Str(t) && f matches Some(s) && s@ == t
    }
}

/// Whether the member `name` of `m` can fill an optional boolean field.
pub open spec fn opt_bool_ok(m: Map<Seq<char>, JsonData>, name: Seq<char>) -> bool {
    ||| !m.contains_key(name)
    ||| m[name] is Null
    ||| m[name] is Bool
}

/// The optional boolean field `f` holds exactly what the member `name` of
/// `m` says.
pub open spec fn opt_bool_matches(
    f: Option<bool>,
    m: Map<Seq<char>, JsonData>,
    name: Seq<char>,
) -> bool {
    if !m.contains_key(name) || m[name] is Null {
        f is None
    } else {
        m[name] matches JsonData::Bool(b) && f == Some(b)
    }
}

/// Whether the member `name` of `m` can fill an optional list-of-strings
/// field: absent, null, or an array whose elements are all strings.
pub open spec fn opt_strings_ok(m: Map<Seq<char>, JsonData>, name: Seq<char>) -> bool {
    ||| !m.contains_key(name)
    ||| m[name] is Null
    ||| (m[name] matches JsonData::Arr(elts) && (forall|i: int|
        0 <= i < elts.len() ==> elts[i] is Str))
}

/// The optional list-of-strings field `f` holds exactly what the member
/// `name` of `m` says, element by element and in order.
pub open spec fn opt_strings_matches(
    f: Option<Vec<String>>,
    m: Map<Seq<char>, JsonData>,
    name: Seq<char>,
) -> bool {
    if !m.contains_key(name) || m[name] is Null {
        f is None
    } else {
        m[name] matches JsonData::Arr(elts) && f matches Some(list) && list@.len() == elts.len()
            && (forall|i: int|
            0 <= i < elts.len() ==> ((#[trigger] elts[i]) matches JsonData::Str(t) && list@[i]@
                == t))
    }
}

/// Whether one element of the data array has the shape of an appointment
/// record: an object whose known members have the expected types.
pub open spec fn appointment_ok(j: JsonData) -> bool {
    j matches JsonData::Obj(m) && {
        &&& opt_i64_ok(m, "id"@)
        &&& opt_i64_ok(m, "appointment_instance"@)
        &&& opt_i64_ok(m, "start"@)
        &&& opt_i64_ok(m, "end"@)
        &&& opt_i64_ok(m, "start_time_slot"@)
        &&& opt_i64_ok(m, "end_time_slot"@)
        &&& opt_strings_ok(m, "subjects"@)
        &&& opt_strings_ok(m, "teachers"@)
        &&& opt_strings_ok(m, "groups"@)
        &&& opt_strings_ok(m, "locations"@)
        &&& opt_string_ok(m, "appointment_type"@)
        &&& opt_string_ok(m, "remark"@)
        &&& opt_bool_ok(m, "valid"@)
        &&& opt_bool_ok(m, "cancelled"@)
        &&& opt_bool_ok(m, "modified"@)
        &&& opt_bool_ok(m, "moved"@)
        &&& opt_bool_ok(m, "new"@)
        &&& opt_i64_ok(m, "last_modified"@)
        &&& opt_string_ok(m, "change_description"@)
        &&& opt_i64_ok(m, "branch_of_school"@)
    }
}

/// The appointment `a` holds, field for field, what the record `j` says.
pub open spec fn appointment_matches(a: Appointment, j: JsonData) -> bool {
    j matches JsonData::Obj(m) && {
        &&& opt_i64_matches(a.id, m, "id"@)
        &&& opt_i64_matches(a.appointment_instance, m, "appointment_instance"@)
        &&& opt_i64_matches(a.start, m, "start"@)
        &&& opt_i64_matches(a.end, m, "end"@)
        &&& opt_i64_matches(a.start_time_slot, m, "start_time_slot"@)
        &&& opt_i64_matches(a.end_time_slot, m, "end_time_slot"@)
        &&& opt_strings_matches(a.subjects, m, "subjects"@)
        &&& opt_strings_matches(a.teachers, m, "teachers"@)
        &&& opt_strings_matches(a.groups, m, "groups"@)
        &&& opt_strings_matches(a.locations, m, "locations"@)
        &&& opt_string_matches(a.appointment_type, m, "appointment_type"@)
        &&& opt_string_matches(a.remark, m, "remark"@)
        &&& opt_bool_matches(a.valid, m, "valid"@)
        &&& opt_bool_matches(a.cancelled, m, "cancelled"@)
        &&& opt_bool_matches(a.modified, m, "modified"@)
        &&& opt_bool_matches(a.moved, m, "moved"@)
        &&& opt_bool_matches(a.new, m, "new"@)
        &&& opt_i64_matches(a.last_modified, m, "last_modified"@)
        &&& opt_string_matches(a.change_description, m, "change_description"@)
        &&& opt_i64_matches(a.branch_of_school, m, "branch_of_school"@)
    }
}

/// Reads one optional integer member.
fn get_opt_i64(v: &serde_json::Value, key: &str) -> (r: Result<Option<i64>, ScheduleError>)
    requires
        json_model(*v) is Obj,
    ensures
        match json_model(*v) {
            JsonData::Obj(m) => {
                &&& r matches Ok(f) ==> opt_i64_ok(m, key@) && opt_i64_matches(f, m, key@)
                &&& r matches Err(e) ==> e == ScheduleError::MalformedResponse && !opt_i64_ok(
                    m,
                    key@,
                )
            },
            _ => false,
        },
{
    match json_get(v, key) {
        None => Ok(None),
        Some(u) => {
            if json_is_null(u) {
                Ok(None)
            } else {
                match json_as_i64(u) {
                    Some(n) => Ok(Some(n)),
                    None => Err(ScheduleError::MalformedResponse),
                }
            }
        },
    }
}

/// Reads one optional string member.
fn get_opt_string(v: &serde_json::Value, key: &str) -> (r: Result<Option<String>, ScheduleError>)
    requires
        json_model(*v) is Obj,
    ensures
        match json_model(*v) {
            JsonData::Obj(m) => {
                &&& r matches Ok(f) ==> opt_string_ok(m, key@) && opt_string_matches(f, m, key@)
                &&& r matches Err(e) ==> e == ScheduleError::MalformedResponse && !opt_string_ok(
                    m,
                    key@,
                )
            },
            _ => false,
        },
{
    match json_get(v, key) {
        None => Ok(None),
        Some(u) => {
            if json_is_null(u) {
                Ok(None)
            } else {
                match json_as_str(u) {
                    Some(s) => Ok(Some(s.to_owned())),
                    None => Err(ScheduleError::MalformedResponse),
                }
            }
        },
    }
}

/// Reads one optional boolean member.
fn get_opt_bool(v: &serde_json::Value, key: &str) -> (r: Result<Option<bool>, ScheduleError>)
    requires
        json_model(*v) is Obj,
    ensures
        match json_model(*v) {
            JsonData::Obj(m) => {
                &&& r matches Ok(f) ==> opt_bool_ok(m, key@) && opt_bool_matches(f, m, key@)
                &&& r matches Err(e) ==> e == ScheduleError::MalformedResponse && !opt_bool_ok(
                    m,
                    key@,
                )
            },
            _ => false,
        },
{
    match json_get(v, key) {
        None => Ok(None),
        Some(u) => {
            if json_is_null(u) {
                Ok(None)
            } else {
                match json_as_bool(u) {
                    Some(b) => Ok(Some(b)),
                    None => Err(ScheduleError::MalformedResponse),
                }
            }
        },
    }
}

/// Reads one optional list-of-strings member.
fn get_opt_strings(v: &serde_json::Value, key: &str) -> (r: Result<
    Option<Vec<String>>,
    ScheduleError,
>)
    requires
        json_model(*v) is Obj,
    ensures
        match json_model(*v) {
            JsonData::Obj(m) => {
                &&& r matches Ok(f) ==> opt_strings_ok(m, key@) && opt_strings_matches(f, m, key@)
                &&& r matches Err(e) ==> e == ScheduleError::MalformedResponse && !opt_strings_ok(
                    m,
                    key@,
                )
            },
            _ => false,
        },
{
    match json_get(v, key) {
        None => Ok(None),
        Some(u) => {
            if json_is_null(u) {
                Ok(None)
            } else {
                match json_as_array(u) {
                    None => Err(ScheduleError::MalformedResponse),
                    Some(arr) => {
                        let ghost elts = (match json_model(*u) {
                            JsonData::Arr(e) => e,
                            _ => Seq::empty(),
                        });
                        let mut list: Vec<String> = Vec::new();
                        let mut i: usize = 0;
                        while i < arr.len()
                            invariant
                                json_model(*v) matches JsonData::Obj(mm) && mm.contains_key(key@)
                                    && mm[key@] == json_model(*u),
                                !(json_model(*u) is Null),
                                json_model(*u) matches JsonData::Arr(e) && e == elts,
                                arr@.len() == elts.len(),
                                forall|k: int|
                                    0 <= k < elts.len() ==> json_model(arr@[k]) == elts[k],
                                i <= elts.len(),
                                list@.len() == i,
                                forall|k: int|
                                    0 <= k < i ==> ((#[trigger] elts[k])
                                        matches JsonData::Str(t) && list@[k]@ == t),
                            decreases arr@.len() - i,
                        {
                            match json_as_str(&arr[i]) {
                                Some(s) => {
                                    list.push(s.to_owned());
                                },
                                None => {
                                    proof {
                                        let mm = json_model(*v)->Obj_0;
                                        assert(elts[i as int] == json_model(arr@[i as int]));
                                        assert(!(elts[i as int] is Str));
                                        assert(!opt_strings_ok(mm, key@));
                                    }
                                    return Err(ScheduleError::MalformedResponse);
                                },
                            }
                            i += 1;
                        }
                        Ok(Some(list))
                    },
                }
            }
        },
    }
}

/// Builds one appointment from one element of the data array, rejecting an
/// element that is not an object or has a wrongly typed member.
pub fn parse_appointment(v: &serde_json::Value) -> (r: Result<Appointment, ScheduleError>)
    ensures
        r matches Ok(a) ==> appointment_ok(json_model(*v)) && appointment_matches(
            a,
            json_model(*v),
        ),
        r matches Err(e) ==> e == ScheduleError::MalformedResponse && !appointment_ok(
            json_model(*v),
        ),
{
    if !json_is_object(v) {
        return Err(ScheduleError::MalformedResponse);
    }
    let id = get_opt_i64(v, "id")?;
    let appointment_instance = get_opt_i64(v, "appointment_instance")?;
    let start = get_opt_i64(v, "start")?;
    let end = get_opt_i64(v, "end")?;
    let start_time_slot = get_opt_i64(v, "start_time_slot")?;
    let end_time_slot = get_opt_i64(v, "end_time_slot")?;
    let subjects = get_opt_strings(v, "subjects")?;
    let teachers = get_opt_strings(v, "teachers")?;
    let groups = get_opt_strings(v, "groups")?;
    let locations = get_opt_strings(v, "locations")?;
    let appointment_type = get_opt_string(v, "appointment_type")?;
    let remark = get_opt_string(v, "remark")?;
    let valid = get_opt_bool(v, "valid")?;
    let cancelled = get_opt_bool(v, "cancelled")?;
    let modified = get_opt_bool(v, "modified")?;
    let moved = get_opt_bool(v, "moved")?;
    let new = get_opt_bool(v, "new")?;
    let last_modified = get_opt_i64(v, "last_modified")?;
    let change_description = get_opt_string(v, "change_description")?;
    let branch_of_school = get_opt_i64(v, "branch_of_school")?;
    Ok(
        Appointment {
            id,
            appointment_instance,
            start,
            end,
            start_time_slot,
            end_time_slot,
            subjects,
            teachers,
            groups,
            locations,
            appointment_type,
            remark,
            valid,
            cancelled,
            modified,
            moved,
            new,
            last_modified,
            change_description,
            branch_of_school,
        },
    )
}

/// The data array inside the response envelope, when the document has the
/// expected `{ "response": { "data": [...] } }` shape.
pub open spec fn spec_envelope_data(j: JsonData) -> Option<Seq<JsonData>> {
    match j {
        JsonData::Obj(m) => {
            if m.contains_key("response"@) {
                match m["response"@] {
                    JsonData::Obj(m2) => {
                        if m2.contains_key("data"@) {
                            match m2["data"@] {
                                JsonData::Arr(elts) => Some(elts),
                                _ => None,
                            }
                        } else {
                            None
                        }
                    },
                    _ => None,
                }
            } else {
                None
            }
        },
        _ => None,
    }
}

/// Every element of the data array has the shape of an appointment record.
pub open spec fn appointments_ok(elts: Seq<JsonData>) -> bool {
    forall|i: int| 0 <= i < elts.len() ==> appointment_ok(elts[i])
}

/// The appointments in `list` hold, element for element and in order, what
/// the records in `elts` say.
pub open spec fn appointments_match(list: Seq<Appointment>, elts: Seq<JsonData>) -> bool {
    list.len() == elts.len() && (forall|i: int|
        0 <= i < elts.len() ==> appointment_matches(list[i], elts[i]))
}

/// A fetched body is well formed when, after the wire fields are renamed,
/// it parses as JSON, carries the response envelope, and every element of
/// its data array has the shape of an appointment record.
pub open spec fn spec_fetch_ok(body: Seq<u8>) -> bool {
    &&& json_parsed(spec_rename(body)) matches Some(j)
    &&& spec_envelope_data(j) matches Some(elts)
    &&& appointments_ok(elts)
}

/// The data array of a well-formed body.
pub open spec fn spec_fetch_data(body: Seq<u8>) -> Seq<JsonData> {
    match json_parsed(spec_rename(body)) {
        Some(j) => match spec_envelope_data(j) {
            Some(elts) => elts,
            None => Seq::empty(),
        },
        None => Seq::empty(),
    }
}

/// Builds the appointment list of a fetched body: renames the wire fields,
/// parses the body as JSON, extracts the data array of the response
/// envelope, and returns its records sorted by start key, missing starts
/// counting as 0 and equal keys keeping their order.
pub fn appointments_from_body(body: &Vec<u8>) -> (r: Result<Vec<Appointment>, ScheduleError>)
    ensures
        r matches Ok(list) ==> spec_fetch_ok(body@) && (exists|raw: Seq<Appointment>|
            appointments_match(raw, spec_fetch_data(body@)) && list@ == spec_sort(raw)),
        r matches Err(e) ==> e == ScheduleError::MalformedResponse && !spec_fetch_ok(body@),
{
    let renamed = rename_wire_fields(body);
    let parsed = match parse_json(renamed.as_slice()) {
        Ok(v) => v,
        Err(_) => {
            return Err(ScheduleError::MalformedResponse);
        },
    };
    let response = match json_get(&parsed, "response") {
        Some(u) => u,
        None => {
            return Err(ScheduleError::MalformedResponse);
        },
    };
    let data = match json_get(response, "data") {
        Some(u) => u,
        None => {
            return Err(ScheduleError::MalformedResponse);
        },
    };
    let arr = match json_as_array(data) {
        Some(a) => a,
        None => {
            return Err(ScheduleError::MalformedResponse);
        },
    };
    let ghost elts = spec_fetch_data(body@);
    let mut raw: Vec<Appointment> = Vec::new();
    let mut i: usize = 0;
    while i < arr.len()
        invariant
            elts == spec_fetch_data(body@),
            json_parsed(spec_rename(body@)) matches Some(j) && spec_envelope_data(j) == Some(
                elts,
            ),
            arr@.len() == elts.len(),
            forall|k: int| 0 <= k < elts.len() ==> json_model(arr@[k]) == elts[k],
            i <= elts.len(),
            raw@.len() == i,
            forall|k: int|
                0 <= k < i ==> appointment_ok(elts[k]) && appointment_matches(raw@[k], elts[k]),
        decreases arr@.len() - i,
    {
        match parse_appointment(&arr[i]) {
            Ok(a) => {
                raw.push(a);
            },
            Err(e) => {
                proof {
                    assert(!appointment_ok(elts[i as int]));
                    assert(!appointments_ok(elts));
                    assert(!spec_fetch_ok(body@));
                }
                return Err(e);
            },
        }
        i += 1;
    }
    let ghost rawseq = raw@;
    let sorted = sort_appointments(raw);
    proof {
        assert(appointments_match(rawseq, spec_fetch_data(body@)));
        assert(sorted@ == spec_sort(rawseq));
    }
    Ok(sorted)
}

/// Two optional string lists that hold what the same member says agree.
proof fn lemma_strings_match_eq(
    x: Option<Vec<String>>,
    y: Option<Vec<String>>,
    m: Map<Seq<char>, JsonData>,
    name: Seq<char>,
)
    requires
        opt_strings_matches(x, m, name),
        opt_strings_matches(y, m, name),
    ensures
        opt_strings_eq(x, y),
{
    if m.contains_key(name) && !(m[name] is Null) {
        match (x, y) {
            (Some(v), Some(w)) => {
                let elts = m[name]->Arr_0;
                assert forall|i: int| 0 <= i < v@.len() implies v@[i]@ == (#[trigger] w@[i])@ by {
                    assert(elts[i] is Str);
                    assert(v@[i]@ == elts[i]->Str_0);
                    assert(w@[i]@ == elts[i]->Str_0);
                }
            },
            _ => {},
        }
    }
}

/// Two appointments that hold what the same record says agree on every
/// field.
pub proof fn lemma_match_eq(a: Appointment, b: Appointment, j: JsonData)
    requires
        appointment_matches(a, j),
        appointment_matches(b, j),
    ensures
        crate::appointment::appointment_eq(a, b),
{
    let m = j->Obj_0;
    lemma_strings_match_eq(a.subjects, b.subjects, m, "subjects"@);
    lemma_strings_match_eq(a.teachers, b.teachers, m, "teachers"@);
    lemma_strings_match_eq(a.groups, b.groups, m, "groups"@);
    lemma_strings_match_eq(a.locations, b.locations, m, "locations"@);
}

/// Two appointment lists that hold what the same records say agree,
/// element for element.
pub proof fn lemma_match_same(
    l1: Seq<Appointment>,
    l2: Seq<Appointment>,
    elts: Seq<JsonData>,
)
    requires
        appointments_match(l1, elts),
        appointments_match(l2, elts),
    ensures
        crate::appointment::same_appointments(l1, l2),
{
    assert forall|i: int| 0 <= i < l1.len() implies crate::appointment::appointment_eq(
        #[trigger] l1[i],
        l2[i],
    ) by {
        lemma_match_eq(l1[i], l2[i], elts[i]);
    }
}

/// The string member `access_token` of the token-exchange response, when
/// the body parses as a JSON object that carries one.
pub open spec fn spec_access_token(body: Seq<u8>) -> Option<Seq<char>> {
    match json_parsed(body) {
        Some(JsonData::Obj(m)) => {
            if m.contains_key("access_token"@) {
                match m["access_token"@] {
                    JsonData::Str(t) => Some(t),
                    _ => None,
                }
            } else {
                None
            }
        },
        _ => None,
    }
}

/// Pulls the access token out of the token-exchange response body.
pub fn extract_access_token(body: &Vec<u8>) -> (r: Result<String, ScheduleError>)
    ensures
        r matches Ok(t) ==> spec_access_token(body@) == Some(t@),
        r matches Err(e) ==> e == ScheduleError::MalformedResponse && spec_access_token(body@)
            is None,
{
    let parsed = match parse_json(body.as_slice()) {
        Ok(v) => v,
        Err(_) => {
            return Err(ScheduleError::MalformedResponse);
        },
    };
    let token_value = match json_get(&parsed, "access_token") {
        Some(u) => u,
        None => {
            return Err(ScheduleError::MalformedResponse);
        },
    };
    match json_as_str(token_value) {
        Some(s) => Ok(s.to_owned()),
        None => Err(ScheduleError::MalformedResponse),
    }
}

} // verus!
