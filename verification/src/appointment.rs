use vstd::prelude::*;

verus! {

/// One scheduled event (lesson, exam, etc.) in a school timetable.
/// The upstream service omits absent fields, so every attribute is optional
/// and consumers must pick an explicit default where they need one.
#[derive(Debug, PartialEq)]
pub struct Appointment {
    pub id: Option<i64>,
    pub appointment_instance: Option<i64>,
    pub start: Option<i64>,
    pub end: Option<i64>,
    pub start_time_slot: Option<i64>,
    pub end_time_slot: Option<i64>,
    pub subjects: Option<Vec<String>>,
    pub teachers: Option<Vec<String>>,
    pub groups: Option<Vec<String>>,
    pub locations: Option<Vec<String>>,
    pub appointment_type: Option<String>,
    pub remark: Option<String>,
    pub valid: Option<bool>,
    pub cancelled: Option<bool>,
    pub modified: Option<bool>,
    pub moved: Option<bool>,
    pub new: Option<bool>,
    pub last_modified: Option<i64>,
    pub change_description: Option<String>,
    pub branch_of_school: Option<i64>,
}

/// The key appointments are ordered by: a missing start counts as 0.
pub open spec fn start_key(a: Appointment) -> int {
    match a.start {
        Some(t) => t as int,
        None => 0,
    }
}

/// Two optional strings that read the same.
pub open spec fn opt_string_eq(x: Option<String>, y: Option<String>) -> bool {
    match (x, y) {
        (None, None) => true,
        (Some(s), Some(t)) => s@ == t@,
        _ => false,
    }
}

/// Two optional string lists that read the same, element for element.
pub open spec fn opt_strings_eq(x: Option<Vec<String>>, y: Option<Vec<String>>) -> bool {
    match (x, y) {
        (None, None) => true,
        (Some(v), Some(w)) => v@.len() == w@.len() && (forall|i: int|
            0 <= i < v@.len() ==> v@[i]@ == (#[trigger] w@[i])@),
        _ => false,
    }
}

/// Two appointments that agree on every field, reading strings by their
/// contents.
pub open spec fn appointment_eq(a: Appointment, b: Appointment) -> bool {
    &&& a.id == b.id
    &&& a.appointment_instance == b.appointment_instance
    &&& a.start == b.start
    &&& a.end == b.end
    &&& a.start_time_slot == b.start_time_slot
    &&& a.end_time_slot == b.end_time_slot
    &&& opt_strings_eq(a.subjects, b.subjects)
    &&& opt_strings_eq(a.teachers, b.teachers)
    &&& opt_strings_eq(a.groups, b.groups)
    &&& opt_strings_eq(a.locations, b.locations)
    &&& opt_string_eq(a.appointment_type, b.appointment_type)
    &&& opt_string_eq(a.remark, b.remark)
    &&& a.valid == b.valid
    &&& a.cancelled == b.cancelled
    &&& a.modified == b.modified
    &&& a.moved == b.moved
    &&& a.new == b.new
    &&& a.last_modified == b.last_modified
    &&& opt_string_eq(a.change_description, b.change_description)
    &&& a.branch_of_school == b.branch_of_school
}

/// Element for element, the two sequences hold appointments that agree.
pub open spec fn same_appointments(s1: Seq<Appointment>, s2: Seq<Appointment>) -> bool {
    s1.len() == s2.len() && (forall|i: int|
        0 <= i < s1.len() ==> appointment_eq(#[trigger] s1[i], s2[i]))
}

} // verus!
