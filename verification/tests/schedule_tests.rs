use zermelo::error::ScheduleError;
use zermelo::extract::appointments_from_body;
use zermelo::schedule::Schedule;

fn example_payload() -> String {
    String::from(
        r#"{
            "response": {
                "status": 200,
                "message": "",
                "startRow": 0,
                "endRow": 27,
                "totalRows": 27,
                "data": [
                    {
                        "id": 5,
                        "start": 42364236,
                        "end": 436234523,
                        "startTimeSlot": 1,
                        "endTimeSlot": 1,
                        "subjects": ["ne"],
                        "teachers": ["KRO"],
                        "groups": ["v1a"],
                        "locations": ["M92"],
                        "type": "lesson",
                        "remark": "Take care to bring your books",
                        "valid": true,
                        "cancelled": false,
                        "modified": true,
                        "moved": false,
                        "new": false,
                        "changeDescription": "The location has been changed from M13 to M92"
                    }
                ]
            }
        }"#,
    )
}

#[test]
fn parse_request() {
    let json = example_payload();
    let appointments = appointments_from_body(&json.as_bytes().to_vec()).unwrap();
    assert_eq!(appointments.len(), 1);
    let appointment = &appointments[0];
    assert_eq!(appointment.id, Some(5));
    assert_eq!(appointment.start, Some(42364236));
    assert_eq!(appointment.start_time_slot, Some(1));
    assert_eq!(appointment.subjects, Some(vec![String::from("ne")]));
    assert_eq!(appointment.appointment_type, Some(String::from("lesson")));
    assert_eq!(appointment.cancelled, Some(false));
}

#[test]
fn documented_example_through_fetch() {
    let mut schedule = Schedule::with_access_token("example", "token123");
    let body = example_payload().as_bytes().to_vec();
    let result = schedule.apply_appointments_response(200, &body);
    assert!(result.is_ok());
    assert_eq!(schedule.appointments.len(), 1);
    let appointment = &schedule.appointments[0];
    assert_eq!(appointment.id, Some(5));
    assert_eq!(appointment.start, Some(42364236));
    assert_eq!(appointment.start_time_slot, Some(1));
    assert_eq!(appointment.appointment_type, Some(String::from("lesson")));
    assert_eq!(appointment.cancelled, Some(false));
    assert_eq!(appointment.end, Some(436234523));
    assert_eq!(appointment.end_time_slot, Some(1));
    assert_eq!(appointment.teachers, Some(vec![String::from("KRO")]));
    assert_eq!(appointment.groups, Some(vec![String::from("v1a")]));
    assert_eq!(appointment.locations, Some(vec![String::from("M92")]));
    assert_eq!(
        appointment.remark,
        Some(String::from("Take care to bring your books"))
    );
    assert_eq!(appointment.valid, Some(true));
    assert_eq!(appointment.modified, Some(true));
    assert_eq!(appointment.moved, Some(false));
    assert_eq!(appointment.new, Some(false));
    assert_eq!(
        appointment.change_description,
        Some(String::from("The location has been changed from M13 to M92"))
    );
    assert_eq!(appointment.appointment_instance, None);
    assert_eq!(appointment.last_modified, None);
    assert_eq!(appointment.branch_of_school, None);
}

#[test]
fn wire_type_field_becomes_appointment_type() {
    let json = r#"{"response":{"data":[{"type":"lesson"}]}}"#;
    let appointments = appointments_from_body(&json.as_bytes().to_vec()).unwrap();
    assert_eq!(appointments.len(), 1);
    assert_eq!(
        appointments[0].appointment_type,
        Some(String::from("lesson"))
    );
}

#[test]
fn all_wire_names_are_renamed() {
    let json = r#"{"response":{"data":[{
        "appointmentInstance": 7,
        "startTimeSlot": 2,
        "endTimeSlot": 3,
        "type": "exam",
        "lastModified": 99,
        "changeDescription": "moved",
        "branchOfSchool": 4
    }]}}"#;
    let appointments = appointments_from_body(&json.as_bytes().to_vec()).unwrap();
    assert_eq!(appointments.len(), 1);
    let a = &appointments[0];
    assert_eq!(a.appointment_instance, Some(7));
    assert_eq!(a.start_time_slot, Some(2));
    assert_eq!(a.end_time_slot, Some(3));
    assert_eq!(a.appointment_type, Some(String::from("exam")));
    assert_eq!(a.last_modified, Some(99));
    assert_eq!(a.change_description, Some(String::from("moved")));
    assert_eq!(a.branch_of_school, Some(4));
}

#[test]
fn record_count_is_kept() {
    let json = r#"{"response":{"data":[
        {"id": 1, "start": 30},
        {"id": 2, "start": 20},
        {"id": 3, "start": 10}
    ]}}"#;
    let appointments = appointments_from_body(&json.as_bytes().to_vec()).unwrap();
    assert_eq!(appointments.len(), 3);
    assert_eq!(appointments[0].id, Some(3));
    assert_eq!(appointments[1].id, Some(2));
    assert_eq!(appointments[2].id, Some(1));
}

#[test]
fn missing_start_sorts_to_front_stably() {
    let json = r#"{"response":{"data":[
        {"id": 1, "start": 100},
        {"id": 2},
        {"id": 3, "start": 50},
        {"id": 4},
        {"id": 5, "start": 0}
    ]}}"#;
    let appointments = appointments_from_body(&json.as_bytes().to_vec()).unwrap();
    let ids: Vec<Option<i64>> = appointments.iter().map(|a| a.id).collect();
    assert_eq!(
        ids,
        vec![Some(2), Some(4), Some(5), Some(3), Some(1)]
    );
}

#[test]
fn empty_data_gives_empty_list() {
    let json = r#"{"response":{"data":[]}}"#;
    let appointments = appointments_from_body(&json.as_bytes().to_vec()).unwrap();
    assert_eq!(appointments.len(), 0);
}

#[test]
fn malformed_body_is_rejected() {
    let not_json = String::from("no json here");
    assert_eq!(
        appointments_from_body(&not_json.as_bytes().to_vec()),
        Err(ScheduleError::MalformedResponse)
    );
    let no_envelope = String::from(r#"{"data":[]}"#);
    assert_eq!(
        appointments_from_body(&no_envelope.as_bytes().to_vec()),
        Err(ScheduleError::MalformedResponse)
    );
    let wrong_type = String::from(r#"{"response":{"data":[{"id":"five"}]}}"#);
    assert_eq!(
        appointments_from_body(&wrong_type.as_bytes().to_vec()),
        Err(ScheduleError::MalformedResponse)
    );
}
