use zermelo::error::ScheduleError;
use zermelo::schedule::{clean_code, grant_type, Schedule};
use zermelo::url::{appointments_url, token_url};

#[test]
fn with_access_token_needs_no_network() {
    let schedule = Schedule::with_access_token("example", "abc123");
    assert_eq!(schedule.school, String::from("example"));
    assert_eq!(schedule.access_token, String::from("abc123"));
    assert_eq!(schedule.appointments.len(), 0);
}

#[test]
fn token_exchange_ok() {
    let body = r#"{"access_token": "xyz987", "token_type": "bearer"}"#;
    let schedule = Schedule::from_token_response("example", 200, &body.as_bytes().to_vec())
        .unwrap();
    assert_eq!(schedule.school, String::from("example"));
    assert_eq!(schedule.access_token, String::from("xyz987"));
    assert_eq!(schedule.appointments.len(), 0);
}

#[test]
fn token_exchange_non_200_fails() {
    let body = r#"{"access_token": "xyz987"}"#;
    let result = Schedule::from_token_response("example", 401, &body.as_bytes().to_vec());
    match result {
        Err(ScheduleError::AuthenticationFailed { status }) => assert_eq!(status, 401),
        _ => panic!("expected an authentication failure"),
    }
}

#[test]
fn token_exchange_malformed_body_fails() {
    let not_json = String::from("<html>no</html>");
    let result = Schedule::from_token_response("example", 200, &not_json.as_bytes().to_vec());
    match result {
        Err(ScheduleError::MalformedResponse) => {}
        _ => panic!("expected a malformed-response failure"),
    }
    let no_token = String::from(r#"{"token": "xyz987"}"#);
    let result = Schedule::from_token_response("example", 200, &no_token.as_bytes().to_vec());
    match result {
        Err(ScheduleError::MalformedResponse) => {}
        _ => panic!("expected a malformed-response failure"),
    }
}

fn schedule_with_one_appointment() -> Schedule {
    let mut schedule = Schedule::with_access_token("example", "abc123");
    let body = r#"{"response":{"data":[{"id": 11, "start": 5}]}}"#;
    schedule
        .apply_appointments_response(200, &body.as_bytes().to_vec())
        .unwrap();
    assert_eq!(schedule.appointments.len(), 1);
    schedule
}

#[test]
fn failed_fetch_keeps_state() {
    let mut schedule = schedule_with_one_appointment();
    let good_body = r#"{"response":{"data":[{"id": 22}]}}"#;
    let result = schedule.apply_appointments_response(500, &good_body.as_bytes().to_vec());
    match result {
        Err(ScheduleError::ResponseError { status }) => assert_eq!(status, 500),
        _ => panic!("expected a response failure"),
    }
    assert_eq!(schedule.appointments.len(), 1);
    assert_eq!(schedule.appointments[0].id, Some(11));

    let bad_body = String::from("not json");
    let result = schedule.apply_appointments_response(200, &bad_body.as_bytes().to_vec());
    match result {
        Err(ScheduleError::MalformedResponse) => {}
        _ => panic!("expected a malformed-response failure"),
    }
    assert_eq!(schedule.appointments.len(), 1);
    assert_eq!(schedule.appointments[0].id, Some(11));
}

#[test]
fn second_fetch_replaces_first() {
    let mut schedule = schedule_with_one_appointment();
    let body = r#"{"response":{"data":[{"id": 31, "start": 9}, {"id": 32, "start": 2}]}}"#;
    schedule
        .apply_appointments_response(200, &body.as_bytes().to_vec())
        .unwrap();
    assert_eq!(schedule.appointments.len(), 2);
    assert_eq!(schedule.appointments[0].id, Some(32));
    assert_eq!(schedule.appointments[1].id, Some(31));
}

#[test]
fn token_url_is_exact() {
    assert_eq!(
        token_url("example"),
        b"https://example.zportal.nl/api/v3/oauth/token".to_vec()
    );
}

#[test]
fn appointments_url_is_exact() {
    assert_eq!(
        appointments_url("example", 1510401600, 1510491600, "abc123"),
        b"https://example.zportal.nl/api/v3/appointments?user=~me&start=1510401600&end=1510491600&access_token=abc123"
            .to_vec()
    );
    assert_eq!(
        appointments_url("s", -42, 0, "t"),
        b"https://s.zportal.nl/api/v3/appointments?user=~me&start=-42&end=0&access_token=t"
            .to_vec()
    );
}

#[test]
fn clean_code_strips_spaces() {
    assert_eq!(clean_code("123 456 789"), b"123456789".to_vec());
    assert_eq!(clean_code("abc"), b"abc".to_vec());
    assert_eq!(clean_code(""), b"".to_vec());
}

#[test]
fn grant_type_is_spelled_out() {
    assert_eq!(grant_type(), "authorization_code");
}

#[test]
fn error_messages() {
    assert_eq!(
        ScheduleError::TransportError.message(),
        "could not reach the service"
    );
    assert_eq!(
        ScheduleError::AuthenticationFailed { status: 401 }.message(),
        "response code is not 200"
    );
    assert_eq!(
        ScheduleError::ResponseError { status: 500 }.message(),
        "response code is not 200"
    );
    assert_eq!(
        ScheduleError::MalformedResponse.message(),
        "response has an unexpected shape"
    );
}
