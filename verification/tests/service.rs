use users_rest::codec::{encode_response, get_id, Response, Status};
use users_rest::handler::{begin, resume, DbAction, DbEvent, Pending, Step};
use users_rest::model::{decode_body, users_json, User};
use users_rest::text::{parse_i32, str_starts_with};

fn reply_of(step: Step) -> Response {
    match step {
        Step::Reply(r) => r,
        Step::Ask(_, _) => panic!("expected a reply, got a database action"),
    }
}

#[test]
fn options_preflight_is_ok_and_empty() {
    let r = reply_of(begin("OPTIONS /api/rust/users HTTP/1.1\r\n\r\n"));
    assert_eq!(r.status, Status::Okay);
    assert_eq!(r.body, "");
}

#[test]
fn unmatched_request_is_not_found() {
    let r = reply_of(begin("PATCH /api/rust/users/1 HTTP/1.1\r\n\r\n"));
    assert_eq!(r.status, Status::NotFound);
    assert_eq!(r.body, "404 not found");
}

#[test]
fn get_one_dispatches_before_get_all_numeric() {
    match begin("GET /api/rust/users/42 HTTP/1.1\r\n\r\n") {
        Step::Ask(DbAction::FetchOne { id }, Pending::AwaitRequestedRow) => assert_eq!(id, 42),
        _ => panic!("GET with a trailing id must dispatch to get-one"),
    }
}

#[test]
fn get_one_dispatches_before_get_all_non_numeric() {
    // A non-numeric id still selects the get-one route; it then fails the id
    // parse, so the reply is the generic error, never the get-all listing.
    let r = reply_of(begin("GET /api/rust/users/abc HTTP/1.1\r\n\r\n"));
    assert_eq!(r.status, Status::InternalError);
    assert_eq!(r.body, "Internal error");
}

#[test]
fn get_all_without_trailing_segment() {
    match begin("GET /api/rust/users HTTP/1.1\r\n\r\n") {
        Step::Ask(DbAction::FetchAll, Pending::AwaitAllRows) => {}
        _ => panic!("bare GET must dispatch to get-all"),
    }
}

#[test]
fn create_then_get_one_round_trip() {
    let req = "POST /api/rust/users HTTP/1.1\r\n\r\n{\"name\":\"Ann\",\"email\":\"a@x.com\"}";
    let step = begin(req);
    let pending = match step {
        Step::Ask(DbAction::Insert { name, email }, p) => {
            assert_eq!(name, "Ann");
            assert_eq!(email, "a@x.com");
            p
        }
        _ => panic!("POST with a decodable body must insert"),
    };
    let step = resume(pending, DbEvent::InsertedId(1));
    let pending = match step {
        Step::Ask(DbAction::FetchOne { id }, p) => {
            assert_eq!(id, 1);
            p
        }
        _ => panic!("create must re-read the committed row"),
    };
    let row = User { id: 1, name: "Ann".to_owned(), email: "a@x.com".to_owned() };
    let created = reply_of(resume(pending, DbEvent::FoundRow(row)));
    assert_eq!(created.status, Status::Okay);
    assert_eq!(created.body, "{\"id\":1,\"name\":\"Ann\",\"email\":\"a@x.com\"}");

    // Get-one with the returned id sees the same stored row.
    let row = User { id: 1, name: "Ann".to_owned(), email: "a@x.com".to_owned() };
    let fetched = reply_of(resume(Pending::AwaitRequestedRow, DbEvent::FoundRow(row)));
    assert_eq!(fetched.status, Status::Okay);
    assert_eq!(fetched.body, created.body);
}

#[test]
fn post_response_is_200_with_entity() {
    let row = User { id: 1, name: "Ann".to_owned(), email: "a@x.com".to_owned() };
    let r = reply_of(resume(Pending::AwaitCreatedRow, DbEvent::FoundRow(row)));
    assert_eq!(r.status, Status::Okay);
    assert_eq!(r.body, "{\"id\":1,\"name\":\"Ann\",\"email\":\"a@x.com\"}");
    let wire = encode_response(&r);
    assert!(wire.starts_with("HTTP/1.1 200 OK\r\n"));
    assert!(wire.ends_with("\r\n\r\n{\"id\":1,\"name\":\"Ann\",\"email\":\"a@x.com\"}"));
}

#[test]
fn create_body_decode_failure_is_internal_error() {
    let r = reply_of(begin("POST /api/rust/users HTTP/1.1\r\n\r\nnot json"));
    assert_eq!(r.status, Status::InternalError);
    assert_eq!(r.body, "Internal error");
}

#[test]
fn create_fetch_failure_reports_retrieval_error() {
    let r = reply_of(resume(Pending::AwaitCreatedRow, DbEvent::Failed));
    assert_eq!(r.status, Status::InternalError);
    assert_eq!(r.body, "Failed to retrieve created user");
}

#[test]
fn get_one_missing_row_is_not_found_not_internal() {
    let r = reply_of(resume(Pending::AwaitRequestedRow, DbEvent::NoSuchRow));
    assert_eq!(r.status, Status::NotFound);
    assert_eq!(r.body, "User not found");
}

#[test]
fn get_one_database_failure_is_internal_error() {
    let r = reply_of(resume(Pending::AwaitRequestedRow, DbEvent::Failed));
    assert_eq!(r.status, Status::InternalError);
}

#[test]
fn get_all_empty_table_is_ok_empty_sequence() {
    let r = reply_of(resume(Pending::AwaitAllRows, DbEvent::AllRows(Vec::new())));
    assert_eq!(r.status, Status::Okay);
    assert_eq!(r.body, "[]");
}

#[test]
fn get_all_two_rows_in_order() {
    let mut rows = Vec::new();
    rows.push(User { id: 1, name: "Ann".to_owned(), email: "a@x.com".to_owned() });
    rows.push(User { id: 2, name: "Bob".to_owned(), email: "b@x.com".to_owned() });
    let r = reply_of(resume(Pending::AwaitAllRows, DbEvent::AllRows(rows)));
    assert_eq!(r.status, Status::Okay);
    assert_eq!(
        r.body,
        "[{\"id\":1,\"name\":\"Ann\",\"email\":\"a@x.com\"},{\"id\":2,\"name\":\"Bob\",\"email\":\"b@x.com\"}]"
    );
}

#[test]
fn update_nonexistent_id_still_reports_success() {
    // Documented gap: the update does not inspect the affected-row count, so
    // an id that matched no row still answers OK.
    let r = reply_of(resume(Pending::AwaitUpdateDone, DbEvent::RowsAffected(0)));
    assert_eq!(r.status, Status::Okay);
    assert_eq!(r.body, "User updated");
}

#[test]
fn update_request_flows_to_update_action() {
    let req = "PUT /api/rust/users/7 HTTP/1.1\r\n\r\n{\"name\":\"Ann\",\"email\":\"a@x.com\"}";
    match begin(req) {
        Step::Ask(DbAction::UpdateRow { id, name, email }, Pending::AwaitUpdateDone) => {
            assert_eq!(id, 7);
            assert_eq!(name, "Ann");
            assert_eq!(email, "a@x.com");
        }
        _ => panic!("PUT with id and body must update"),
    }
}

#[test]
fn delete_missing_row_is_not_found_twice() {
    let first = reply_of(resume(Pending::AwaitDeleteCount, DbEvent::RowsAffected(0)));
    assert_eq!(first.status, Status::NotFound);
    assert_eq!(first.body, "User not found");
    let second = reply_of(resume(Pending::AwaitDeleteCount, DbEvent::RowsAffected(0)));
    assert_eq!(second.status, Status::NotFound);
    assert_eq!(second.body, "User not found");
}

#[test]
fn delete_on_empty_table_is_404_wire_response() {
    match begin("DELETE /api/rust/users/999 HTTP/1.1\r\n\r\n") {
        Step::Ask(DbAction::DeleteRow { id }, p) => {
            assert_eq!(id, 999);
            let r = reply_of(resume(p, DbEvent::RowsAffected(0)));
            assert_eq!(r.status, Status::NotFound);
            assert_eq!(r.body, "User not found");
            let wire = encode_response(&r);
            assert_eq!(wire, "HTTP/1.1 404 NOT FOUND\r\n\r\nUser not found");
        }
        _ => panic!("DELETE with an id must delete"),
    }
}

#[test]
fn delete_affected_row_is_ok() {
    let r = reply_of(resume(Pending::AwaitDeleteCount, DbEvent::RowsAffected(1)));
    assert_eq!(r.status, Status::Okay);
    assert_eq!(r.body, "User deleted");
}

#[test]
fn get_id_takes_fifth_segment_up_to_whitespace() {
    assert_eq!(get_id("GET /api/rust/users/42 HTTP/1.1\r\n\r\n"), "42");
    assert_eq!(get_id("DELETE /api/rust/users/999 HTTP/1.1\r\n\r\n"), "999");
    assert_eq!(get_id("GET /api/rust/users/"), "");
    assert_eq!(get_id("GET /api/rust"), "");
}

#[test]
fn parse_i32_accepts_signs_and_rejects_overflow() {
    assert_eq!(parse_i32("42"), Some(42));
    assert_eq!(parse_i32("+7"), Some(7));
    assert_eq!(parse_i32("-13"), Some(-13));
    assert_eq!(parse_i32("042"), Some(42));
    assert_eq!(parse_i32("2147483647"), Some(2147483647));
    assert_eq!(parse_i32("-2147483648"), Some(-2147483648));
    assert_eq!(parse_i32("2147483648"), None);
    assert_eq!(parse_i32("-2147483649"), None);
    assert_eq!(parse_i32(""), None);
    assert_eq!(parse_i32("-"), None);
    assert_eq!(parse_i32("4x"), None);
}

#[test]
fn decode_body_reads_fields_and_ignores_id() {
    let u = decode_body("POST /x\r\n\r\n{\"id\":9,\"name\":\"Ann\",\"email\":\"a@x.com\"}")
        .expect("a well-formed body decodes");
    assert_eq!(u.name, "Ann");
    assert_eq!(u.email, "a@x.com");
}

#[test]
fn decode_body_without_blank_line_fails() {
    assert!(decode_body("POST /api/rust/users HTTP/1.1").is_err());
}

#[test]
fn decode_body_with_missing_field_fails() {
    assert!(decode_body("POST /x\r\n\r\n{\"name\":\"Ann\"}").is_err());
}

#[test]
fn users_json_serializes_each_row() {
    let mut rows = Vec::new();
    rows.push(User { id: 5, name: "N".to_owned(), email: "e".to_owned() });
    assert_eq!(users_json(&rows), "[{\"id\":5,\"name\":\"N\",\"email\":\"e\"}]");
}

#[test]
fn starts_with_agrees_with_std() {
    assert!(str_starts_with("GET /api/rust/users/1", "GET /api/rust/users/"));
    assert!(!str_starts_with("GET /api/rust/users", "GET /api/rust/users/"));
    assert!(str_starts_with("anything", ""));
    assert!(!str_starts_with("GE", "GET"));
}

#[test]
fn ok_head_carries_cors_headers() {
    let r = reply_of(begin("OPTIONS * HTTP/1.1\r\n\r\n"));
    let wire = encode_response(&r);
    assert!(wire.contains("Access-Control-Allow-Origin: *"));
    assert!(wire.contains("Access-Control-Allow-Methods: GET, POST, PUT, DELETE"));
    assert!(wire.contains("Access-Control-Allow-Headers: Content-Type"));
}
