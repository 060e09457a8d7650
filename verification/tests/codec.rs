use user_service::dispatch::respond;
use user_service::dispatch::DbEvent;
use user_service::json::decode_user_payload;
use user_service::json::encode_user;
use user_service::json::encode_user_list;
use user_service::response::Status;
use user_service::store::UserRow;

#[test]
fn decode_reads_name_and_email_fields() {
    let r = decode_user_payload("{\"name\":\"Alice\",\"email\":\"alice@x.com\"}");
    assert_eq!(r, Some(("Alice".to_string(), "alice@x.com".to_string())));
}

#[test]
fn decode_ignores_extra_fields_and_id() {
    let r = decode_user_payload("{\"id\":null,\"name\":\"A\",\"email\":\"B\",\"x\":3}");
    assert_eq!(r, Some(("A".to_string(), "B".to_string())));
}

#[test]
fn decode_rejects_empty_and_malformed_payloads() {
    assert_eq!(decode_user_payload(""), None);
    assert_eq!(decode_user_payload("not json"), None);
    assert_eq!(decode_user_payload("{\"name\":\"A\"}"), None);
    assert_eq!(decode_user_payload("{\"name\":1,\"email\":\"B\"}"), None);
    assert_eq!(decode_user_payload("[\"A\",\"B\"]"), None);
}

#[test]
fn encode_renders_fields_in_declaration_order() {
    assert_eq!(
        encode_user(1, "Alice", "alice@x.com"),
        "{\"id\":1,\"name\":\"Alice\",\"email\":\"alice@x.com\"}"
    );
}

#[test]
fn encode_escapes_special_characters() {
    assert_eq!(
        encode_user(2, "A\"B\\C", "a\nb"),
        "{\"id\":2,\"name\":\"A\\\"B\\\\C\",\"email\":\"a\\nb\"}"
    );
}

#[test]
fn encode_list_of_none_is_empty_brackets() {
    let rows: Vec<UserRow> = Vec::new();
    assert_eq!(encode_user_list(&rows), "[]");
}

#[test]
fn encode_list_joins_rows_with_commas() {
    let rows = vec![
        UserRow { id: 1, name: "A".to_string(), email: "a@x".to_string() },
        UserRow { id: 2, name: "B".to_string(), email: "b@x".to_string() },
    ];
    assert_eq!(
        encode_user_list(&rows),
        "[{\"id\":1,\"name\":\"A\",\"email\":\"a@x\"},{\"id\":2,\"name\":\"B\",\"email\":\"b@x\"}]"
    );
}

#[test]
fn store_failure_maps_to_internal_error() {
    let r = respond(DbEvent::Failed);
    assert_eq!(r.status, Status::InternalError);
    assert_eq!(r.body, "Internal error");
}

#[test]
fn zero_rows_deleted_maps_to_not_found() {
    let r = respond(DbEvent::Deleted { n: 0 });
    assert_eq!(r.status, Status::NotFound);
    assert_eq!(r.body, "User not found");
    let r2 = respond(DbEvent::Deleted { n: 1 });
    assert_eq!(r2.status, Status::Success);
    assert_eq!(r2.body, "User deleted");
}
