use user_service::router::route;
use user_service::router::Route;
use user_service::text::extract_body;
use user_service::text::get_id;
use user_service::text::parse_i32;
use user_service::text::starts_with;

#[test]
fn get_id_takes_third_slash_field_first_word() {
    assert_eq!(get_id("GET /users/42 HTTP/1.1\r\n\r\n"), "42");
    assert_eq!(get_id("DELETE /users/7 HTTP/1.1"), "7");
    assert_eq!(get_id("PUT /users/abc HTTP/1.1"), "abc");
    assert_eq!(get_id("GET /users/5\u{00A0}rest HTTP/1.1"), "5");
    assert_eq!(get_id("GET /users/\t9 HTTP/1.1"), "9");
}

#[test]
fn get_id_without_id_segment() {
    assert_eq!(get_id(""), "");
    assert_eq!(get_id("no slashes here"), "");
    assert_eq!(get_id("one/slash"), "");
    // The protocol suffix itself holds a slash, so a bare collection
    // path still yields a (non-numeric) third field.
    assert_eq!(get_id("GET /users HTTP/1.1"), "1.1");
    assert_eq!(get_id("GET /users/ HTTP/1.1"), "HTTP");
}

#[test]
fn parse_i32_accepts_signed_decimals_in_range() {
    assert_eq!(parse_i32("0"), Some(0));
    assert_eq!(parse_i32("123"), Some(123));
    assert_eq!(parse_i32("+5"), Some(5));
    assert_eq!(parse_i32("-7"), Some(-7));
    assert_eq!(parse_i32("2147483647"), Some(2147483647));
    assert_eq!(parse_i32("-2147483648"), Some(i32::MIN));
    assert_eq!(parse_i32("007"), Some(7));
}

#[test]
fn parse_i32_rejects_malformed_and_out_of_range() {
    assert_eq!(parse_i32(""), None);
    assert_eq!(parse_i32("+"), None);
    assert_eq!(parse_i32("-"), None);
    assert_eq!(parse_i32("12a"), None);
    assert_eq!(parse_i32("1.5"), None);
    assert_eq!(parse_i32(" 1"), None);
    assert_eq!(parse_i32("2147483648"), None);
    assert_eq!(parse_i32("-2147483649"), None);
    assert_eq!(parse_i32("99999999999999999999"), None);
}

#[test]
fn extract_body_takes_text_after_last_separator() {
    assert_eq!(extract_body("POST /users\r\n\r\n{\"a\":1}"), "{\"a\":1}");
    assert_eq!(extract_body("h\r\n\r\nx\r\n\r\ny"), "y");
    assert_eq!(extract_body("header only"), "");
    assert_eq!(extract_body(""), "");
    assert_eq!(extract_body("tail\r\n\r\n"), "");
}

#[test]
fn route_priority_order_is_fixed() {
    assert_eq!(route("POST /users HTTP/1.1"), Route::CreateUser);
    assert_eq!(route("GET /users/1 HTTP/1.1"), Route::GetUser);
    assert_eq!(route("GET /users HTTP/1.1"), Route::ListUsers);
    assert_eq!(route("PUT /users/1 HTTP/1.1"), Route::UpdateUser);
    assert_eq!(route("DELETE /users/1 HTTP/1.1"), Route::DeleteUser);
    assert_eq!(route("PATCH /users/1 HTTP/1.1"), Route::NoMatch);
    assert_eq!(route("GET /other HTTP/1.1"), Route::NoMatch);
}

#[test]
fn prefix_test_is_exact() {
    assert!(starts_with("GET /users/1", "GET /users/"));
    assert!(!starts_with("GET /user", "GET /users"));
    assert!(starts_with("anything", ""));
    assert!(!starts_with("", "x"));
}
