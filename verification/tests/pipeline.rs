use user_service::dispatch::handle_request;
use user_service::response::render;
use user_service::response::status_line;
use user_service::response::Status;
use user_service::store::UserStore;

fn post_alice(store: &mut UserStore) {
    let req = "POST /users HTTP/1.1\r\nContent-Type: application/json\r\n\r\n{\"name\":\"Alice\",\"email\":\"alice@x.com\"}";
    let r = handle_request(req, store);
    assert_eq!(r.status, Status::Success);
}

#[test]
fn post_creates_user() {
    let mut store = UserStore::new();
    let req = "POST /users HTTP/1.1\r\nContent-Type: application/json\r\n\r\n{\"name\":\"Alice\",\"email\":\"alice@x.com\"}";
    let r = handle_request(req, &mut store);
    assert_eq!(r.status, Status::Success);
    assert_eq!(r.body, "User created");
}

#[test]
fn get_returns_json_user() {
    let mut store = UserStore::new();
    post_alice(&mut store);
    let r = handle_request("GET /users/1 HTTP/1.1\r\n\r\n", &mut store);
    assert_eq!(r.status, Status::Success);
    assert_eq!(r.body, "{\"id\":1,\"name\":\"Alice\",\"email\":\"alice@x.com\"}");
}

#[test]
fn get_missing_is_not_found() {
    let mut store = UserStore::new();
    post_alice(&mut store);
    let r = handle_request("GET /users/999 HTTP/1.1\r\n\r\n", &mut store);
    assert_eq!(r.status, Status::NotFound);
    assert_eq!(r.body, "User not found");
}

#[test]
fn put_replaces_name_and_email() {
    let mut store = UserStore::new();
    post_alice(&mut store);
    let req = "PUT /users/1 HTTP/1.1\r\nContent-Type: application/json\r\n\r\n{\"name\":\"Bob\",\"email\":\"bob@x.com\"}";
    let r = handle_request(req, &mut store);
    assert_eq!(r.status, Status::Success);
    assert_eq!(r.body, "User updated");
    let g = handle_request("GET /users/1 HTTP/1.1\r\n\r\n", &mut store);
    assert_eq!(g.status, Status::Success);
    assert_eq!(g.body, "{\"id\":1,\"name\":\"Bob\",\"email\":\"bob@x.com\"}");
}

#[test]
fn delete_then_get_is_not_found() {
    let mut store = UserStore::new();
    post_alice(&mut store);
    let r = handle_request("DELETE /users/1 HTTP/1.1\r\n\r\n", &mut store);
    assert_eq!(r.status, Status::Success);
    assert_eq!(r.body, "User deleted");
    let g = handle_request("GET /users/1 HTTP/1.1\r\n\r\n", &mut store);
    assert_eq!(g.status, Status::NotFound);
    assert_eq!(g.body, "User not found");
}

#[test]
fn delete_twice_is_not_found() {
    let mut store = UserStore::new();
    post_alice(&mut store);
    let first = handle_request("DELETE /users/1 HTTP/1.1\r\n\r\n", &mut store);
    assert_eq!(first.status, Status::Success);
    let second = handle_request("DELETE /users/1 HTTP/1.1\r\n\r\n", &mut store);
    assert_eq!(second.status, Status::NotFound);
    assert_eq!(second.body, "User not found");
}

#[test]
fn post_empty_body_is_internal_error() {
    let mut store = UserStore::new();
    let r = handle_request("POST /users HTTP/1.1", &mut store);
    assert_eq!(r.status, Status::InternalError);
    assert_eq!(r.body, "Internal error");
}

#[test]
fn post_non_json_body_is_internal_error() {
    let mut store = UserStore::new();
    let r = handle_request("POST /users HTTP/1.1\r\n\r\nnot json at all", &mut store);
    assert_eq!(r.status, Status::InternalError);
    assert_eq!(r.body, "Internal error");
}

#[test]
fn non_numeric_id_is_internal_error_not_not_found() {
    let mut store = UserStore::new();
    post_alice(&mut store);
    for req in [
        "GET /users/abc HTTP/1.1\r\n\r\n",
        "PUT /users/abc HTTP/1.1\r\n\r\n{\"name\":\"B\",\"email\":\"b\"}",
        "DELETE /users/abc HTTP/1.1\r\n\r\n",
    ] {
        let r = handle_request(req, &mut store);
        assert_eq!(r.status, Status::InternalError);
        assert_eq!(r.body, "Internal error");
    }
}

#[test]
fn unrouted_request_is_not_found() {
    let mut store = UserStore::new();
    let r = handle_request("GET /nothing HTTP/1.1\r\n\r\n", &mut store);
    assert_eq!(r.status, Status::NotFound);
    assert_eq!(r.body, "404 not found");
}

#[test]
fn list_all_returns_json_array() {
    let mut store = UserStore::new();
    post_alice(&mut store);
    let req = "POST /users HTTP/1.1\r\n\r\n{\"name\":\"Bob\",\"email\":\"bob@x.com\"}";
    handle_request(req, &mut store);
    let r = handle_request("GET /users HTTP/1.1\r\n\r\n", &mut store);
    assert_eq!(r.status, Status::Success);
    assert_eq!(
        r.body,
        "[{\"id\":1,\"name\":\"Alice\",\"email\":\"alice@x.com\"},{\"id\":2,\"name\":\"Bob\",\"email\":\"bob@x.com\"}]"
    );
}

#[test]
fn render_concatenates_status_and_body() {
    let mut store = UserStore::new();
    let r = handle_request("POST /users HTTP/1.1\r\n\r\n{\"name\":\"A\",\"email\":\"a\"}", &mut store);
    assert_eq!(
        render(&r),
        "HTTP/1.1 200 OK\r\nContent-Type: application/json\r\n\r\nUser created"
    );
}

#[test]
fn status_lines_are_the_fixed_preambles() {
    assert_eq!(
        status_line(Status::Success),
        "HTTP/1.1 200 OK\r\nContent-Type: application/json\r\n\r\n"
    );
    assert_eq!(status_line(Status::NotFound), "HTTP/1.1 404 NOT FOUND\r\n\r\n");
    assert_eq!(status_line(Status::InternalError), "HTTP/1.1 500 INTERNAL ERROR\r\n\r\n");
}
