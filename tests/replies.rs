use stof_runner::api::{delete_reply, get_reply, publish_reply};
use stof_runner::response::StofResponse;

#[test]
fn response_constructors() {
    let m = StofResponse::msg(200, "ok");
    assert_eq!((m.status, m.str_body.as_str(), m.headers.len()), (200, "ok", 0));
    let e = StofResponse::error(403, "access denied");
    assert_eq!(e.status, 403);
    assert!(e.bytes_body.is_none());
    let b = StofResponse::bytes(200, vec![1, 2]);
    assert_eq!(b.headers, vec![("content-type".to_string(), "application/octet-stream".to_string())]);
    assert_eq!(b.bytes_body, Some(vec![1, 2]));
    assert_eq!(b.str_body, "");
    let s = StofResponse::bstof(200, vec![3]);
    assert_eq!(s.headers[0].1, "application/bstof");
    let t = StofResponse::text(200, "a: 1".to_string(), "application/yaml");
    assert_eq!(t.headers[0].1, "application/yaml");
    assert_eq!(t.str_body, "a: 1");
}

#[test]
fn operation_replies() {
    assert_eq!(publish_reply(Some(true)).status, 200);
    assert_eq!(publish_reply(Some(false)).status, 400);
    assert_eq!(publish_reply(None).str_body, "package not created");
    assert_eq!(delete_reply(Some(true)).str_body, "package removed");
    assert_eq!(delete_reply(None).str_body, "package not found");
    assert_eq!(get_reply(Some(vec![5])).bytes_body, Some(vec![5]));
    assert_eq!(get_reply(None).status, 400);
}
