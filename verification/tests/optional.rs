use http::header::HeaderValue;
use http::{HeaderMap, Method, StatusCode, Version};
use http_serde::error::{Error, Rejected};
use http_serde::node::Node;
use http_serde::option;

fn text(s: &str) -> Node {
    Node::Str(s.to_owned())
}

#[test]
fn absent_values_encode_as_the_absence_marker() {
    assert_eq!(option::status_code::serialize(&None), Node::Absent);
    assert_eq!(option::method::serialize(&None), Node::Absent);
    assert_eq!(option::uri::serialize(&None), Node::Absent);
    assert_eq!(option::authority::serialize(&None), Node::Absent);
    assert_eq!(option::version::serialize(&None), Node::Absent);
    assert_eq!(option::header_map::serialize(&None, true), Node::Absent);
    assert_eq!(option::header_map::serialize(&None, false), Node::Absent);
}

#[test]
fn the_absence_marker_decodes_as_none() {
    assert_eq!(option::status_code::deserialize(&Node::Absent), Ok(None));
    assert_eq!(option::method::deserialize(&Node::Absent), Ok(None));
    assert_eq!(option::uri::deserialize(&Node::Absent), Ok(None));
    assert_eq!(option::authority::deserialize(&Node::Absent), Ok(None));
    assert_eq!(option::version::deserialize(&Node::Absent), Ok(None));
    assert_eq!(option::header_map::deserialize(&Node::Absent, true), Ok(None));
    assert_eq!(option::header_map::deserialize(&Node::Absent, false), Ok(None));
}

#[test]
fn present_values_go_through_the_adapter_of_their_type() {
    assert_eq!(option::status_code::serialize(&Some(StatusCode::OK)), Node::U16(200));
    assert_eq!(option::status_code::deserialize(&Node::U64(200)), Ok(Some(StatusCode::OK)));
    assert_eq!(option::status_code::deserialize(&Node::I64(200)), Ok(Some(StatusCode::OK)));
    assert_eq!(option::method::serialize(&Some(Method::POST)), text("POST"));
    assert_eq!(option::method::deserialize(&text("POST")), Ok(Some(Method::POST)));
    assert_eq!(option::version::serialize(&Some(Version::HTTP_3)), text("HTTP/3.0"));
    assert_eq!(option::version::deserialize(&text("HTTP/3.0")), Ok(Some(Version::HTTP_3)));
    let uri = option::uri::deserialize(&text("https://example.com/")).unwrap().unwrap();
    assert_eq!(uri.to_string(), "https://example.com/");
    assert_eq!(option::uri::serialize(&Some(uri)), text("https://example.com/"));
    let authority = option::authority::deserialize(&text("example.com")).unwrap().unwrap();
    assert_eq!(authority.as_str(), "example.com");
    assert_eq!(option::authority::serialize(&Some(authority)), text("example.com"));
}

#[test]
fn present_header_collections_go_through_the_collection_adapter() {
    let mut map = HeaderMap::new();
    map.insert("Authorization", HeaderValue::from_static("Bearer"));
    map.append("authorization", HeaderValue::from_static("Basic"));
    let readable = Node::Mapping(vec![(
        "authorization".to_owned(),
        Node::Sequence(vec![text("Bearer"), text("Basic")]),
    )]);
    let compact = Node::Mapping(vec![(
        "authorization".to_owned(),
        Node::Sequence(vec![Node::Bytes(b"Bearer".to_vec()), Node::Bytes(b"Basic".to_vec())]),
    )]);
    let wrapped = Some(map);
    assert_eq!(option::header_map::serialize(&wrapped, true), readable);
    assert_eq!(option::header_map::serialize(&wrapped, false), compact);
    assert_eq!(option::header_map::deserialize(&readable, true), Ok(wrapped.clone()));
    assert_eq!(option::header_map::deserialize(&compact, false), Ok(wrapped));
    assert_eq!(option::header_map::deserialize(&readable, false), Err(Error::UnexpectedShape));
}

#[test]
fn errors_of_the_inner_adapter_pass_through() {
    assert_eq!(
        option::status_code::deserialize(&Node::U64(1000)),
        Err(Error::InvalidValue(Rejected::Unsigned(1000)))
    );
    assert_eq!(option::status_code::deserialize(&text("200")), Err(Error::UnexpectedShape));
    assert_eq!(
        option::method::deserialize(&text("")),
        Err(Error::InvalidValue(Rejected::Str(String::new())))
    );
    assert_eq!(option::uri::deserialize(&Node::U16(1)), Err(Error::UnexpectedShape));
    assert_eq!(
        option::version::deserialize(&text("HTTP/9")),
        Err(Error::InvalidValue(Rejected::Str("HTTP/9".to_owned())))
    );
    let node = Node::Mapping(vec![("bad header".to_owned(), text("x"))]);
    assert_eq!(
        option::header_map::deserialize(&node, true),
        Err(Error::InvalidValue(Rejected::Str("bad header".to_owned())))
    );
}

#[test]
fn the_lifter_works_with_any_adapter() {
    let double = |n: &u16| Node::U64(2 * (*n as u64));
    assert_eq!(option::serialize_with(&Some(21u16), double), Node::U64(42));
    assert_eq!(option::serialize_with(&None, double), Node::Absent);
    let length = |node: &Node| match node {
        Node::Str(s) => Ok(s.len()),
        _ => Err(Error::UnexpectedShape),
    };
    assert_eq!(option::deserialize_with(&text("four"), length), Ok(Some(4)));
    assert_eq!(option::deserialize_with(&Node::Absent, length), Ok(None));
    assert_eq!(option::deserialize_with(&Node::U16(1), length), Err(Error::UnexpectedShape));
}

#[test]
fn nodes_and_errors_have_their_helpers() {
    assert!(Node::Absent.is_absent());
    assert!(!Node::U16(0).is_absent());
    assert!(!text("").is_absent());
    assert_eq!(Node::sequence(vec![Node::Absent]), Node::Sequence(vec![Node::Absent]));
    assert_eq!(
        Node::mapping(vec![("k".to_owned(), Node::U16(1))]),
        Node::Mapping(vec![("k".to_owned(), Node::U16(1))])
    );
    assert_eq!(Error::invalid_unsigned(7), Error::InvalidValue(Rejected::Unsigned(7)));
    assert_eq!(Error::invalid_str("x"), Error::InvalidValue(Rejected::Str("x".to_owned())));
    assert_eq!(Error::invalid_bytes(b"x"), Error::InvalidValue(Rejected::Bytes(b"x".to_vec())));
    let kept: Result<u8, Error> = http_serde::error::accepted(Ok::<u8, ()>(3), "three");
    assert_eq!(kept, Ok(3));
    let refused: Result<u8, Error> = http_serde::error::accepted(Err::<u8, ()>(()), "three");
    assert_eq!(refused, Err(Error::InvalidValue(Rejected::Str("three".to_owned()))));
}
