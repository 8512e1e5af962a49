use http::header::HeaderValue;
use http::uri::Authority;
use http::{HeaderMap, Method, StatusCode, Uri, Version};
use http_serde::error::Error;
use http_serde::node::Node;
use serde::de::{DeserializeSeed, Deserializer, MapAccess, SeqAccess, Visitor};
use serde::ser::{SerializeMap, SerializeSeq, SerializeTupleStruct, Serializer};
use serde::{Deserialize, Serialize};
use std::fmt;
use std::io;
use std::str::FromStr;

// ----- nodes out: a node drives a serializer -----

struct Emit<'a>(&'a Node);

impl<'a> Serialize for Emit<'a> {
    fn serialize<S: Serializer>(&self, ser: S) -> Result<S::Ok, S::Error> {
        match self.0 {
            Node::Absent => ser.serialize_none(),
            Node::U16(n) => ser.serialize_u16(*n),
            Node::U64(n) => ser.serialize_u64(*n),
            Node::I64(n) => ser.serialize_i64(*n),
            Node::Str(text) => ser.serialize_str(text),
            Node::Bytes(bytes) => ser.serialize_bytes(bytes),
            Node::Sequence(items) => {
                let mut seq = ser.serialize_seq(Some(items.len()))?;
                for item in items {
                    seq.serialize_element(&Emit(item))?;
                }
                seq.end()
            }
            Node::Mapping(entries) => {
                let mut map = ser.serialize_map(Some(entries.len()))?;
                for (key, value) in entries {
                    map.serialize_entry(key.as_str(), &Emit(value))?;
                }
                map.end()
            }
        }
    }
}

// ----- nodes in: a deserializer builds a node -----

struct Any;

impl<'de> DeserializeSeed<'de> for Any {
    type Value = Node;

    fn deserialize<D: Deserializer<'de>>(self, de: D) -> Result<Node, D::Error> {
        de.deserialize_any(Build)
    }
}

struct Blob;

impl<'de> DeserializeSeed<'de> for Blob {
    type Value = Node;

    fn deserialize<D: Deserializer<'de>>(self, de: D) -> Result<Node, D::Error> {
        de.deserialize_bytes(Build)
    }
}

struct Blobs;

impl<'de> DeserializeSeed<'de> for Blobs {
    type Value = Node;

    fn deserialize<D: Deserializer<'de>>(self, de: D) -> Result<Node, D::Error> {
        de.deserialize_seq(BuildBlobs)
    }
}

struct BuildBlobs;

impl<'de> Visitor<'de> for BuildBlobs {
    type Value = Node;

    fn expecting(&self, f: &mut fmt::Formatter) -> fmt::Result {
        f.write_str("a sequence of byte arrays")
    }

    fn visit_seq<A: SeqAccess<'de>>(self, mut access: A) -> Result<Node, A::Error> {
        let mut items = Vec::new();
        while let Some(item) = access.next_element_seed(Blob)? {
            items.push(item);
        }
        Ok(Node::Sequence(items))
    }
}

struct Build;

impl<'de> Visitor<'de> for Build {
    type Value = Node;

    fn expecting(&self, f: &mut fmt::Formatter) -> fmt::Result {
        f.write_str("a node of the serialization tree")
    }

    fn visit_u8<E>(self, v: u8) -> Result<Node, E> {
        Ok(Node::U64(v as u64))
    }

    fn visit_u16<E>(self, v: u16) -> Result<Node, E> {
        Ok(Node::U16(v))
    }

    fn visit_u32<E>(self, v: u32) -> Result<Node, E> {
        Ok(Node::U64(v as u64))
    }

    fn visit_u64<E>(self, v: u64) -> Result<Node, E> {
        Ok(Node::U64(v))
    }

    fn visit_i8<E>(self, v: i8) -> Result<Node, E> {
        Ok(Node::I64(v as i64))
    }

    fn visit_i16<E>(self, v: i16) -> Result<Node, E> {
        Ok(Node::I64(v as i64))
    }

    fn visit_i32<E>(self, v: i32) -> Result<Node, E> {
        Ok(Node::I64(v as i64))
    }

    fn visit_i64<E>(self, v: i64) -> Result<Node, E> {
        Ok(Node::I64(v))
    }

    fn visit_str<E>(self, v: &str) -> Result<Node, E> {
        Ok(Node::Str(v.to_owned()))
    }

    fn visit_bytes<E>(self, v: &[u8]) -> Result<Node, E> {
        Ok(Node::Bytes(v.to_vec()))
    }

    fn visit_none<E>(self) -> Result<Node, E> {
        Ok(Node::Absent)
    }

    fn visit_unit<E>(self) -> Result<Node, E> {
        Ok(Node::Absent)
    }

    fn visit_seq<A: SeqAccess<'de>>(self, mut access: A) -> Result<Node, A::Error> {
        let mut items = Vec::new();
        while let Some(item) = access.next_element_seed(Any)? {
            items.push(item);
        }
        Ok(Node::Sequence(items))
    }

    fn visit_map<A: MapAccess<'de>>(self, mut access: A) -> Result<Node, A::Error> {
        let mut entries = Vec::new();
        while let Some(key) = access.next_key::<String>()? {
            entries.push((key, access.next_value_seed(Any)?));
        }
        Ok(Node::Mapping(entries))
    }
}

struct BuildHeaders {
    readable: bool,
}

impl<'de> Visitor<'de> for BuildHeaders {
    type Value = Node;

    fn expecting(&self, f: &mut fmt::Formatter) -> fmt::Result {
        f.write_str("a mapping of header names to values")
    }

    fn visit_map<A: MapAccess<'de>>(self, mut access: A) -> Result<Node, A::Error> {
        let mut entries = Vec::new();
        while let Some(key) = access.next_key::<String>()? {
            let value = if self.readable {
                access.next_value_seed(Any)?
            } else {
                access.next_value_seed(Blobs)?
            };
            entries.push((key, value));
        }
        Ok(Node::Mapping(entries))
    }
}

struct Maybe<F>(F);

impl<'de, F> Visitor<'de> for Maybe<F>
where
    F: Kind,
{
    type Value = Node;

    fn expecting(&self, f: &mut fmt::Formatter) -> fmt::Result {
        f.write_str("a value or its absence")
    }

    fn visit_none<E>(self) -> Result<Node, E> {
        Ok(Node::Absent)
    }

    fn visit_unit<E>(self) -> Result<Node, E> {
        Ok(Node::Absent)
    }

    fn visit_some<D: Deserializer<'de>>(self, de: D) -> Result<Node, D::Error> {
        self.0.read(de)
    }
}

/// How the node of one kind of value is asked of a deserializer.
trait Kind {
    fn read<'de, D: Deserializer<'de>>(&self, de: D) -> Result<Node, D::Error>;
}

struct Number;

impl Kind for Number {
    fn read<'de, D: Deserializer<'de>>(&self, de: D) -> Result<Node, D::Error> {
        de.deserialize_u16(Build)
    }
}

struct Text;

impl Kind for Text {
    fn read<'de, D: Deserializer<'de>>(&self, de: D) -> Result<Node, D::Error> {
        de.deserialize_str(Build)
    }
}

struct Headers;

impl Kind for Headers {
    fn read<'de, D: Deserializer<'de>>(&self, de: D) -> Result<Node, D::Error> {
        let readable = de.is_human_readable();
        de.deserialize_map(BuildHeaders { readable })
    }
}

struct Optional<K>(K);

impl<K: Kind + Copy> Kind for Optional<K> {
    fn read<'de, D: Deserializer<'de>>(&self, de: D) -> Result<Node, D::Error> {
        de.deserialize_option(Maybe(self.0))
    }
}

impl Clone for Number {
    fn clone(&self) -> Self {
        Number
    }
}

impl Copy for Number {}

impl Clone for Text {
    fn clone(&self) -> Self {
        Text
    }
}

impl Copy for Text {}

impl Clone for Headers {
    fn clone(&self) -> Self {
        Headers
    }
}

impl Copy for Headers {}

struct Field<K>(K);

impl<'de, K: Kind> DeserializeSeed<'de> for Field<K> {
    type Value = Node;

    fn deserialize<D: Deserializer<'de>>(self, de: D) -> Result<Node, D::Error> {
        self.0.read(de)
    }
}

fn refuse<E: serde::de::Error>(error: Error) -> E {
    E::custom(format!("{:?}", error))
}

// ----- the six adapters on the fields of one record -----

struct Wrap(HeaderMap, Uri, Method, StatusCode, Authority, Version);

impl Serialize for Wrap {
    fn serialize<S: Serializer>(&self, ser: S) -> Result<S::Ok, S::Error> {
        let readable = ser.is_human_readable();
        let mut fields = ser.serialize_tuple_struct("Wrap", 6)?;
        fields.serialize_field(&Emit(&http_serde::header_map::serialize(&self.0, readable)))?;
        fields.serialize_field(&Emit(&http_serde::uri::serialize(&self.1)))?;
        fields.serialize_field(&Emit(&http_serde::method::serialize(&self.2)))?;
        fields.serialize_field(&Emit(&http_serde::status_code::serialize(&self.3)))?;
        fields.serialize_field(&Emit(&http_serde::authority::serialize(&self.4)))?;
        fields.serialize_field(&Emit(&http_serde::version::serialize(&self.5)))?;
        fields.end()
    }
}

struct WrapVisitor {
    readable: bool,
}

impl<'de> Visitor<'de> for WrapVisitor {
    type Value = Wrap;

    fn expecting(&self, f: &mut fmt::Formatter) -> fmt::Result {
        f.write_str("a record of six fields")
    }

    fn visit_seq<A: SeqAccess<'de>>(self, mut access: A) -> Result<Wrap, A::Error> {
        let missing = || serde::de::Error::custom("a field is missing");
        let headers = access.next_element_seed(Field(Headers))?.ok_or_else(missing)?;
        let uri = access.next_element_seed(Field(Text))?.ok_or_else(missing)?;
        let method = access.next_element_seed(Field(Text))?.ok_or_else(missing)?;
        let status = access.next_element_seed(Field(Number))?.ok_or_else(missing)?;
        let authority = access.next_element_seed(Field(Text))?.ok_or_else(missing)?;
        let version = access.next_element_seed(Field(Text))?.ok_or_else(missing)?;
        Ok(Wrap(
            http_serde::header_map::deserialize(&headers, self.readable).map_err(refuse)?,
            http_serde::uri::deserialize(&uri).map_err(refuse)?,
            http_serde::method::deserialize(&method).map_err(refuse)?,
            http_serde::status_code::deserialize(&status).map_err(refuse)?,
            http_serde::authority::deserialize(&authority).map_err(refuse)?,
            http_serde::version::deserialize(&version).map_err(refuse)?,
        ))
    }
}

impl<'de> Deserialize<'de> for Wrap {
    fn deserialize<D: Deserializer<'de>>(de: D) -> Result<Wrap, D::Error> {
        let readable = de.is_human_readable();
        de.deserialize_tuple_struct("Wrap", 6, WrapVisitor { readable })
    }
}

struct Newtype<'a>(&'a Node);

impl<'a> Serialize for Newtype<'a> {
    fn serialize<S: Serializer>(&self, ser: S) -> Result<S::Ok, S::Error> {
        ser.serialize_newtype_struct("Wrap", &Emit(self.0))
    }
}

fn json(node: &Node) -> String {
    serde_json::to_string(&Newtype(node)).unwrap()
}

fn from_json<K: Kind>(kind: K, text: &str) -> Node {
    let mut de = serde_json::Deserializer::from_str(text);
    let node = Field(kind).deserialize(&mut de).unwrap();
    de.end().unwrap();
    node
}

#[test]
fn roundtrip() {
    let mut map = HeaderMap::new();
    map.insert("hey", HeaderValue::from_static("ho"));
    map.insert("foo", HeaderValue::from_static("bar"));
    map.append("multi-value", HeaderValue::from_static("multi"));
    map.append("multi-value", HeaderValue::from_static("valued"));

    let wrapped = Wrap(
        map,
        "http://example.com/".parse().unwrap(),
        Method::PUT,
        StatusCode::NOT_MODIFIED,
        "example.com:8080".parse().unwrap(),
        Version::HTTP_2,
    );
    let json = serde_json::to_string(&wrapped).unwrap();
    let yaml = serde_yaml::to_string(&wrapped).unwrap();
    let cbor = serde_cbor::to_vec(&wrapped).unwrap();
    let bin = bincode::serialize(&wrapped).unwrap();
    assert_eq!(
        "[{\"hey\":\"ho\",\"foo\":\"bar\",\"multi-value\":[\"multi\",\"valued\"]},\"http://example.com/\",\"PUT\",304,\"example.com:8080\",\"HTTP/2.0\"]",
        &json
    );
    assert_eq!(
        "---\n- hey: ho\n  foo: bar\n  multi-value:\n    - multi\n    - valued\n- \"http://example.com/\"\n- PUT\n- 304\n- \"example.com:8080\"\n- HTTP/2.0\n",
        &yaml
    );
    let back_js_str: Wrap = serde_json::from_str(&json).unwrap();
    let back_js_reader: Wrap = serde_json::from_reader(io::Cursor::new(json.as_bytes())).unwrap();
    let back_yaml_str: Wrap = serde_yaml::from_str(&yaml).unwrap();
    let back_yaml_reader: Wrap = serde_yaml::from_reader(io::Cursor::new(yaml.as_bytes())).unwrap();
    let back_cbor: Wrap = serde_cbor::from_slice(&cbor).unwrap();
    let back_bin: Wrap = bincode::deserialize(&bin).unwrap();

    for back in [
        back_js_str,
        back_js_reader,
        back_yaml_str,
        back_yaml_reader,
        back_cbor,
        back_bin,
    ]
    .iter()
    {
        assert_eq!(back.0.get("hey").map(|s| s.as_bytes()).unwrap(), b"ho");
        assert_eq!(back.0.get("foo").map(|s| s.as_bytes()).unwrap(), b"bar");
        assert_eq!(
            back.0
                .get_all("multi-value")
                .iter()
                .map(|v| v.to_str().unwrap())
                .collect::<Vec<_>>()
                .as_slice(),
            &["multi", "valued"][..]
        );

        assert_eq!(&back.1.to_string(), "http://example.com/");
        assert_eq!(back.2, Method::PUT);
        assert_eq!(back.3, StatusCode::NOT_MODIFIED);
        assert_eq!(&back.4.to_string(), "example.com:8080");
        assert_eq!(format!("{:?}", back.5), "HTTP/2.0");
    }
}

#[test]
fn reencoding_reproduces_the_text_representation() {
    let json = "[{\"hey\":\"ho\",\"foo\":\"bar\",\"multi-value\":[\"multi\",\"valued\"]},\"http://example.com/\",\"PUT\",304,\"example.com:8080\",\"HTTP/2.0\"]";
    let back: Wrap = serde_json::from_str(json).unwrap();
    assert_eq!(back.0.len(), 4);
    assert_eq!(back.0.keys_len(), 3);
    assert_eq!(back.2, Method::PUT);
    assert_eq!(back.3.as_u16(), 304);
    assert_eq!(serde_json::to_string(&back).unwrap(), json);
    let yaml = serde_yaml::to_string(&back).unwrap();
    let again: Wrap = serde_yaml::from_str(&yaml).unwrap();
    assert_eq!(serde_yaml::to_string(&again).unwrap(), yaml);
}

#[test]
fn compact_formats_carry_byte_arrays_and_a_sixteen_bit_status() {
    let mut map = HeaderMap::new();
    map.insert("a", HeaderValue::from_bytes(b"\xff").unwrap());
    let wrapped = Wrap(
        map,
        "/".parse().unwrap(),
        Method::GET,
        StatusCode::OK,
        "h".parse().unwrap(),
        Version::HTTP_11,
    );
    let bin = bincode::serialize(&wrapped).unwrap();
    let mut expected: Vec<u8> = Vec::new();
    expected.extend_from_slice(&1u64.to_le_bytes());
    expected.extend_from_slice(&1u64.to_le_bytes());
    expected.extend_from_slice(b"a");
    expected.extend_from_slice(&1u64.to_le_bytes());
    expected.extend_from_slice(&1u64.to_le_bytes());
    expected.extend_from_slice(b"\xff");
    expected.extend_from_slice(&1u64.to_le_bytes());
    expected.extend_from_slice(b"/");
    expected.extend_from_slice(&3u64.to_le_bytes());
    expected.extend_from_slice(b"GET");
    expected.extend_from_slice(&200u16.to_le_bytes());
    expected.extend_from_slice(&1u64.to_le_bytes());
    expected.extend_from_slice(b"h");
    expected.extend_from_slice(&8u64.to_le_bytes());
    expected.extend_from_slice(b"HTTP/1.1");
    assert_eq!(bin, expected);
    let back: Wrap = bincode::deserialize(&bin).unwrap();
    assert_eq!(back.0.get("a").unwrap().as_bytes(), b"\xff");
    let cbor = serde_cbor::to_vec(&wrapped).unwrap();
    let back: Wrap = serde_cbor::from_slice(&cbor).unwrap();
    assert_eq!(back.0.get("a").unwrap().as_bytes(), b"\xff");
    assert_eq!(back.3, StatusCode::OK);
}

#[test]
fn malformed_header_name_fails_the_whole_record() {
    let json = "[{\"fine\":\"v\",\"bad header\":\"x\"},\"/\",\"GET\",200,\"h\",\"HTTP/1.1\"]";
    let back: Result<Wrap, _> = serde_json::from_str(json);
    let message = back.err().unwrap().to_string();
    assert!(message.contains("InvalidValue"));
    assert!(message.contains("bad header"));
}

#[test]
fn option_header_map() {
    let mut map = HeaderMap::new();
    map.insert("Authorization", HeaderValue::from_str("Bearer").unwrap());

    let wrap = Some(map);
    assert_eq!(
        r#"{"authorization":"Bearer"}"#.to_owned(),
        json(&http_serde::option::header_map::serialize(&wrap, true))
    );
    let node = from_json(Optional(Headers), r#"{"authorization":"Bearer"}"#);
    assert_eq!(http_serde::option::header_map::deserialize(&node, true), Ok(wrap));

    let wrap: Option<HeaderMap> = None;
    assert_eq!("null".to_owned(), json(&http_serde::option::header_map::serialize(&wrap, true)));
    let node = from_json(Optional(Headers), "null");
    assert_eq!(node, Node::Absent);
    assert_eq!(http_serde::option::header_map::deserialize(&node, true), Ok(None));
    assert_eq!(http_serde::option::header_map::deserialize(&node, false), Ok(None));
}

#[test]
fn option_status_code() {
    let wrap = Some(StatusCode::OK);
    assert_eq!("200".to_owned(), json(&http_serde::option::status_code::serialize(&wrap)));
    let node = from_json(Optional(Number), "200");
    assert_eq!(http_serde::option::status_code::deserialize(&node), Ok(Some(StatusCode::OK)));

    let wrap: Option<StatusCode> = None;
    assert_eq!("null".to_owned(), json(&http_serde::option::status_code::serialize(&wrap)));
    let node = from_json(Optional(Number), "null");
    assert_eq!(http_serde::option::status_code::deserialize(&node), Ok(None));
}

#[test]
fn option_method() {
    let wrap = Some(Method::POST);
    assert_eq!(r#""POST""#.to_owned(), json(&http_serde::option::method::serialize(&wrap)));
    let node = from_json(Optional(Text), r#""POST""#);
    assert_eq!(http_serde::option::method::deserialize(&node), Ok(Some(Method::POST)));

    let wrap: Option<Method> = None;
    assert_eq!("null".to_owned(), json(&http_serde::option::method::serialize(&wrap)));
    let node = from_json(Optional(Text), "null");
    assert_eq!(http_serde::option::method::deserialize(&node), Ok(None));
}

#[test]
fn option_uri() {
    let wrap: Option<Uri> = Some("https://example.com/".parse().unwrap());
    assert_eq!(
        r#""https://example.com/""#.to_owned(),
        json(&http_serde::option::uri::serialize(&wrap))
    );
    let node = from_json(Optional(Text), r#""https://example.com/""#);
    assert_eq!(http_serde::option::uri::deserialize(&node), Ok(wrap));

    let wrap: Option<Uri> = None;
    assert_eq!("null".to_owned(), json(&http_serde::option::uri::serialize(&wrap)));
    let node = from_json(Optional(Text), "null");
    assert_eq!(http_serde::option::uri::deserialize(&node), Ok(None));
}

#[test]
fn option_authority() {
    let wrap = Some(Authority::from_str("example.com").unwrap());
    assert_eq!(
        r#""example.com""#.to_owned(),
        json(&http_serde::option::authority::serialize(&wrap))
    );
    let node = from_json(Optional(Text), r#""example.com""#);
    assert_eq!(http_serde::option::authority::deserialize(&node), Ok(wrap));

    let wrap: Option<Authority> = None;
    assert_eq!("null".to_owned(), json(&http_serde::option::authority::serialize(&wrap)));
    let node = from_json(Optional(Text), "null");
    assert_eq!(http_serde::option::authority::deserialize(&node), Ok(None));
}

#[test]
fn option_version() {
    let wrap = Some(Version::HTTP_11);
    assert_eq!(r#""HTTP/1.1""#.to_owned(), json(&http_serde::option::version::serialize(&wrap)));
    let node = from_json(Optional(Text), r#""HTTP/1.1""#);
    assert_eq!(http_serde::option::version::deserialize(&node), Ok(Some(Version::HTTP_11)));

    let wrap: Option<Version> = None;
    assert_eq!("null".to_owned(), json(&http_serde::option::version::serialize(&wrap)));
    let node = from_json(Optional(Text), "null");
    assert_eq!(http_serde::option::version::deserialize(&node), Ok(None));
}
