//! Tests of the JSON wire codec: exact encodings, decoding of the forms the
//! service may produce, rejection of malformed bodies, and round trips.

use image_library_client::decode::decode_image;
use image_library_client::encode::{encode_image, encode_new_image};
use image_library_client::types::{Image, NewImageData};

fn sample(id: i32) -> Image {
    Image {
        id,
        raw_id: Some("raw".to_string()),
        sidecar_id: None,
        image_id: Some("img".to_string()),
        user_id: 9,
    }
}

#[test]
fn encode_image_exact() {
    let s = encode_image(&sample(3));
    assert_eq!(
        s,
        "{\"id\":3,\"raw_id\":\"raw\",\"sidecar_id\":null,\"image_id\":\"img\",\"user_id\":9}"
    );
}

#[test]
fn encode_new_image_exact() {
    let d = NewImageData {
        raw_id: Some("a\"b\\c".to_string()),
        sidecar_id: Some(String::new()),
        image_id: None,
        user_id: 0,
    };
    let s = encode_new_image(&d);
    assert_eq!(
        s,
        "{\"raw_id\":\"a\\\"b\\\\c\",\"sidecar_id\":\"\",\"image_id\":null,\"user_id\":0}"
    );
}

#[test]
fn encode_escapes_control_characters() {
    let d = NewImageData {
        raw_id: Some("a\nb\u{1}".to_string()),
        sidecar_id: None,
        image_id: None,
        user_id: 1,
    };
    let s = encode_new_image(&d);
    assert_eq!(
        s,
        "{\"raw_id\":\"a\\u000ab\\u0001\",\"sidecar_id\":null,\"image_id\":null,\"user_id\":1}"
    );
}

#[test]
fn round_trip_plain() {
    let img = sample(123);
    let decoded = decode_image(&encode_image(&img)).unwrap();
    assert_eq!(decoded, img);
}

#[test]
fn round_trip_special_characters() {
    let img = Image {
        id: i32::MIN,
        raw_id: Some("quote \" backslash \\ newline \n nul \u{0} tab \t".to_string()),
        sidecar_id: Some("päß€".to_string()),
        image_id: Some(String::new()),
        user_id: i32::MAX,
    };
    let decoded = decode_image(&encode_image(&img)).unwrap();
    assert_eq!(decoded, img);
}

#[test]
fn decode_accepts_whitespace_and_any_member_order() {
    let body = " {\n  \"user_id\": 5 ,\r\n  \"id\": -17 ,\t \"image_id\": \"x\" ,\n  \"raw_id\": null ,\n  \"sidecar_id\": \"s\"\n} ";
    let img = decode_image(body).unwrap();
    assert_eq!(img.id, -17);
    assert_eq!(img.user_id, 5);
    assert_eq!(img.raw_id, None);
    assert_eq!(img.sidecar_id, Some("s".to_string()));
    assert_eq!(img.image_id, Some("x".to_string()));
}

#[test]
fn decode_missing_optional_fields_become_none() {
    let img = decode_image("{\"id\":1,\"user_id\":2}").unwrap();
    assert_eq!(img.raw_id, None);
    assert_eq!(img.sidecar_id, None);
    assert_eq!(img.image_id, None);
}

#[test]
fn decode_resolves_escapes() {
    let img = decode_image(
        "{\"id\":1,\"user_id\":2,\"raw_id\":\"\\u0041\\n\\t\\\"\\\\\\/\\u00e9\"}",
    )
    .unwrap();
    assert_eq!(img.raw_id, Some("A\n\t\"\\/\u{e9}".to_string()));
}

#[test]
fn decode_rejects_missing_required_fields() {
    assert!(decode_image("{\"id\":1}").is_none());
    assert!(decode_image("{\"user_id\":1}").is_none());
    assert!(decode_image("{}").is_none());
}

#[test]
fn decode_rejects_malformed_bodies() {
    assert!(decode_image("").is_none());
    assert!(decode_image("null").is_none());
    assert!(decode_image("[1,2]").is_none());
    assert!(decode_image("{\"id\":1,\"user_id\":2} trailing").is_none());
    assert!(decode_image("{\"id\":1,\"user_id\":2,}").is_none());
    assert!(decode_image("{\"id\":1 \"user_id\":2}").is_none());
    assert!(decode_image("{\"id\":01,\"user_id\":2}").is_none());
    assert!(decode_image("{\"id\":1.5,\"user_id\":2}").is_none());
    assert!(decode_image("{\"id\":\"1\",\"user_id\":2}").is_none());
    assert!(decode_image("{\"id\":1,\"id\":2,\"user_id\":3}").is_none());
    assert!(decode_image("{\"id\":1,\"user_id\":2,\"other\":3}").is_none());
    assert!(decode_image("{\"id\":1,\"user_id\":2,\"raw_id\":\"unterminated}").is_none());
    assert!(decode_image("{\"id\":1,\"user_id\":2,\"raw_id\":\"\\ud800\"}").is_none());
    assert!(decode_image("{\"id\":1,\"user_id\":2,\"raw_id\":\"\\q\"}").is_none());
}

#[test]
fn decode_enforces_identifier_range() {
    assert!(decode_image("{\"id\":2147483648,\"user_id\":2}").is_none());
    assert!(decode_image("{\"id\":99999999999999999999,\"user_id\":2}").is_none());
    let img = decode_image("{\"id\":2147483647,\"user_id\":-2147483648}").unwrap();
    assert_eq!(img.id, i32::MAX);
    assert_eq!(img.user_id, i32::MIN);
}

#[test]
fn encoding_is_json_a_real_parser_agrees_on() {
    let img = Image {
        id: 11,
        raw_id: Some("a \"b\" \\ \n \u{3} z".to_string()),
        sidecar_id: None,
        image_id: Some("x/y".to_string()),
        user_id: -3,
    };
    let value: serde_json::Value = serde_json::from_str(&encode_image(&img)).unwrap();
    assert_eq!(value["id"], serde_json::Value::from(11));
    assert_eq!(value["user_id"], serde_json::Value::from(-3));
    assert_eq!(value["raw_id"], serde_json::Value::from("a \"b\" \\ \n \u{3} z"));
    assert_eq!(value["sidecar_id"], serde_json::Value::Null);
    assert_eq!(value["image_id"], serde_json::Value::from("x/y"));
}

#[test]
fn decoder_agrees_with_a_real_printer() {
    let mut map = serde_json::Map::new();
    map.insert("id".to_string(), serde_json::Value::from(123));
    map.insert("raw_id".to_string(), serde_json::Value::from("r"));
    map.insert("sidecar_id".to_string(), serde_json::Value::Null);
    map.insert("image_id".to_string(), serde_json::Value::from("i"));
    map.insert("user_id".to_string(), serde_json::Value::from(1));
    let body = serde_json::Value::Object(map).to_string();
    let img = decode_image(&body).unwrap();
    assert_eq!(img.id, 123);
    assert_eq!(img.raw_id, Some("r".to_string()));
    assert_eq!(img.sidecar_id, None);
    assert_eq!(img.image_id, Some("i".to_string()));
    assert_eq!(img.user_id, 1);
}
