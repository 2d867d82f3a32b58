//! Scenario tests for the request builders and response interpreters.

use image_library_client::client::{
    add_image_response, get_image_response, update_image_response, LibraryClient,
};
use image_library_client::types::{ClientError, HttpMethod, Image, NewImageData};

const STUB_BODY: &str = "{\"id\":123,\"raw_id\":null,\"sidecar_id\":null,\"image_id\":null,\"user_id\":1}";

fn client() -> LibraryClient {
    LibraryClient::new("http://localhost:8002".to_string()).unwrap()
}

#[test]
fn add_image() {
    let client = client();
    let new_image = NewImageData {
        raw_id: None,
        sidecar_id: None,
        image_id: None,
        user_id: 1,
    };
    let req = client.add_image(&new_image).unwrap();
    assert_eq!(req.method, HttpMethod::Post);
    assert_eq!(req.target, "http://localhost:8002/images");
    assert_eq!(
        req.body.as_deref(),
        Some("{\"raw_id\":null,\"sidecar_id\":null,\"image_id\":null,\"user_id\":1}")
    );
    let id = add_image_response(200, Some(STUB_BODY)).unwrap();
    assert_eq!(id, 123);
}

#[test]
fn get_image() {
    let client = client();
    let req = client.get_image(123).unwrap();
    assert_eq!(req.method, HttpMethod::Get);
    assert_eq!(req.target, "http://localhost:8002/images/123");
    assert!(req.body.is_none());
    let image = get_image_response(200, Some(STUB_BODY)).unwrap();
    assert_eq!(image.id, 123);
    assert_eq!(image.raw_id, None);
    assert_eq!(image.sidecar_id, None);
    assert_eq!(image.image_id, None);
    assert_eq!(image.user_id, 1);
}

#[test]
fn get_image_not_found() {
    let client = client();
    let req = client.get_image(999).unwrap();
    assert_eq!(req.target, "http://localhost:8002/images/999");
    let r = get_image_response(404, Some(STUB_BODY));
    assert_eq!(r, Err(ClientError::UnexpectedStatus));
    let r = get_image_response(404, None);
    assert_eq!(r, Err(ClientError::UnexpectedStatus));
}

#[test]
fn update_image() {
    let client = client();
    let image = Image {
        id: 7,
        raw_id: Some("raw-1".to_string()),
        sidecar_id: None,
        image_id: Some("img-1".to_string()),
        user_id: 42,
    };
    let req = client.update_image(&image).unwrap();
    assert_eq!(req.method, HttpMethod::Put);
    assert_eq!(req.target, "http://localhost:8002/images/7");
    assert_eq!(
        req.body.as_deref(),
        Some(
            "{\"id\":7,\"raw_id\":\"raw-1\",\"sidecar_id\":null,\"image_id\":\"img-1\",\"user_id\":42}"
        )
    );
    let body = "{\"id\":7,\"raw_id\":\"raw-1\",\"sidecar_id\":null,\"image_id\":\"img-1\",\"user_id\":42}";
    let id = update_image_response(200, Some(body)).unwrap();
    assert_eq!(id, 7);
}

#[test]
fn update_image_negative_id() {
    let client = client();
    let image = Image {
        id: -5,
        raw_id: None,
        sidecar_id: None,
        image_id: None,
        user_id: -1,
    };
    let req = client.update_image(&image).unwrap();
    assert_eq!(req.target, "http://localhost:8002/images/-5");
    assert_eq!(
        req.body.as_deref(),
        Some("{\"id\":-5,\"raw_id\":null,\"sidecar_id\":null,\"image_id\":null,\"user_id\":-1}")
    );
}

#[test]
fn invalid_base_address() {
    let r = LibraryClient::new("not a uri with spaces".to_string());
    assert!(matches!(r, Err(ClientError::InvalidAddress)));
}

#[test]
fn non_200_never_decodes() {
    // Any status but 200 fails the same way, body well-formed or not.
    assert_eq!(
        add_image_response(500, Some("garbage")),
        Err(ClientError::UnexpectedStatus)
    );
    assert_eq!(
        update_image_response(201, Some(STUB_BODY)),
        Err(ClientError::UnexpectedStatus)
    );
}

#[test]
fn malformed_body_is_decode_error() {
    assert_eq!(
        get_image_response(200, Some("not json")),
        Err(ClientError::Decode)
    );
    assert_eq!(get_image_response(200, None), Err(ClientError::Decode));
    assert_eq!(
        add_image_response(200, Some("{\"id\":1")),
        Err(ClientError::Decode)
    );
}
