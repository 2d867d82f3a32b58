//! The client proper: building the three requests the image library service
//! understands, and interpreting its responses. A transport outside this
//! crate performs the exchange; both halves here are plain computation.

use vstd::prelude::*;

use crate::decode::decode_image;
use crate::encode::{encode_image, encode_new_image};
use crate::json::{spec_decode_image, spec_encode_image, spec_encode_new};
use crate::num::{push_i32_dec, spec_idec};
use crate::shims::{chars_to_string, uri_is_valid, uri_ok};
use crate::types::{ClientError, HttpMethod, HttpRequest, Image, NewImageData};

verus! {

/// The collection path every request is addressed under.
pub open spec fn images_path() -> Seq<char> {
    seq!['/', 'i', 'm', 'a', 'g', 'e', 's']
}

/// The path of one record: the collection path, a slash, the identifier in
/// decimal.
pub open spec fn image_path(id: int) -> Seq<char> {
    images_path() + seq!['/'] + spec_idec(id)
}

/// The target of the creation request.
pub open spec fn collection_target(base: Seq<char>) -> Seq<char> {
    base + images_path()
}

/// The target of a fetch or update of one record.
pub open spec fn record_target(base: Seq<char>, id: int) -> Seq<char> {
    base + image_path(id)
}

/// A client of the image library service: holds the base address every
/// request's target is built from.
pub struct LibraryClient {
    base: String,
}

impl LibraryClient {
    /// The configured base address.
    pub closed spec fn base_addr(&self) -> Seq<char> {
        self.base@
    }

    /// Creates a client for the service at the given base address, refusing
    /// an address that is not itself a valid URI.
    pub fn new(base: String) -> (r: Result<LibraryClient, ClientError>)
        ensures
            uri_ok(base@) ==> (r matches Ok(c) && c.base_addr() == base@),
            !uri_ok(base@) ==> r == Err::<LibraryClient, ClientError>(ClientError::InvalidAddress),
    {
        if uri_is_valid(base.as_str()) {
            Ok(LibraryClient { base })
        } else {
            Err(ClientError::InvalidAddress)
        }
    }

    /// The creation target as a string.
    fn collection_target_x(&self) -> (r: String)
        ensures
            r@ == collection_target(self.base_addr()),
    {
        let mut t = self.base.clone();
        t.append("/images");
        proof {
            reveal_strlit("/images");
            assert("/images"@ =~= images_path());
        }
        t
    }

    /// The target of one record as a string.
    fn record_target_x(&self, id: i32) -> (r: String)
        ensures
            r@ == record_target(self.base_addr(), id as int),
    {
        let mut digits: Vec<char> = Vec::new();
        push_i32_dec(&mut digits, id);
        let digits_str = chars_to_string(&digits);
        let mut t = self.base.clone();
        t.append("/images/");
        t.append(digits_str.as_str());
        proof {
            reveal_strlit("/images/");
            assert("/images/"@ =~= images_path() + seq!['/']);
            assert(t@ =~= record_target(self.base_addr(), id as int));
        }
        t
    }

    /// Builds the creation request: one POST to `<base>/images` whose body
    /// is the JSON encoding of the payload, exactly. Fails only when the
    /// target is not a valid URI.
    pub fn add_image(&self, data: &NewImageData) -> (r: Result<HttpRequest, ClientError>)
        ensures
            r matches Ok(req) ==> {
                &&& req.method == HttpMethod::Post
                &&& req.target@ == collection_target(self.base_addr())
                &&& uri_ok(req.target@)
                &&& req.body matches Some(b) && b@ == spec_encode_new(data@)
            },
            r is Ok <==> uri_ok(collection_target(self.base_addr())),
            r is Err ==> r == Err::<HttpRequest, ClientError>(ClientError::InvalidAddress),
    {
        let target = self.collection_target_x();
        if !uri_is_valid(target.as_str()) {
            return Err(ClientError::InvalidAddress);
        }
        let body = encode_new_image(data);
        Ok(HttpRequest { method: HttpMethod::Post, target, body: Some(body) })
    }

    /// Builds the fetch request: one GET to `<base>/images/<id>` with no
    /// body. Fails only when the target is not a valid URI.
    pub fn get_image(&self, image_id: i32) -> (r: Result<HttpRequest, ClientError>)
        ensures
            r matches Ok(req) ==> {
                &&& req.method == HttpMethod::Get
                &&& req.target@ == record_target(self.base_addr(), image_id as int)
                &&& uri_ok(req.target@)
                &&& req.body is None
            },
            r is Ok <==> uri_ok(record_target(self.base_addr(), image_id as int)),
            r is Err ==> r == Err::<HttpRequest, ClientError>(ClientError::InvalidAddress),
    {
        let target = self.record_target_x(image_id);
        if !uri_is_valid(target.as_str()) {
            return Err(ClientError::InvalidAddress);
        }
        Ok(HttpRequest { method: HttpMethod::Get, target, body: None })
    }

    /// Builds the update request: one PUT to `<base>/images/<id>`, the
    /// identifier taken from the record, whose body is the JSON encoding of
    /// the record, exactly. Fails only when the target is not a valid URI.
    pub fn update_image(&self, image: &Image) -> (r: Result<HttpRequest, ClientError>)
        ensures
            r matches Ok(req) ==> {
                &&& req.method == HttpMethod::Put
                &&& req.target@ == record_target(self.base_addr(), image.id as int)
                &&& uri_ok(req.target@)
                &&& req.body matches Some(b) && b@ == spec_encode_image(image@)
            },
            r is Ok <==> uri_ok(record_target(self.base_addr(), image.id as int)),
            r is Err ==> r == Err::<HttpRequest, ClientError>(ClientError::InvalidAddress),
    {
        let target = self.record_target_x(image.id);
        if !uri_is_valid(target.as_str()) {
            return Err(ClientError::InvalidAddress);
        }
        let body = encode_image(image);
        Ok(HttpRequest { method: HttpMethod::Put, target, body: Some(body) })
    }
}

/// Interprets a response to the fetch request: the full decoded record for a
/// 200 whose body is a JSON image record; `UnexpectedStatus` for any other
/// status, the body never looked at; `Decode` for a 200 whose body is
/// missing, not text, or not a JSON image record.
pub fn get_image_response(status: u16, body: Option<&str>) -> (r: Result<Image, ClientError>)
    ensures
        status != 200 ==> r == Err::<Image, ClientError>(ClientError::UnexpectedStatus),
        status == 200 && body is None ==> r == Err::<Image, ClientError>(ClientError::Decode),
        status == 200 ==> (body matches Some(b) ==> match spec_decode_image(b@) {
            Some(m) => r matches Ok(img) && img@ == m,
            None => r == Err::<Image, ClientError>(ClientError::Decode),
        }),
{
    if status != 200 {
        return Err(ClientError::UnexpectedStatus);
    }
    match body {
        None => Err(ClientError::Decode),
        Some(b) => match decode_image(b) {
            Some(img) => Ok(img),
            None => Err(ClientError::Decode),
        },
    }
}

/// Interprets a response to the creation request: the server-assigned
/// identifier of the decoded record, under the same status and decode rules
/// as a fetch.
pub fn add_image_response(status: u16, body: Option<&str>) -> (r: Result<i32, ClientError>)
    ensures
        status != 200 ==> r == Err::<i32, ClientError>(ClientError::UnexpectedStatus),
        status == 200 && body is None ==> r == Err::<i32, ClientError>(ClientError::Decode),
        status == 200 ==> (body matches Some(b) ==> match spec_decode_image(b@) {
            Some(m) => r matches Ok(id) && id as int == m.id,
            None => r == Err::<i32, ClientError>(ClientError::Decode),
        }),
{
    match get_image_response(status, body) {
        Ok(img) => Ok(img.id),
        Err(e) => Err(e),
    }
}

/// Interprets a response to the update request: the identifier the server
/// reports back — the server's value is authoritative and returned as is —
/// under the same status and decode rules as a fetch.
pub fn update_image_response(status: u16, body: Option<&str>) -> (r: Result<i32, ClientError>)
    ensures
        status != 200 ==> r == Err::<i32, ClientError>(ClientError::UnexpectedStatus),
        status == 200 && body is None ==> r == Err::<i32, ClientError>(ClientError::Decode),
        status == 200 ==> (body matches Some(b) ==> match spec_decode_image(b@) {
            Some(m) => r matches Ok(id) && id as int == m.id,
            None => r == Err::<i32, ClientError>(ClientError::Decode),
        }),
{
    match get_image_response(status, body) {
        Ok(img) => Ok(img.id),
        Err(e) => Err(e),
    }
}

} // verus!
