//! Records exchanged with the image library service, the request shape the
//! client produces, and the error taxonomy every call reports through.

use vstd::prelude::*;

verus! {

/// Payload for creating an image record. It has no identifier field: the
/// server assigns the identifier on creation.
#[derive(Clone, Debug, PartialEq, Eq)]
pub struct NewImageData {
    pub raw_id: Option<String>,
    pub sidecar_id: Option<String>,
    pub image_id: Option<String>,
    pub user_id: i32,
}

/// A full image record as returned by or sent to the image library service.
/// `id` is only ever assigned by the server; the client never invents one.
#[derive(Clone, Debug, PartialEq, Eq)]
pub struct Image {
    pub id: i32,
    pub raw_id: Option<String>,
    pub sidecar_id: Option<String>,
    pub image_id: Option<String>,
    pub user_id: i32,
}

/// Mathematical model of an image record: identifiers as unbounded integers,
/// optional strings as optional character sequences.
pub ghost struct ImageModel {
    pub id: int,
    pub raw_id: Option<Seq<char>>,
    pub sidecar_id: Option<Seq<char>>,
    pub image_id: Option<Seq<char>>,
    pub user_id: int,
}

/// Mathematical model of a creation payload.
pub ghost struct NewImageModel {
    pub raw_id: Option<Seq<char>>,
    pub sidecar_id: Option<Seq<char>>,
    pub image_id: Option<Seq<char>>,
    pub user_id: int,
}

/// The view of an optional owned string: an optional character sequence.
pub open spec fn opt_str_view(o: Option<String>) -> Option<Seq<char>> {
    match o {
        Some(s) => Some(s@),
        None => None,
    }
}

impl View for Image {
    type V = ImageModel;

    open spec fn view(&self) -> ImageModel {
        ImageModel {
            id: self.id as int,
            raw_id: opt_str_view(self.raw_id),
            sidecar_id: opt_str_view(self.sidecar_id),
            image_id: opt_str_view(self.image_id),
            user_id: self.user_id as int,
        }
    }
}

impl View for NewImageData {
    type V = NewImageModel;

    open spec fn view(&self) -> NewImageModel {
        NewImageModel {
            raw_id: opt_str_view(self.raw_id),
            sidecar_id: opt_str_view(self.sidecar_id),
            image_id: opt_str_view(self.image_id),
            user_id: self.user_id as int,
        }
    }
}

/// An image model is representable when both identifiers fit the wire's
/// 32-bit signed integer fields.
pub open spec fn image_model_fits(m: ImageModel) -> bool {
    &&& i32::MIN <= m.id <= i32::MAX
    &&& i32::MIN <= m.user_id <= i32::MAX
}

/// Why a call against the image library service failed.
#[derive(Clone, Copy, Debug, PartialEq, Eq, Structural)]
pub enum ClientError {
    /// The base address joined with the request path is not a valid URI.
    InvalidAddress,
    /// Connection or I/O failure while sending the request or reading the
    /// response; reported by the transport that performs the exchange.
    Transport,
    /// The response carried a status other than 200.
    UnexpectedStatus,
    /// The response body was not a JSON image record.
    Decode,
}

/// The HTTP method of a request the client produces.
#[derive(Clone, Copy, Debug, PartialEq, Eq, Structural)]
pub enum HttpMethod {
    Get,
    Post,
    Put,
}

/// One fully-formed HTTP exchange request: everything a transport needs to
/// perform the call. The target is always a valid URI when handed out.
#[derive(Clone, Debug)]
pub struct HttpRequest {
    pub method: HttpMethod,
    pub target: String,
    pub body: Option<String>,
}

} // verus!
