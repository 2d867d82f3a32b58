//! Client-side core of an image library HTTP service: the typed records, the
//! JSON wire format they travel in, and the construction and interpretation
//! of the three exchanges the service understands. The actual transport is
//! left to the caller; everything here is plain computation on values.

pub mod client;
pub mod decode;
pub mod encode;
pub mod json;
pub mod laws;
pub mod num;
pub mod shims;
pub mod types;
