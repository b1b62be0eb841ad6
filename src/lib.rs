//! Turns endpoint and field annotations attached to a type definition into an
//! API-collection document: a request with its URL, headers and a raw JSON body.

pub mod error;
pub mod grammar;
pub mod fields;
pub mod json;
pub mod postman;
pub mod document;
pub mod payload;
pub mod laws;
