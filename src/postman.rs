//! The collection document: info block, items, request, URL, headers and body,
//! in the layout of the public collection format (schema v2.1.0).

use vstd::prelude::*;

verus! {

#[derive(Debug, Clone, PartialEq, Eq)]
pub struct Collection {
    pub info: Info,
    pub item: Vec<Item>,
}

#[derive(Debug, Clone, PartialEq, Eq)]
pub struct Info {
    pub description: String,
    pub name: String,
    pub schema: String,
}

#[derive(Debug, Clone, PartialEq, Eq)]
pub struct Item {
    pub name: String,
    pub request: Request,
}

#[derive(Debug, Clone, PartialEq, Eq)]
pub struct Request {
    pub method: String,
    pub header: Vec<Header>,
    pub body: Body,
    pub url: Url,
    pub description: String,
}

#[derive(Debug, Clone, PartialEq, Eq)]
pub struct Body {
    pub mode: String,
    /// The request payload as JSON text.
    pub raw: String,
    pub options: BodyOptions,
}

#[derive(Debug, Clone, PartialEq, Eq)]
pub struct BodyOptions {
    pub raw: RawOptions,
}

#[derive(Debug, Clone, PartialEq, Eq)]
pub struct RawOptions {
    pub language: String,
}

#[derive(Debug, Clone, PartialEq, Eq)]
pub struct Url {
    pub host: Vec<String>,
    pub path: Vec<String>,
    pub protocol: String,
}

#[derive(Debug, Clone, PartialEq, Eq)]
pub struct Header {
    pub key: String,
    pub value: String,
    pub description: String,
    /// The optional `type` entry of a header.
    pub header_type: Option<String>,
    pub enabled: bool,
}

} // verus!
