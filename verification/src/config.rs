//! Client settings and the plain values around a response: timeouts, what
//! counts as success, the JSON codec's content type, multipart parts and the
//! application-configuration section of the client.
use vstd::prelude::*;

use http::{HeaderMap, HeaderValue};

use crate::headers::header_entries;
use crate::retry::NANOS_PER_SEC;

verus! {

/// Connect, read and write timeouts, in nanoseconds.
#[derive(Debug, Clone, Copy, PartialEq, Eq)]
pub struct Timeout {
    pub connect: u128,
    pub read: u128,
    pub write: u128,
}

impl Default for Timeout {
    /// 5 s to connect, 30 s to read and 30 s to write.
    fn default() -> (r: Self)
        ensures
            r.connect == 5 * NANOS_PER_SEC,
            r.read == 30 * NANOS_PER_SEC,
            r.write == 30 * NANOS_PER_SEC,
    {
        Timeout {
            connect: 5 * NANOS_PER_SEC,
            read: 30 * NANOS_PER_SEC,
            write: 30 * NANOS_PER_SEC,
        }
    }
}

/// Whether a status counts as success unless configured otherwise: 200 to 299.
pub open spec fn spec_default_success(status: u16) -> bool {
    200 <= status < 300
}

/// Whether a status counts as success unless configured otherwise: 200 to 299.
pub fn default_success_status(status: u16) -> (r: bool)
    ensures
        r == spec_default_success(status),
{
    200 <= status && status < 300
}

/// A decoded response with its status and headers.
pub struct ApiResponse<T> {
    pub status: u16,
    pub headers: HeaderMap<HeaderValue>,
    pub body: T,
}

impl<T> ApiResponse<T> {
    /// A response with the given parts.
    pub fn new(status: u16, headers: HeaderMap<HeaderValue>, body: T) -> (r: Self)
        ensures
            r.status == status,
            header_entries(r.headers) == header_entries(headers),
            r.body == body,
    {
        ApiResponse { status, headers, body }
    }

    /// Whether the status is 200 to 299.
    pub fn is_success(&self) -> (r: bool)
        ensures
            r == spec_default_success(self.status),
    {
        default_success_status(self.status)
    }
}

/// The JSON codec: bodies are JSON, sent as `application/json`.
#[derive(Clone, Copy, Debug)]
pub struct JsonCodec;

impl JsonCodec {
    /// The content type of encoded bodies.
    pub fn content_type(&self) -> (r: &'static str)
        ensures
            r@ == "application/json"@,
    {
        "application/json"
    }
}

/// The bytes handed to the decoder for a response body: an empty body decodes
/// as JSON `null`.
pub fn body_to_decode(body: &Vec<u8>) -> (r: Vec<u8>)
    ensures
        body@.len() == 0 ==> r@ == seq![110u8, 117u8, 108u8, 108u8],
        body@.len() > 0 ==> r@ == body@,
{
    if body.len() == 0 {
        vec![110u8, 117u8, 108u8, 108u8]
    } else {
        body.clone()
    }
}

/// A file sent as a multipart field.
#[derive(Clone, Debug)]
pub struct Part {
    pub filename: String,
    pub content_type: String,
    pub data: Vec<u8>,
}

impl Part {
    /// A part holding `data` under the given file name and content type.
    pub fn from_bytes(filename: &str, content_type: &str, data: Vec<u8>) -> (r: Self)
        ensures
            r.filename@ == filename@,
            r.content_type@ == content_type@,
            r.data@ == data@,
    {
        Part { filename: filename.to_owned(), content_type: content_type.to_owned(), data }
    }
}

/// A field of a multipart body.
#[derive(Clone, Debug)]
pub enum MultipartField {
    Text(String),
    File(Part),
}

/// The client section of an application's configuration (`[rfeign]`).
#[derive(Debug, Clone)]
pub struct RfeignConfig {
    pub base_url: Option<String>,
    pub timeout_ms: u64,
}

impl Default for RfeignConfig {
    /// No base URL and a zero timeout, as when the section is missing.
    fn default() -> (r: Self)
        ensures
            r.base_url is None,
            r.timeout_ms == 0,
    {
        RfeignConfig { base_url: None, timeout_ms: 0 }
    }
}

impl RfeignConfig {
    /// The name of the configuration section.
    pub fn config_prefix() -> (r: &'static str)
        ensures
            r@ == "rfeign"@,
    {
        "rfeign"
    }
}

/// The timeout, in milliseconds, of a configuration section that names none.
pub fn default_timeout() -> (r: u64)
    ensures
        r == 30000,
{
    30000
}

/// The application plugin that registers a client built from the configuration.
#[derive(Debug, Clone, Copy)]
pub struct RfeignPlugin;

impl RfeignPlugin {
    /// The plugin's name.
    pub fn name(&self) -> (r: &'static str)
        ensures
            r@ == "summer-rfeign"@,
    {
        "summer-rfeign"
    }

    /// The plugins that must be registered first: the Nacos plugin when Nacos
    /// discovery is used, none otherwise.
    pub fn dependencies(&self, with_nacos: bool) -> (r: Vec<&'static str>)
        ensures
            with_nacos ==> r@.len() == 1 && r@[0]@ == "summer-nacos"@,
            !with_nacos ==> r@.len() == 0,
    {
        if with_nacos {
            vec!["summer-nacos"]
        } else {
            Vec::new()
        }
    }
}

} // verus!
