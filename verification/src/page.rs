//! What the web renderer is pointed at: an address, a file, or the page
//! itself wrapped in a `data:` address.

use crate::bytes::push_str;
use crate::codec::{base64_standard, encodable, encode_base64};
use crate::dispatch::{is_url, is_url_bytes};
use crate::error::RenderError;
use crate::text::utf8_text;
use vstd::prelude::*;
use vstd::string::*;
use vstd::utf8::valid_utf8;

verus! {

/// How the input is to reach the web renderer.
#[derive(Clone, Copy, Debug, PartialEq, Eq, Structural)]
pub enum PageSource {
    /// The input is no text: it cannot be a page.
    NotText,
    /// The input is an address; the renderer goes there.
    Address,
    /// The input names a file or is the page itself. A file that exists is
    /// shown from its place; anything else travels in a `data:` address.
    Local,
}

/// How input that is valid or invalid as text reaches the web renderer.
pub open spec fn page_source_of(data: Seq<u8>, is_text: bool) -> PageSource {
    if !is_text {
        PageSource::NotText
    } else if is_url_bytes(data) {
        PageSource::Address
    } else {
        PageSource::Local
    }
}

/// The `data:` address that carries the page `data`.
pub open spec fn data_address(data: Seq<u8>) -> Seq<u8> {
    "data:text/html;base64,".spec_bytes() + base64_standard(data)
}

/// How `data` is to reach the web renderer.
pub fn page_source(data: &[u8]) -> (r: PageSource)
    ensures
        r == page_source_of(data@, valid_utf8(data@)),
{
    if utf8_text(data).is_none() {
        PageSource::NotText
    } else if is_url(data) {
        PageSource::Address
    } else {
        PageSource::Local
    }
}

/// The page `data` as a `data:` address, or `TooLarge` where its base64
/// text would not fit an allocation.
pub fn data_url(data: &[u8]) -> (r: Result<Vec<u8>, RenderError>)
    ensures
        match r {
            Ok(url) => encodable(data@.len()) && url@ == data_address(data@),
            Err(e) => !encodable(data@.len()) && e == RenderError::TooLarge,
        },
{
    match encode_base64(data) {
        Ok(text) => {
            let mut url: Vec<u8> = Vec::new();
            push_str(&mut url, "data:text/html;base64,");
            url.extend_from_slice(text.as_slice());
            Ok(url)
        },
        Err(e) => Err(e),
    }
}

} // verus!
