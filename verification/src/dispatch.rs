//! Deciding what kind of input a blob of bytes is and who turns it into a
//! picture.
//!
//! Raster images are decoded here. Vector graphics, paginated documents,
//! office documents and web pages are rendered by collaborators outside
//! this library; for those the decision names the collaborator. Each
//! collaborator may be absent, and what is absent is never chosen.
//!
//! What the user says of the input comes first, then the extension of its
//! name, then the way its content begins.

use crate::bytes::{has_prefix, starts_with, str_eq};
use crate::codec::decode_image;
use crate::error::LoadError;
use crate::raster::{RasterImage, RasterView};
use crate::text::{string_of, to_chars, trim_range, trimmed, utf8_text};
use vstd::prelude::*;
use vstd::string::*;
use vstd::utf8::{decode_utf8, valid_utf8};

verus! {

/// What the user says the input is.
#[derive(Clone, Copy, Debug, PartialEq, Eq, Structural)]
pub enum InputType {
    /// Find out from the name and the content.
    Auto,
    /// A raster image.
    Image,
    /// Plain text.
    Text,
    /// A vector graphic.
    Svg,
    /// A paginated document.
    Pdf,
    /// A web page.
    Html,
    /// A spreadsheet, a slide show or a word processor's document.
    Office,
}

/// The settings that loading depends on.
pub struct RpixContext {
    pub input_type: InputType,
    pub conf_w: Option<u32>,
    pub conf_h: Option<u32>,
    pub term_width: u32,
    pub term_height: u32,
    pub page_indices: Option<Vec<u16>>,
}

/// A renderer outside this library.
#[derive(Clone, Copy, Debug, PartialEq, Eq, Structural)]
pub enum Decoder {
    Svg,
    Pdf,
    Office,
    Html,
}

/// Which of the outside renderers are there.
#[derive(Clone, Copy, Debug, PartialEq, Eq, Structural)]
pub struct Capabilities {
    pub svg: bool,
    pub pdf: bool,
    pub office: bool,
    pub html: bool,
}

impl Capabilities {
    /// Whether the renderer `decoder` is there.
    pub open spec fn has(self, decoder: Decoder) -> bool {
        match decoder {
            Decoder::Svg => self.svg,
            Decoder::Pdf => self.pdf,
            Decoder::Office => self.office,
            Decoder::Html => self.html,
        }
    }
}

/// Where an input goes.
#[derive(Clone, Copy, Debug, PartialEq, Eq, Structural)]
pub enum Route {
    /// Nowhere: text was asked for, and nothing renders text.
    Unsupported,
    /// To the raster decoder, because the user said so.
    Raster,
    /// To a renderer outside this library.
    External(Decoder),
    /// To the raster decoder for want of a better idea; if that fails the
    /// bytes may still name a file.
    Sniff,
}

/// The next thing to do with an input.
pub enum LoadStep {
    /// Nothing: here is the picture.
    Loaded(RasterImage),
    /// Hand the bytes to this renderer.
    Render(Decoder),
    /// The bytes are no picture but text: if it names a file, load that
    /// file, and follow no further name from there.
    FollowPath(String),
    /// Give up.
    Failed(LoadError),
}

/// What to do with a file before it is read.
#[derive(Clone, Copy, Debug, PartialEq, Eq, Structural)]
pub enum FileStep {
    /// Hand its name to the web renderer.
    RenderPage,
    /// Read it and load what it holds.
    Read,
}

/// The text is the address of a resource.
pub open spec fn is_url_bytes(s: Seq<u8>) -> bool {
    ||| has_prefix(s, "http://".spec_bytes())
    ||| has_prefix(s, "https://".spec_bytes())
    ||| has_prefix(s, "file://".spec_bytes())
}

/// The web renderer has a claim on the input: by what the user said, by its
/// name or because it is an address. Which claim prevails where there are
/// several is for `routed` to say.
pub open spec fn wants_html(input_type: InputType, extension: Seq<char>, s: Seq<u8>) -> bool {
    ||| input_type == InputType::Html
    ||| extension == "html"@
    ||| extension == "htm"@
    ||| is_url_bytes(s)
}

/// The renderer that the user named: the one for the input type, if the
/// type names a renderer and that renderer is there.
pub open spec fn by_type(input_type: InputType, caps: Capabilities) -> Option<Decoder> {
    match input_type {
        InputType::Svg => if caps.svg {
            Some(Decoder::Svg)
        } else {
            None
        },
        InputType::Pdf => if caps.pdf {
            Some(Decoder::Pdf)
        } else {
            None
        },
        InputType::Office => if caps.office {
            Some(Decoder::Office)
        } else {
            None
        },
        InputType::Html => if caps.html {
            Some(Decoder::Html)
        } else {
            None
        },
        _ => None,
    }
}

/// The renderer for the extension of the input's name, if the extension is
/// one that a renderer claims and that renderer is there.
pub open spec fn by_extension(extension: Seq<char>, caps: Capabilities) -> Option<Decoder> {
    if caps.svg && extension == "svg"@ {
        Some(Decoder::Svg)
    } else if caps.pdf && extension == "pdf"@ {
        Some(Decoder::Pdf)
    } else if caps.office && (extension == "xlsx"@ || extension == "docx"@ || extension
        == "pptx"@) {
        Some(Decoder::Office)
    } else if caps.html && (extension == "html"@ || extension == "htm"@) {
        Some(Decoder::Html)
    } else {
        None
    }
}

/// The renderer for the way the input begins, if it begins like something
/// that a renderer claims and that renderer is there: a vector graphic, a
/// paginated document, or a web page or the address of one.
pub open spec fn by_content(data: Seq<u8>, caps: Capabilities) -> Option<Decoder> {
    if caps.svg && (has_prefix(data, "<svg".spec_bytes()) || has_prefix(
        data,
        "<?xml".spec_bytes(),
    )) {
        Some(Decoder::Svg)
    } else if caps.pdf && has_prefix(data, "%PDF".spec_bytes()) {
        Some(Decoder::Pdf)
    } else if caps.html && (has_prefix(data, "<html".spec_bytes()) || has_prefix(
        data,
        "<!DOCTYPE html".spec_bytes(),
    ) || is_url_bytes(data)) {
        Some(Decoder::Html)
    } else {
        None
    }
}

/// Where an input goes by what is known of it before its content is looked
/// at. What the user said comes first: text and raster images are settled
/// by it, and so is input for a renderer that is there. Then comes the
/// extension of the name. `None` where neither settles it.
pub open spec fn routed_by_name(
    input_type: InputType,
    caps: Capabilities,
    extension: Seq<char>,
) -> Option<Route> {
    if input_type == InputType::Text {
        Some(Route::Unsupported)
    } else if input_type == InputType::Image {
        Some(Route::Raster)
    } else {
        match by_type(input_type, caps) {
            Some(decoder) => Some(Route::External(decoder)),
            None => match by_extension(extension, caps) {
                Some(decoder) => Some(Route::External(decoder)),
                None => None,
            },
        }
    }
}

/// Where an input goes: by what the user said, else by the extension of its
/// name, else by the way it begins. A renderer that is not there claims
/// nothing. What nobody claims is tried as a raster image.
pub open spec fn routed(
    input_type: InputType,
    caps: Capabilities,
    extension: Seq<char>,
    data: Seq<u8>,
) -> Route {
    match routed_by_name(input_type, caps, extension) {
        Some(route) => route,
        None => match by_content(data, caps) {
            Some(decoder) => Route::External(decoder),
            None => Route::Sniff,
        },
    }
}

/// The file name that the bytes spell, if they are text: the text without
/// the white space around it.
pub open spec fn named_path(data: Seq<u8>) -> Option<Seq<char>> {
    if valid_utf8(data) {
        Some(trimmed(decode_utf8(data)))
    } else {
        None
    }
}

/// Whether `s` begins like the address of a resource.
pub fn is_url(s: &[u8]) -> (r: bool)
    ensures
        r == is_url_bytes(s@),
{
    starts_with(s, "http://".as_bytes()) || starts_with(s, "https://".as_bytes()) || starts_with(
        s,
        "file://".as_bytes(),
    )
}

/// Whether the string begins like the address of a resource.
pub fn is_url_str(s: &str) -> (r: bool)
    ensures
        r == is_url_bytes(s.spec_bytes()),
{
    is_url(s.as_bytes())
}

/// Whether the web renderer has a claim on an input: by what the user said,
/// by the extension of its name, or because `s` is an address.
pub fn is_html(ctx: &RpixContext, extension: &str, s: &[u8]) -> (r: bool)
    ensures
        r == wants_html(ctx.input_type, extension@, s@),
{
    ctx.input_type == InputType::Html || str_eq(extension, "html") || str_eq(extension, "htm")
        || is_url(s)
}

/// Where an input goes by the user's word and the extension of its name,
/// if they settle it.
pub fn route_by_name(ctx: &RpixContext, caps: &Capabilities, extension: &str) -> (r: Option<Route>)
    ensures
        r == routed_by_name(ctx.input_type, *caps, extension@),
{
    match ctx.input_type {
        InputType::Text => {
            return Some(Route::Unsupported);
        },
        InputType::Image => {
            return Some(Route::Raster);
        },
        InputType::Svg => {
            if caps.svg {
                return Some(Route::External(Decoder::Svg));
            }
        },
        InputType::Pdf => {
            if caps.pdf {
                return Some(Route::External(Decoder::Pdf));
            }
        },
        InputType::Office => {
            if caps.office {
                return Some(Route::External(Decoder::Office));
            }
        },
        InputType::Html => {
            if caps.html {
                return Some(Route::External(Decoder::Html));
            }
        },
        InputType::Auto => {},
    }
    if caps.svg && str_eq(extension, "svg") {
        Some(Route::External(Decoder::Svg))
    } else if caps.pdf && str_eq(extension, "pdf") {
        Some(Route::External(Decoder::Pdf))
    } else if caps.office && (str_eq(extension, "xlsx") || str_eq(extension, "docx") || str_eq(
        extension,
        "pptx",
    )) {
        Some(Route::External(Decoder::Office))
    } else if caps.html && (str_eq(extension, "html") || str_eq(extension, "htm")) {
        Some(Route::External(Decoder::Html))
    } else {
        None
    }
}

/// Where the input `data` goes, `extension` being that of its file name, or
/// empty where it has none.
pub fn route(ctx: &RpixContext, caps: &Capabilities, data: &[u8], extension: &str) -> (r: Route)
    ensures
        r == routed(ctx.input_type, *caps, extension@, data@),
{
    match route_by_name(ctx, caps, extension) {
        Some(route) => {
            return route;
        },
        None => {},
    }
    if caps.svg && (starts_with(data, "<svg".as_bytes()) || starts_with(
        data,
        "<?xml".as_bytes(),
    )) {
        Route::External(Decoder::Svg)
    } else if caps.pdf && starts_with(data, "%PDF".as_bytes()) {
        Route::External(Decoder::Pdf)
    } else if caps.html && (starts_with(data, "<html".as_bytes()) || starts_with(
        data,
        "<!DOCTYPE html".as_bytes(),
    ) || is_url(data)) {
        Route::External(Decoder::Html)
    } else {
        Route::Sniff
    }
}

/// The file name that `data` spells, if it is text.
pub fn path_text(data: &[u8]) -> (r: Option<String>)
    ensures
        match r {
            Some(path) => named_path(data@) == Some(path@),
            None => named_path(data@) is None,
        },
{
    let text: &str = match utf8_text(data) {
        Some(text) => text,
        None => {
            return None;
        },
    };
    proof {
        vstd::utf8::encode_utf8_decode_utf8(text@);
    }
    let chars = to_chars(text);
    let span = trim_range(chars.as_slice(), 0, chars.len());
    assert(chars@.subrange(0, chars@.len() as int) =~= chars@);
    Some(string_of(chars.as_slice(), span.0, span.1))
}

/// The picture that the raster decoder found, as a view.
pub open spec fn decoded_view(decoded: Option<RasterImage>) -> Option<RasterView> {
    match decoded {
        Some(img) => Some(img@),
        None => None,
    }
}

/// `step` is the next step for an input that goes to `route`, of which the
/// raster decoder made `decoded` and whose bytes spell the file name `path`.
/// `followed` says that the input was itself reached through a file name.
///
/// Text fails. Input for an outside renderer is handed to it. Where the
/// raster decoder is asked, its picture is the result; without a picture an
/// input that the user called an image fails, and any other is taken as a
/// file name, unless it was reached through one or is no text.
pub open spec fn is_load_step(
    step: LoadStep,
    route: Route,
    decoded: Option<RasterView>,
    path: Option<Seq<char>>,
    followed: bool,
) -> bool {
    match step {
        LoadStep::Loaded(img) => (route == Route::Raster || route == Route::Sniff) && decoded
            == Some(img@),
        LoadStep::Render(decoder) => route == Route::External(decoder),
        LoadStep::FollowPath(name) => route == Route::Sniff && decoded is None && !followed
            && path == Some(name@),
        LoadStep::Failed(e) => match route {
            Route::Unsupported => e == LoadError::TextUnsupported,
            Route::Raster => decoded is None && e == LoadError::InvalidImage,
            Route::Sniff => decoded is None && (followed || path is None) && e
                == LoadError::DecodeFailed,
            Route::External(_) => false,
        },
    }
}

/// The next step for the input `data`, which goes to `route`, once the
/// raster decoder has made `decoded` of it. Where the route does not lead
/// to the raster decoder, `decoded` plays no part.
pub fn next_step(route: Route, decoded: Option<RasterImage>, data: &[u8], followed: bool) -> (step:
    LoadStep)
    ensures
        is_load_step(step, route, decoded_view(decoded), named_path(data@), followed),
{
    match route {
        Route::Unsupported => LoadStep::Failed(LoadError::TextUnsupported),
        Route::External(decoder) => LoadStep::Render(decoder),
        Route::Raster => match decoded {
            Some(img) => LoadStep::Loaded(img),
            None => LoadStep::Failed(LoadError::InvalidImage),
        },
        Route::Sniff => match decoded {
            Some(img) => LoadStep::Loaded(img),
            None => {
                if followed {
                    return LoadStep::Failed(LoadError::DecodeFailed);
                }
                match path_text(data) {
                    Some(name) => LoadStep::FollowPath(name),
                    None => LoadStep::Failed(LoadError::DecodeFailed),
                }
            },
        },
    }
}

/// The next step for the input `data`. A raster image comes back decoded.
/// Input for an outside renderer comes back as the order to render it.
/// Bytes that nobody wants and that are no raster image may be text that
/// names a file; such a name is followed once, never from a file that was
/// itself reached by a name.
///
/// What the raster decoder makes of the bytes is its own affair: the step
/// is the one that `is_load_step` allows for the decoder's answer, whatever
/// that was.
pub fn load_data(
    ctx: &RpixContext,
    caps: &Capabilities,
    data: &[u8],
    extension: &str,
    followed: bool,
) -> (step: LoadStep)
    ensures
        exists|decoded: Option<RasterView>| #[trigger]
            is_load_step(
                step,
                routed(ctx.input_type, *caps, extension@, data@),
                decoded,
                named_path(data@),
                followed,
            ),
        step matches LoadStep::Loaded(img) ==> img@.wf(),
{
    let route = route(ctx, caps, data, extension);
    let decoded = match route {
        Route::Raster | Route::Sniff => decode_image(data),
        _ => None,
    };
    let ghost answer = decoded_view(decoded);
    let step = next_step(route, decoded, data, followed);
    assert(is_load_step(step, route, answer, named_path(data@), followed));
    step
}

/// What to do with the file named `path`, whose name has the extension
/// `extension`. Where the user's word or the extension settles where the
/// input goes, a file for the web renderer is rendered from its name and
/// any other is read. Where they leave it open, the address of a page is
/// handed to the web renderer, and anything else is read for its content to
/// decide.
pub open spec fn file_step(
    input_type: InputType,
    caps: Capabilities,
    extension: Seq<char>,
    path: Seq<u8>,
) -> FileStep {
    match routed_by_name(input_type, caps, extension) {
        Some(route) => if route == Route::External(Decoder::Html) {
            FileStep::RenderPage
        } else {
            FileStep::Read
        },
        None => if caps.html && is_url_bytes(path) {
            FileStep::RenderPage
        } else {
            FileStep::Read
        },
    }
}

/// The first step for the file named `path`.
pub fn load_file(ctx: &RpixContext, caps: &Capabilities, extension: &str, path: &[u8]) -> (step:
    FileStep)
    ensures
        step == file_step(ctx.input_type, *caps, extension@, path@),
{
    match route_by_name(ctx, caps, extension) {
        Some(route) => if route == Route::External(Decoder::Html) {
            FileStep::RenderPage
        } else {
            FileStep::Read
        },
        None => if caps.html && is_url(path) {
            FileStep::RenderPage
        } else {
            FileStep::Read
        },
    }
}

/// What the user says settles where the input goes, whatever its name and
/// its content: text fails, a raster image goes to the raster decoder, and
/// input for a renderer that is there goes to that renderer.
pub proof fn lemma_explicit_type_first(
    input_type: InputType,
    caps: Capabilities,
    extension: Seq<char>,
    data: Seq<u8>,
)
    ensures
        input_type == InputType::Text ==> routed(input_type, caps, extension, data)
            == Route::Unsupported,
        input_type == InputType::Image ==> routed(input_type, caps, extension, data)
            == Route::Raster,
        by_type(input_type, caps) matches Some(decoder) ==> routed(
            input_type,
            caps,
            extension,
            data,
        ) == Route::External(decoder),
{
}

/// Where the user leaves it open, an extension that a renderer claims
/// settles where the input goes, whatever its content.
pub proof fn lemma_extension_before_content(
    caps: Capabilities,
    extension: Seq<char>,
    data: Seq<u8>,
    decoder: Decoder,
)
    requires
        by_extension(extension, caps) == Some(decoder),
    ensures
        routed(InputType::Auto, caps, extension, data) == Route::External(decoder),
{
}

/// A renderer that is not there is never chosen.
pub proof fn lemma_absent_renderer_skipped(
    input_type: InputType,
    caps: Capabilities,
    extension: Seq<char>,
    data: Seq<u8>,
    decoder: Decoder,
)
    requires
        routed(input_type, caps, extension, data) == Route::External(decoder),
    ensures
        caps.has(decoder),
{
}

} // verus!
