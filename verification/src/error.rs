//! What can go wrong, by component.

use vstd::prelude::*;

verus! {

/// A colour string that is no colour.
#[derive(Clone, Copy, Debug, PartialEq, Eq, Structural)]
pub enum ColorError {
    /// Not six characters after the optional `#`.
    InvalidLength,
    /// Six characters, but one of them is no hexadecimal digit.
    InvalidDigit,
}

/// A page selection that cannot be read.
#[derive(Clone, Copy, Debug, PartialEq, Eq, Structural)]
pub enum PagesError {
    /// A page number is not a decimal number that fits 16 bits.
    InvalidNumber,
    /// A single page number is zero; pages count from one.
    ZeroIndex,
    /// A range starts at zero or does not end after its start.
    InvalidRange,
}

/// Why a picture could not be turned into bytes for the terminal.
#[derive(Clone, Copy, Debug, PartialEq, Eq, Structural)]
pub enum RenderError {
    /// The background colour is malformed.
    InvalidColor(ColorError),
    /// A buffer the work needs is larger than this machine can address, or
    /// a side is longer than a picture may have where it is resampled.
    TooLarge,
    /// The encoder or the compressor reported a failure.
    EncodingFailed,
}

/// Why an input gave no picture.
#[derive(Clone, Copy, Debug, PartialEq, Eq, Structural)]
pub enum LoadError {
    /// Text input was asked for; nothing renders it.
    TextUnsupported,
    /// The chosen decoder rejected the bytes.
    InvalidImage,
    /// No decoder could read the bytes.
    DecodeFailed,
}

impl ColorError {
    /// What went wrong, in words.
    pub open spec fn description(self) -> Seq<char> {
        match self {
            ColorError::InvalidLength => "Invalid color format"@,
            ColorError::InvalidDigit => "Invalid digit in color"@,
        }
    }

    /// A short description for the user.
    pub fn message(&self) -> (m: &'static str)
        ensures
            m@ == self.description(),
    {
        match self {
            ColorError::InvalidLength => "Invalid color format",
            ColorError::InvalidDigit => "Invalid digit in color",
        }
    }
}

impl PagesError {
    /// What went wrong, in words.
    pub open spec fn description(self) -> Seq<char> {
        match self {
            PagesError::InvalidNumber => "Invalid page index"@,
            PagesError::ZeroIndex => "Page index must be >= 1"@,
            PagesError::InvalidRange => "Page range must start >= 1 and end > start"@,
        }
    }

    /// A short description for the user.
    pub fn message(&self) -> (m: &'static str)
        ensures
            m@ == self.description(),
    {
        match self {
            PagesError::InvalidNumber => "Invalid page index",
            PagesError::ZeroIndex => "Page index must be >= 1",
            PagesError::InvalidRange => "Page range must start >= 1 and end > start",
        }
    }
}

impl RenderError {
    /// What went wrong, in words.
    pub open spec fn description(self) -> Seq<char> {
        match self {
            RenderError::InvalidColor(e) => e.description(),
            RenderError::TooLarge => "Image too large"@,
            RenderError::EncodingFailed => "Failed to encode image"@,
        }
    }

    /// A short description for the user.
    pub fn message(&self) -> (m: &'static str)
        ensures
            m@ == self.description(),
    {
        match self {
            RenderError::InvalidColor(e) => e.message(),
            RenderError::TooLarge => "Image too large",
            RenderError::EncodingFailed => "Failed to encode image",
        }
    }
}

impl LoadError {
    /// The names of what the input was tried as before it was given up.
    pub open spec fn formats_tried(self) -> Seq<char> {
        match self {
            LoadError::TextUnsupported => ""@,
            LoadError::InvalidImage => "image"@,
            LoadError::DecodeFailed => "image, file name"@,
        }
    }

    /// The names of what the input was tried as before it was given up.
    pub fn attempted(&self) -> (names: &'static str)
        ensures
            names@ == self.formats_tried(),
    {
        match self {
            LoadError::TextUnsupported => "",
            LoadError::InvalidImage => "image",
            LoadError::DecodeFailed => "image, file name",
        }
    }

    /// What went wrong, in words.
    pub open spec fn description(self) -> Seq<char> {
        match self {
            LoadError::TextUnsupported => "Text input not implemented yet"@,
            LoadError::InvalidImage => "Failed to load image"@,
            LoadError::DecodeFailed => "Failed to decode input"@,
        }
    }

    /// A short description for the user.
    pub fn message(&self) -> (m: &'static str)
        ensures
            m@ == self.description(),
    {
        match self {
            LoadError::TextUnsupported => "Text input not implemented yet",
            LoadError::InvalidImage => "Failed to load image",
            LoadError::DecodeFailed => "Failed to decode input",
        }
    }
}

} // verus!
