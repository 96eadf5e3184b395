//! The ways in which configuration, theme metadata and SVG components are refused.

use vstd::prelude::*;
use crate::text::IntErrorKind;

verus! {

/// A setting that a configuration or theme names.
#[derive(PartialEq, Eq, Structural, Clone, Copy, Debug)]
pub enum Field {
    Palette,
    Columns,
    Rows,
    Size,
    Limit,
}

/// Why a request was refused.
#[derive(PartialEq, Eq, Debug)]
pub enum Error {
    /// A colour that is not six hex digits after its leading `#`s.
    InvalidHex(String),
    /// `columns` outside `4..=20`.
    ColumnsOutOfRange(u32),
    /// `rows` outside `4..=20`.
    RowsOutOfRange(u32),
    /// `size` outside `20..=50`.
    SizeOutOfRange(u32),
    /// A method name that is none of the five (given lower-cased and trimmed).
    UnknownMethod(String),
    /// A palette name that no built-in palette answers to.
    UnknownPalette(String),
    /// An inline palette with no colours or with more than ten.
    PaletteLength(usize),
    /// A component limit below one.
    LimitTooSmall(u32),
    /// A setting that a configuration without a theme must give.
    ConfigMissing(Field),
    /// A setting that theme metadata must give.
    ThemeMissing(Field),
    /// No `<desc>bauhaus` metadata in a theme.
    NoMetadata,
    /// Theme metadata without its closing `</desc>`.
    UnclosedMetadata,
    /// A number in theme metadata that does not parse.
    MetadataNumber(Field, IntErrorKind),
    /// A method in theme metadata that does not parse (given lower-cased and trimmed).
    MetadataMethod(String),
    /// An SVG component without an `<svg` element.
    MissingSvgElement,
    /// An `<svg` tag that is never closed by `>`.
    MalformedSvgTag,
    /// An SVG component without `</svg>`.
    MissingSvgClose,
    /// An SVG component whose body is empty.
    EmptySvgBody,
}

/// The model of an [`Error`]: its strings as character sequences.
pub enum ErrorView {
    InvalidHex(Seq<char>),
    ColumnsOutOfRange(u32),
    RowsOutOfRange(u32),
    SizeOutOfRange(u32),
    UnknownMethod(Seq<char>),
    UnknownPalette(Seq<char>),
    PaletteLength(usize),
    LimitTooSmall(u32),
    ConfigMissing(Field),
    ThemeMissing(Field),
    NoMetadata,
    UnclosedMetadata,
    MetadataNumber(Field, IntErrorKind),
    MetadataMethod(Seq<char>),
    MissingSvgElement,
    MalformedSvgTag,
    MissingSvgClose,
    EmptySvgBody,
}

impl View for Error {
    type V = ErrorView;

    open spec fn view(&self) -> ErrorView {
        match self {
            Error::InvalidHex(s) => ErrorView::InvalidHex(s@),
            Error::ColumnsOutOfRange(n) => ErrorView::ColumnsOutOfRange(*n),
            Error::RowsOutOfRange(n) => ErrorView::RowsOutOfRange(*n),
            Error::SizeOutOfRange(n) => ErrorView::SizeOutOfRange(*n),
            Error::UnknownMethod(s) => ErrorView::UnknownMethod(s@),
            Error::UnknownPalette(s) => ErrorView::UnknownPalette(s@),
            Error::PaletteLength(n) => ErrorView::PaletteLength(*n),
            Error::LimitTooSmall(n) => ErrorView::LimitTooSmall(*n),
            Error::ConfigMissing(f) => ErrorView::ConfigMissing(*f),
            Error::ThemeMissing(f) => ErrorView::ThemeMissing(*f),
            Error::NoMetadata => ErrorView::NoMetadata,
            Error::UnclosedMetadata => ErrorView::UnclosedMetadata,
            Error::MetadataNumber(f, k) => ErrorView::MetadataNumber(*f, *k),
            Error::MetadataMethod(s) => ErrorView::MetadataMethod(s@),
            Error::MissingSvgElement => ErrorView::MissingSvgElement,
            Error::MalformedSvgTag => ErrorView::MalformedSvgTag,
            Error::MissingSvgClose => ErrorView::MissingSvgClose,
            Error::EmptySvgBody => ErrorView::EmptySvgBody,
        }
    }
}

} // verus!
