//! The document model: canvas, frames, and the content tree.
//!
//! A document is a canvas holding frames; each frame holds one content
//! node, and a content node is either literal text, a style change that
//! cascades over the following siblings, or an embedded scope whose style
//! changes do not outlive it. All lengths are in sub-units (see
//! [`crate::fix`]).

use vstd::prelude::*;
use crate::style::TextStyle;

verus! {

/// Default canvas width and height, in sub-units (1024 units).
pub const DEFAULT_CANVAS: i64 = 524288;

/// Default line height, in thousandths of an em (1.5 em).
pub const DEFAULT_LINE_HEIGHT: i64 = 1500;

/// Default baseline offset, in thousandths of a line (0.8).
pub const DEFAULT_BASELINE: i64 = 800;

/// Largest line-height or baseline ratio, in thousandths, that the
/// layout directives accept: the product of two such values is the
/// baseline position in millionths and must stay inside `i64`.
pub const RATIO_LIMIT: i64 = 0x8000_0000;

/// The order in which text reads along a line.
#[derive(Clone, Copy, Debug, PartialEq, Eq, Structural)]
pub enum ReadingDirection {
    LeftToRight,
    RightToLeft,
    TopToBottom,
    BottomToTop,
}

/// The order in which lines stack.
#[derive(Clone, Copy, Debug, PartialEq, Eq, Structural)]
pub enum FlowDirection {
    TopToBottom,
    BottomToTop,
    LeftToRight,
    RightToLeft,
}

/// A reading/flow direction pair, named after the CSS writing modes.
#[derive(Clone, Copy, Debug, PartialEq, Eq, Structural)]
pub enum WritingMode {
    LrTb,
    LrBt,
    RlTb,
    RlBt,
    TbLr,
    TbRl,
    BtLr,
    BtRl,
}

/// The reading and flow directions a writing mode denotes.
pub open spec fn spec_directions(wm: WritingMode) -> (ReadingDirection, FlowDirection) {
    match wm {
        WritingMode::LrTb => (ReadingDirection::LeftToRight, FlowDirection::TopToBottom),
        WritingMode::LrBt => (ReadingDirection::LeftToRight, FlowDirection::BottomToTop),
        WritingMode::RlTb => (ReadingDirection::RightToLeft, FlowDirection::TopToBottom),
        WritingMode::RlBt => (ReadingDirection::RightToLeft, FlowDirection::BottomToTop),
        WritingMode::TbLr => (ReadingDirection::TopToBottom, FlowDirection::LeftToRight),
        WritingMode::TbRl => (ReadingDirection::TopToBottom, FlowDirection::RightToLeft),
        WritingMode::BtLr => (ReadingDirection::BottomToTop, FlowDirection::LeftToRight),
        WritingMode::BtRl => (ReadingDirection::BottomToTop, FlowDirection::RightToLeft),
    }
}

impl WritingMode {
    /// Splits this writing mode into its reading and flow directions.
    pub fn directions(self) -> (r: (ReadingDirection, FlowDirection))
        ensures
            r == spec_directions(self),
    {
        match self {
            WritingMode::LrTb => (ReadingDirection::LeftToRight, FlowDirection::TopToBottom),
            WritingMode::LrBt => (ReadingDirection::LeftToRight, FlowDirection::BottomToTop),
            WritingMode::RlTb => (ReadingDirection::RightToLeft, FlowDirection::TopToBottom),
            WritingMode::RlBt => (ReadingDirection::RightToLeft, FlowDirection::BottomToTop),
            WritingMode::TbLr => (ReadingDirection::TopToBottom, FlowDirection::LeftToRight),
            WritingMode::TbRl => (ReadingDirection::TopToBottom, FlowDirection::RightToLeft),
            WritingMode::BtLr => (ReadingDirection::BottomToTop, FlowDirection::LeftToRight),
            WritingMode::BtRl => (ReadingDirection::BottomToTop, FlowDirection::RightToLeft),
        }
    }
}

impl Default for WritingMode {
    /// The default writing mode reads left-to-right, flows top-to-bottom.
    fn default() -> (r: Self)
        ensures
            r == WritingMode::LrTb,
    {
        WritingMode::LrTb
    }
}

/// How text distributes along each line.
#[derive(Clone, Copy, Debug, PartialEq, Eq, Structural)]
pub enum TextAlign {
    Left,
    Center,
    Right,
    Justify,
}

/// A paragraph alignment as the layout engine names it.
#[derive(Clone, Copy, Debug, PartialEq, Eq, Structural)]
pub enum TextAlignment {
    Leading,
    Trailing,
    Center,
    Justified,
}

/// The engine alignment a text-align setting denotes.
pub open spec fn spec_alignment(ta: TextAlign) -> TextAlignment {
    match ta {
        TextAlign::Left => TextAlignment::Leading,
        TextAlign::Right => TextAlignment::Trailing,
        TextAlign::Center => TextAlignment::Center,
        TextAlign::Justify => TextAlignment::Justified,
    }
}

impl TextAlign {
    /// Converts to the engine's paragraph alignment.
    pub fn alignment(self) -> (r: TextAlignment)
        ensures
            r == spec_alignment(self),
    {
        match self {
            TextAlign::Left => TextAlignment::Leading,
            TextAlign::Right => TextAlignment::Trailing,
            TextAlign::Center => TextAlignment::Center,
            TextAlign::Justify => TextAlignment::Justified,
        }
    }
}

impl Default for TextAlign {
    /// The default text alignment is left.
    fn default() -> (r: Self)
        ensures
            r == TextAlign::Left,
    {
        TextAlign::Left
    }
}

/// Horizontal anchor of a frame's text block.
#[derive(Clone, Copy, Debug, PartialEq, Eq, Structural)]
pub enum HAlign {
    Left,
    Center,
    Right,
}

impl Default for HAlign {
    /// The default horizontal anchor is left.
    fn default() -> (r: Self)
        ensures
            r == HAlign::Left,
    {
        HAlign::Left
    }
}

/// Vertical anchor of a frame's text block.
#[derive(Clone, Copy, Debug, PartialEq, Eq, Structural)]
pub enum VAlign {
    Top,
    Center,
    Bottom,
}

impl Default for VAlign {
    /// The default vertical anchor is top.
    fn default() -> (r: Self)
        ensures
            r == VAlign::Top,
    {
        VAlign::Top
    }
}

/// One node of a frame's content tree.
pub enum DocumentContent {
    /// Literal text appended to the frame's text buffer.
    Text(String),
    /// A style overlay that cascades over the following siblings.
    Style(TextStyle),
    /// A nested scope: style changes inside it do not leak to the
    /// siblings after it.
    Embed(Vec<DocumentContent>),
}

/// One frame of the document: a rectangle on the canvas, block-level
/// settings, accessibility metadata, and a content tree. Unset edges
/// default to the canvas edges.
pub struct DocumentFrame {
    pub left: Option<i64>,
    pub top: Option<i64>,
    pub right: Option<i64>,
    pub bottom: Option<i64>,
    pub title: Option<String>,
    pub desc: Option<String>,
    pub text_align: TextAlign,
    pub writing_mode: WritingMode,
    pub horizontal_align: HAlign,
    pub vertical_align: VAlign,
    /// Line height in thousandths of an em.
    pub line_height: i64,
    /// Baseline position in thousandths of a line.
    pub baseline_offset: i64,
    pub contents: DocumentContent,
}

/// The layout bounds the engine reports for a laid-out frame: offset and
/// extent of the text block, in sub-units.
#[derive(Clone, Copy, Debug, PartialEq, Eq, Structural)]
pub struct TextMetrics {
    pub left: i64,
    pub top: i64,
    pub width: i64,
    pub height: i64,
}

} // verus!
