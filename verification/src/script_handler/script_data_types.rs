use vstd::prelude::*;

verus! {

#[derive(Debug, Clone, Copy, PartialEq, Eq, Structural)]
pub struct Point {
    pub x: usize,
    pub y: usize,
}

#[derive(Debug, Clone, Copy, PartialEq, Eq, Structural, Hash)]
pub struct Size {
    pub width: usize,
    pub height: usize,
}

#[derive(Debug, Clone, Copy, PartialEq, Eq, Structural)]
pub struct Rectangle {
    pub position: Point,
    pub size: Size,
}

/// How a device lays out pixels in memory.
#[derive(Debug, Clone, Copy, PartialEq, Eq, Structural)]
pub enum MemoryLayout {
    /// One bit per pixel, row by row (also known as `SteelSeries`).
    BitPerPixel,
    /// One byte per pixel.
    BytePerPixel,
    /// One bit per pixel, in vertical columns of eight (also known as `SteelSeries2`).
    BitPerPixelVertical,
}

/// How often an animation plays.
#[derive(Debug, Clone, Copy, PartialEq, Eq, Structural)]
pub enum Repeat {
    Once,
    ForDuration,
}

/// The size of a text: a fixed value, or fitted to the widget.
#[derive(Debug, Clone, Copy, PartialEq, Eq, Structural)]
pub enum FontSize {
    Value(usize),
    Auto,
    AutoUpper,
}

/// Pixel operations applied to a widget.
#[derive(Debug, Clone, Copy, PartialEq, Eq, Structural, Default)]
pub struct Modifiers {
    pub clear_background: bool,
    pub flip_horizontal: bool,
    pub flip_vertical: bool,
    pub negative: bool,
}

/// The image formats a script can name.
#[derive(Debug, Clone, Copy, PartialEq, Eq, Structural)]
pub enum ImageFormat {
    Avif,
    Bmp,
    Dds,
    Farbfeld,
    Gif,
    Hdr,
    Ico,
    Jpeg,
    OpenExr,
    Pcx,
    Png,
    Pnm,
    Qoi,
    Tga,
    Tiff,
    WebP,
}

/// A text widget.
#[derive(Debug, Clone)]
pub struct Text {
    pub text: String,
    pub text_offset: Option<isize>,
    pub font_size: FontSize,
    pub scrolling: bool,
    pub repeats: Repeat,
    pub animation_group: Option<usize>,
    pub animation_ticks_delay: Option<usize>,
    pub animation_ticks_rate: Option<usize>,
    pub position: Point,
    pub size: Size,
    pub hash: Option<u64>,
    pub modifiers: Modifiers,
}

} // verus!
