use vstd::prelude::*;

verus! {

/// Where the renderer takes its font from.
#[derive(Debug)]
pub enum FontSelector {
    /// The font shipped with the program.
    Default,
    /// A font file.
    Filesystem(FilesystemSelector),
    /// A font installed on the system, found by its properties.
    System(SystemSelector),
}

/// A font file, and the index of the font in it.
#[derive(Debug)]
pub struct FilesystemSelector {
    pub path: String,
    pub font_index: u32,
}

/// An installed font: the first family found among `names`, with the given properties.
#[derive(Debug)]
pub struct SystemSelector {
    pub names: Vec<FamilyName>,
    pub style: Style,
    pub weight: Weight,
    pub stretch: Stretch,
}

/// A font family, by name or by kind.
#[derive(Debug)]
pub enum FamilyName {
    Title(String),
    Serif,
    SansSerif,
    Monospace,
    Cursive,
    Fantasy,
}

#[derive(Debug, Clone, Copy, PartialEq, Eq, Structural)]
pub enum Style {
    Normal,
    Italic,
    Oblique,
}

#[derive(Debug, Clone, Copy, PartialEq, Eq, Structural)]
pub enum Weight {
    Thin,
    ExtraLight,
    Light,
    Normal,
    Medium,
    SemiBold,
    Bold,
    ExtraBold,
    Black,
}

#[derive(Debug, Clone, Copy, PartialEq, Eq, Structural)]
pub enum Stretch {
    UltraCondensed,
    ExtraCondensed,
    Condensed,
    SemiCondensed,
    Normal,
    SemiExpanded,
    Expanded,
    ExtraExpanded,
    UltraExpanded,
}

impl FilesystemSelector {
    /// A font file selector; the first font of the file unless an index is given.
    pub fn new(path: String, font_index: Option<u32>) -> (r: Self)
        ensures
            r.path@ == path@,
            r.font_index == match font_index {
                Some(i) => i,
                None => 0,
            },
    {
        FilesystemSelector {
            path,
            font_index: match font_index {
                Some(i) => i,
                None => 0,
            },
        }
    }
}

impl SystemSelector {
    /// An installed-font selector; properties not given are the normal ones.
    pub fn new(
        names: Vec<FamilyName>,
        style: Option<Style>,
        weight: Option<Weight>,
        stretch: Option<Stretch>,
    ) -> (r: Self)
        ensures
            r.names@ == names@,
            r.style == match style {
                Some(s) => s,
                None => Style::Normal,
            },
            r.weight == match weight {
                Some(w) => w,
                None => Weight::Normal,
            },
            r.stretch == match stretch {
                Some(s) => s,
                None => Stretch::Normal,
            },
    {
        SystemSelector {
            names,
            style: match style {
                Some(s) => s,
                None => Style::Normal,
            },
            weight: match weight {
                Some(w) => w,
                None => Weight::Normal,
            },
            stretch: match stretch {
                Some(s) => s,
                None => Stretch::Normal,
            },
        }
    }
}

} // verus!
