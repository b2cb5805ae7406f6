//! How names are dressed: what is written before and after a name, by the
//! kind of entry. The layout takes the texts as they come and never looks
//! inside them.

use vstd::prelude::*;
use vstd::string::*;

verus! {

/// The four kinds of entry that a listing tells apart.
#[derive(Clone, Copy, Debug, PartialEq, Eq, Structural)]
pub enum Category {
    /// A folder whose name begins with a dot.
    HiddenFolder,
    /// Any other folder.
    VisibleFolder,
    /// A file whose name begins with a dot.
    HiddenFile,
    /// Any other file.
    VisibleFile,
}

/// What goes around a name.
#[derive(Clone, Debug)]
pub struct Style {
    /// Written right before the name.
    pub lead: String,
    /// Written after the name and its padding.
    pub tail: String,
}

/// What a `Style` holds, as values.
pub struct StyleView {
    pub lead: Seq<char>,
    pub tail: Seq<char>,
}

impl View for Style {
    type V = StyleView;

    open spec fn view(&self) -> StyleView {
        StyleView { lead: self.lead@, tail: self.tail@ }
    }
}

/// A style for each kind of entry.
#[derive(Clone, Debug)]
pub struct Palette {
    pub hidden_folder: Style,
    pub visible_folder: Style,
    pub hidden_file: Style,
    pub visible_file: Style,
}

/// What a `Palette` holds, as values.
pub struct PaletteView {
    pub hidden_folder: StyleView,
    pub visible_folder: StyleView,
    pub hidden_file: StyleView,
    pub visible_file: StyleView,
}

impl PaletteView {
    /// The style of a kind of entry.
    pub open spec fn style(self, category: Category) -> StyleView {
        match category {
            Category::HiddenFolder => self.hidden_folder,
            Category::VisibleFolder => self.visible_folder,
            Category::HiddenFile => self.hidden_file,
            Category::VisibleFile => self.visible_file,
        }
    }
}

impl View for Palette {
    type V = PaletteView;

    open spec fn view(&self) -> PaletteView {
        PaletteView {
            hidden_folder: self.hidden_folder@,
            visible_folder: self.visible_folder@,
            hidden_file: self.hidden_file@,
            visible_file: self.visible_file@,
        }
    }
}

impl Palette {
    /// The style of a kind of entry.
    pub fn style(&self, category: Category) -> (style: &Style)
        ensures
            style@ == self@.style(category),
    {
        match category {
            Category::HiddenFolder => &self.hidden_folder,
            Category::VisibleFolder => &self.visible_folder,
            Category::HiddenFile => &self.hidden_file,
            Category::VisibleFile => &self.visible_file,
        }
    }
}

/// All that a listing needs to dress its output.
#[derive(Clone, Debug)]
pub struct Theme {
    /// Written at the start of each detailed line.
    pub reset: String,
    /// The styles of the names in a grid.
    pub grid: Palette,
    /// The styles of the names in detailed lines.
    pub detail: Palette,
}

/// What a `Theme` holds, as values.
pub struct ThemeView {
    pub reset: Seq<char>,
    pub grid: PaletteView,
    pub detail: PaletteView,
}

impl View for Theme {
    type V = ThemeView;

    open spec fn view(&self) -> ThemeView {
        ThemeView { reset: self.reset@, grid: self.grid@, detail: self.detail@ }
    }
}

/// The texts of the theme that colours names with ANSI escape sequences and
/// sets an icon before each. Hidden folders are written in bold and hidden
/// files in a colour of their own, in a grid as in detailed lines.
pub open spec fn ansi_theme() -> ThemeView {
    ThemeView {
        reset: "\x1B[0m"@,
        grid: PaletteView {
            hidden_folder: StyleView {
                lead: "\x1B[1;92m\u{ea83} \x1B[0 \x1B[1;96m"@,
                tail: "\x1B[0"@,
            },
            visible_folder: StyleView {
                lead: "\x1B[92m\u{ea83} \x1B[0 \x1B[32m"@,
                tail: "\x1B[0"@,
            },
            hidden_file: StyleView {
                lead: "\x1B[94m\u{ea7b} \x1B[0 \x1B[96m"@,
                tail: "\x1B[0"@,
            },
            visible_file: StyleView {
                lead: "\x1B[94m\u{ea7b} \x1B[0 \x1B[0m"@,
                tail: "\x1B[0"@,
            },
        },
        detail: PaletteView {
            hidden_folder: StyleView {
                lead: "\x1B[0 \x1B[1;92m\u{ea83} \x1B[0 \x1B[1;96m"@,
                tail: "\x1B[0"@,
            },
            visible_folder: StyleView {
                lead: "\x1B[0 \x1B[92m\u{ea83} \x1B[0 \x1B[1;32m"@,
                tail: "\x1B[0"@,
            },
            hidden_file: StyleView {
                lead: "\x1B[0 \x1B[94m\u{ea7b} \x1B[0 \x1B[96m"@,
                tail: "\x1B[0"@,
            },
            visible_file: StyleView {
                lead: "\x1B[0 \x1B[94m\u{ea7b} \x1B[0 \x1B[34m"@,
                tail: "\x1B[0"@,
            },
        },
    }
}

/// The palette dresses a hidden entry otherwise than a visible one of its
/// kind.
pub open spec fn tells_hidden_apart(palette: PaletteView) -> bool {
    &&& palette.hidden_folder != palette.visible_folder
    &&& palette.hidden_file != palette.visible_file
}

/// The theme with ANSI colours has a style reserved for hidden folders and
/// one reserved for hidden files, in a grid and in detailed lines.
pub proof fn lemma_ansi_theme_tells_hidden_apart()
    ensures
        tells_hidden_apart(ansi_theme().grid),
        tells_hidden_apart(ansi_theme().detail),
{
    reveal_strlit("\x1B[1;92m\u{ea83} \x1B[0 \x1B[1;96m");
    reveal_strlit("\x1B[92m\u{ea83} \x1B[0 \x1B[32m");
    reveal_strlit("\x1B[94m\u{ea7b} \x1B[0 \x1B[96m");
    reveal_strlit("\x1B[94m\u{ea7b} \x1B[0 \x1B[0m");
    reveal_strlit("\x1B[0 \x1B[1;92m\u{ea83} \x1B[0 \x1B[1;96m");
    reveal_strlit("\x1B[0 \x1B[92m\u{ea83} \x1B[0 \x1B[1;32m");
    reveal_strlit("\x1B[0 \x1B[94m\u{ea7b} \x1B[0 \x1B[96m");
    reveal_strlit("\x1B[0 \x1B[94m\u{ea7b} \x1B[0 \x1B[34m");
    let grid = ansi_theme().grid;
    let detail = ansi_theme().detail;
    assert(grid.hidden_folder.lead[2] == '1' && grid.visible_folder.lead[2] == '9');
    assert(grid.hidden_file.lead[13] == '9' && grid.visible_file.lead[13] == '0');
    assert(detail.hidden_folder.lead[6] == '1' && detail.visible_folder.lead[6] == '9');
    assert(detail.hidden_file.lead[17] == '9' && detail.visible_file.lead[17] == '3');
}

impl Style {
    /// A style with the given texts.
    pub fn new(lead: &str, tail: &str) -> (style: Style)
        ensures
            style@ == (StyleView { lead: lead@, tail: tail@ }),
    {
        Style { lead: String::from_str(lead), tail: String::from_str(tail) }
    }
}

impl Theme {
    /// The theme that colours names with ANSI escape sequences and sets an
    /// icon before each: bold for hidden folders and a colour of their own
    /// for hidden files, in a grid as in detailed lines.
    pub fn ansi() -> (theme: Theme)
        ensures
            theme@ == ansi_theme(),
    {
        Theme {
            reset: String::from_str("\x1B[0m"),
            grid: Palette {
                hidden_folder: Style::new("\x1B[1;92m\u{ea83} \x1B[0 \x1B[1;96m", "\x1B[0"),
                visible_folder: Style::new("\x1B[92m\u{ea83} \x1B[0 \x1B[32m", "\x1B[0"),
                hidden_file: Style::new("\x1B[94m\u{ea7b} \x1B[0 \x1B[96m", "\x1B[0"),
                visible_file: Style::new("\x1B[94m\u{ea7b} \x1B[0 \x1B[0m", "\x1B[0"),
            },
            detail: Palette {
                hidden_folder: Style::new(
                    "\x1B[0 \x1B[1;92m\u{ea83} \x1B[0 \x1B[1;96m",
                    "\x1B[0",
                ),
                visible_folder: Style::new("\x1B[0 \x1B[92m\u{ea83} \x1B[0 \x1B[1;32m", "\x1B[0"),
                hidden_file: Style::new("\x1B[0 \x1B[94m\u{ea7b} \x1B[0 \x1B[96m", "\x1B[0"),
                visible_file: Style::new("\x1B[0 \x1B[94m\u{ea7b} \x1B[0 \x1B[34m", "\x1B[0"),
            },
        }
    }
}

} // verus!
