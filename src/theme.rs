//! Colors and icons of the interface.

use vstd::prelude::*;
use vstd::string::*;

verus! {

/// The colors of the interface, each as `0xRRGGBB`.
pub struct Palette;

impl Palette {
    /// Default border color (muted blue-gray).
    pub const BORDER_DEFAULT: u32 = 0x586E82;

    /// Active border color (bright cyan).
    pub const BORDER_ACTIVE: u32 = 0x50C8DC;

    /// Muted text for hints and secondary information.
    pub const TEXT_MUTED: u32 = 0x64788C;

    /// Normal text color.
    pub const TEXT_NORMAL: u32 = 0xC8D2DC;

    /// Background of a highlighted row.
    pub const BG_SELECTED: u32 = 0x2D4155;

    /// Command names.
    pub const SYNTAX_COMMAND: u32 = 0x64A0F0;

    /// Flags.
    pub const SYNTAX_FLAG: u32 = 0xE6A050;

    /// Paths.
    pub const SYNTAX_PATH: u32 = 0x50C8B4;

    /// Quoted strings.
    pub const SYNTAX_STRING: u32 = 0xE6C864;

    /// Numbers.
    pub const SYNTAX_NUMBER: u32 = 0xB48CDC;

    /// Operators.
    pub const SYNTAX_OPERATOR: u32 = 0xA0AAB4;

    /// Plain words and whitespace.
    pub const SYNTAX_TEXT: u32 = 0xC8D2DC;

    /// Branch name and dirty marker.
    pub const GIT_BRANCH: u32 = 0x8C96A0;

    /// Ahead and behind counts.
    pub const GIT_AHEAD_BEHIND: u32 = 0x50C8DC;

    /// Bookmark slot numbers.
    pub const SIDEBAR_NUMBER: u32 = 0x50C8DC;

    /// Bookmark paths.
    pub const SIDEBAR_PATH: u32 = 0xC8D2DC;

    /// Bookmark access times.
    pub const SIDEBAR_TIME: u32 = 0x64788C;

    /// Navigator header.
    pub const NAV_HEADER: u32 = 0xE6B464;

    /// Navigator highlight background.
    pub const NAV_SELECTED_BG: u32 = 0x285078;

    /// Navigator highlight text.
    pub const NAV_SELECTED_FG: u32 = 0xF0F5FA;

    /// Navigator key hints.
    pub const NAV_KEY_HINT: u32 = 0x50C8DC;
}

/// An icon with a Nerd Font glyph and a plain fallback.
#[derive(Debug, Clone, Copy)]
pub struct IconPair {
    pub nerd: &'static str,
    pub fallback: &'static str,
}

impl IconPair {
    /// Pairs a glyph with its fallback.
    pub fn new(nerd: &'static str, fallback: &'static str) -> (r: IconPair)
        ensures
            r.nerd == nerd,
            r.fallback == fallback,
    {
        IconPair { nerd, fallback }
    }
}

/// The icon set, with or without Nerd Font glyphs.
#[derive(Debug, Clone)]
pub struct Icons {
    pub use_nerd_fonts: bool,
}

impl Icons {
    /// An icon set; `use_nerd_fonts` picks the glyphs over the fallbacks.
    pub fn new(use_nerd_fonts: bool) -> (r: Icons)
        ensures
            r.use_nerd_fonts == use_nerd_fonts,
    {
        Icons { use_nerd_fonts }
    }

    fn pick(&self, pair: IconPair) -> (r: &'static str)
        ensures
            r == (if self.use_nerd_fonts {
                pair.nerd
            } else {
                pair.fallback
            }),
    {
        if self.use_nerd_fonts {
            pair.nerd
        } else {
            pair.fallback
        }
    }

    /// Folder icon.
    pub fn folder(&self) -> (r: &'static str)
        ensures
            r == (if self.use_nerd_fonts {
                "\u{f07b}"
            } else {
                ""
            }),
    {
        self.pick(IconPair::new("\u{f07b}", ""))
    }

    /// Home directory icon.
    pub fn home(&self) -> (r: &'static str)
        ensures
            r == (if self.use_nerd_fonts {
                "\u{f015}"
            } else {
                "~"
            }),
    {
        self.pick(IconPair::new("\u{f015}", "~"))
    }

    /// Branch icon.
    pub fn git_branch(&self) -> (r: &'static str)
        ensures
            r == (if self.use_nerd_fonts {
                "\u{e725}"
            } else {
                ""
            }),
    {
        self.pick(IconPair::new("\u{e725}", ""))
    }

    /// Parent directory icon.
    pub fn up_arrow(&self) -> (r: &'static str)
        ensures
            r == (if self.use_nerd_fonts {
                "\u{f062}"
            } else {
                ".."
            }),
    {
        self.pick(IconPair::new("\u{f062}", ".."))
    }

    /// Whether Nerd Font glyphs are used.
    pub fn has_nerd_fonts(&self) -> (r: bool)
        ensures
            r == self.use_nerd_fonts,
    {
        self.use_nerd_fonts
    }
}

/// ASCII lowercase of a character.
pub open spec fn ascii_lower(c: char) -> char {
    if 'A' <= c && c <= 'Z' {
        ((c as u8) + 32) as char
    } else {
        c
    }
}

/// Whether a setting value turns Nerd Font glyphs on: `1`, or `true` in
/// any ASCII case.
pub open spec fn nerd_fonts_value(v: Seq<char>) -> bool {
    v == "1"@ || (v.len() == 4 && ascii_lower(v[0]) == 't' && ascii_lower(v[1]) == 'r'
        && ascii_lower(v[2]) == 'u' && ascii_lower(v[3]) == 'e')
}

fn lower_ascii(c: char) -> (r: char)
    ensures
        r == ascii_lower(c),
{
    if 'A' <= c && c <= 'Z' {
        ((c as u8) + 32) as char
    } else {
        c
    }
}

/// Whether the setting value `value` turns Nerd Font glyphs on; an unset
/// setting does not.
pub fn nerd_fonts_requested(value: Option<&str>) -> (r: bool)
    ensures
        r == match value {
            Some(v) => nerd_fonts_value(v@),
            None => false,
        },
{
    match value {
        None => false,
        Some(v) => {
            let n = v.unicode_len();
            proof {
                reveal_strlit("1");
            }
            if n == 1 {
                let c = v.get_char(0);
                assert(c == '1' ==> v@ =~= "1"@);
                c == '1'
            } else if n == 4 {
                lower_ascii(v.get_char(0)) == 't' && lower_ascii(v.get_char(1)) == 'r'
                    && lower_ascii(v.get_char(2)) == 'u' && lower_ascii(v.get_char(3)) == 'e'
            } else {
                false
            }
        },
    }
}

} // verus!
