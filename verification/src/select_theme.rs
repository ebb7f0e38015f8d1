//! The selection prompt's theme: per-item prefixes and styles, the named
//! color model behind them, and the rendering of one prompt line. Colors are
//! given by case-insensitive names; unknown names apply no color.

use vstd::prelude::*;

use crate::style_render::{
    term_style_has_color,
    term_style_bg, term_style_bright, term_style_fg, term_style_for_stderr, term_style_new,
    term_style_on_bright, term_style_render,
};

verus! {

/// An ASCII capital letter lowered; every other character unchanged.
pub open spec fn spec_ascii_lower_char(c: char) -> char {
    if 'A' <= c && c <= 'Z' {
        ((c as u32) + 32) as char
    } else {
        c
    }
}

/// Every ASCII capital letter lowered.
pub open spec fn spec_ascii_lower(s: Seq<char>) -> Seq<char> {
    s.map_values(|c: char| spec_ascii_lower_char(c))
}

/// The palette index a color name denotes, compared without regard to ASCII
/// case; an unknown name denotes no color.
pub open spec fn spec_color_index(name: Seq<char>) -> Option<u8> {
    let lower = spec_ascii_lower(name);
    if lower == "black"@ {
        Option::Some(0u8)
    } else if lower == "red"@ {
        Option::Some(1u8)
    } else if lower == "green"@ {
        Option::Some(2u8)
    } else if lower == "yellow"@ {
        Option::Some(3u8)
    } else if lower == "blue"@ {
        Option::Some(4u8)
    } else if lower == "magenta"@ {
        Option::Some(5u8)
    } else if lower == "cyan"@ {
        Option::Some(6u8)
    } else if lower == "white"@ {
        Option::Some(7u8)
    } else {
        Option::None
    }
}

/// Whether `c` lowered is exactly `tc`.
fn char_lower_matches(c: char, tc: char) -> (r: bool)
    ensures
        r == (spec_ascii_lower_char(c) == tc),
{
    let cu = c as u32;
    let tu = tc as u32;
    if cu >= 65 && cu <= 90 {
        proof {
            assert('A' <= c && c <= 'Z');
            assert(spec_ascii_lower_char(c) as u32 == cu + 32);
        }
        cu + 32 == tu
    } else {
        proof {
            assert(!('A' <= c && c <= 'Z'));
        }
        cu == tu
    }
}

/// Whether `s` lowered is exactly `target`.
#[verifier::loop_isolation(false)]
fn eq_ascii_lower(s: &str, target: &str) -> (r: bool)
    ensures
        r == (spec_ascii_lower(s@) == target@),
{
    let n = s.unicode_len();
    let m = target.unicode_len();
    if n != m {
        proof {
            assert(spec_ascii_lower(s@).len() == s@.len());
        }
        return false;
    }
    let mut i: usize = 0;
    while i < n
        invariant
            i <= n,
            forall|j: int| 0 <= j < i ==> spec_ascii_lower(s@)[j] == target@[j],
        decreases n - i,
    {
        if !char_lower_matches(s.get_char(i), target.get_char(i)) {
            proof {
                assert(spec_ascii_lower(s@)[i as int] == spec_ascii_lower_char(s@[i as int]));
            }
            return false;
        }
        proof {
            assert(spec_ascii_lower(s@)[i as int] == spec_ascii_lower_char(s@[i as int]));
        }
        i = i + 1;
    }
    proof {
        assert(spec_ascii_lower(s@) =~= target@);
    }
    true
}

/// The palette index a color name denotes, or nothing for an unknown name.
pub fn to_color(color: &str) -> (r: Option<u8>)
    ensures
        r == spec_color_index(color@),
{
    if eq_ascii_lower(color, "black") {
        Option::Some(0)
    } else if eq_ascii_lower(color, "red") {
        Option::Some(1)
    } else if eq_ascii_lower(color, "green") {
        Option::Some(2)
    } else if eq_ascii_lower(color, "yellow") {
        Option::Some(3)
    } else if eq_ascii_lower(color, "blue") {
        Option::Some(4)
    } else if eq_ascii_lower(color, "magenta") {
        Option::Some(5)
    } else if eq_ascii_lower(color, "cyan") {
        Option::Some(6)
    } else if eq_ascii_lower(color, "white") {
        Option::Some(7)
    } else {
        Option::None
    }
}

/// A clone of an optional color name with the same value.
fn clone_opt_string(o: &Option<String>) -> (r: Option<String>)
    ensures
        r == *o,
{
    match o {
        Option::Some(s) => Option::Some(s.clone()),
        Option::None => Option::None,
    }
}

/// The color a field applies: its named color's index, if the field is set
/// and the name is known.
pub open spec fn spec_effective_color(o: Option<String>) -> Option<u8> {
    match o {
        Option::None => Option::None,
        Option::Some(name) => spec_color_index(name@),
    }
}

/// How one piece of prompt text is styled: optional foreground and
/// background color names, and brightness flags for each.
#[derive(Debug, PartialEq, Eq)]
pub struct Style {
    pub foreground: Option<String>,
    pub background: Option<String>,
    pub fg_bright: bool,
    pub bg_bright: bool,
}

/// The style that changes nothing: no colors, no brightness.
pub open spec fn spec_plain_style() -> Style {
    Style { foreground: Option::None, background: Option::None, fg_bright: false, bg_bright: false }
}

impl Style {
    /// Whether this style applies no color. Brightness alone colors nothing,
    /// so such a style renders text unchanged.
    pub open spec fn spec_plain(&self) -> bool {
        spec_effective_color(self.foreground) is None && spec_effective_color(self.background)
            is None
    }

    /// Render `text` under this style. A style applying no color returns the
    /// text unchanged; a colored rendering depends on the terminal.
    pub fn apply_to(&self, text: &str) -> (r: String)
        ensures
            self.spec_plain() ==> r@ == text@,
    {
        let mut st = term_style_for_stderr(term_style_new());
        proof {
            assert(!term_style_has_color(st));
        }
        match &self.foreground {
            Option::Some(fg) => {
                match to_color(fg.as_str()) {
                    Option::Some(c) => {
                        st = term_style_fg(st, c);
                    },
                    Option::None => {
                    },
                }
            },
            Option::None => {
            },
        }
        match &self.background {
            Option::Some(bg) => {
                match to_color(bg.as_str()) {
                    Option::Some(c) => {
                        st = term_style_bg(st, c);
                    },
                    Option::None => {
                    },
                }
            },
            Option::None => {
            },
        }
        if self.fg_bright {
            st = term_style_bright(st);
        }
        if self.bg_bright {
            st = term_style_on_bright(st);
        }
        term_style_render(&st, text)
    }
}

impl Clone for Style {
    fn clone(&self) -> (r: Self)
        ensures
            r == *self,
    {
        Style {
            foreground: clone_opt_string(&self.foreground),
            background: clone_opt_string(&self.background),
            fg_bright: self.fg_bright,
            bg_bright: self.bg_bright,
        }
    }
}

impl Default for Style {
    fn default() -> (r: Self)
        ensures
            r == spec_plain_style(),
    {
        Style { foreground: Option::None, background: Option::None, fg_bright: false, bg_bright: false }
    }
}

/// A piece of prompt text together with its style.
#[derive(Debug, PartialEq, Eq)]
pub struct StyledString {
    pub value: String,
    pub style: Style,
}

impl StyledString {
    /// Render the text under its style; a plain style returns the raw value.
    pub fn to_string(&self) -> (r: String)
        ensures
            self.style.spec_plain() ==> r@ == self.value@,
    {
        self.style.apply_to(self.value.as_str())
    }
}

impl Clone for StyledString {
    fn clone(&self) -> (r: Self)
        ensures
            r == *self,
    {
        StyledString { value: self.value.clone(), style: self.style.clone() }
    }
}

impl Default for StyledString {
    fn default() -> (r: Self)
        ensures
            r.value@ == Seq::<char>::empty() && r.style == spec_plain_style(),
    {
        StyledString { value: String::new(), style: Style::default() }
    }
}

/// The name of the theme every configuration can fall back to.
pub fn default_name() -> (r: String)
    ensures
        r@ == "default"@,
{
    String::from_str("default")
}

/// A selection prompt theme: a name, the four item prefixes, and the styles
/// for active and inactive item text.
#[derive(Debug, PartialEq, Eq)]
pub struct ConsoleTheme {
    pub name: String,
    pub checked_item_prefix: StyledString,
    pub unchecked_item_prefix: StyledString,
    pub active_item_prefix: StyledString,
    pub inactive_item_prefix: StyledString,
    pub active_item_style: Style,
    pub inactive_item_style: Style,
}

/// Whether a theme is the built-in default: named `default`, with the plain
/// `[x]` / `[ ]` checkmarks and `> ` / `  ` activity markers, nothing
/// colored.
pub open spec fn is_default_console_theme(t: ConsoleTheme) -> bool {
    &&& t.name@ == "default"@
    &&& t.checked_item_prefix.value@ == "[x]"@
    &&& t.unchecked_item_prefix.value@ == "[ ]"@
    &&& t.active_item_prefix.value@ == "> "@
    &&& t.inactive_item_prefix.value@ == "  "@
    &&& t.checked_item_prefix.style == spec_plain_style()
    &&& t.unchecked_item_prefix.style == spec_plain_style()
    &&& t.active_item_prefix.style == spec_plain_style()
    &&& t.inactive_item_prefix.style == spec_plain_style()
    &&& t.active_item_style == spec_plain_style()
    &&& t.inactive_item_style == spec_plain_style()
}

/// The prompt line a theme produces for one item when nothing is colored:
/// the activity prefix, the checkmark prefix, a space, and the item's text.
pub open spec fn spec_prompt_item(
    t: ConsoleTheme,
    text: Seq<char>,
    checked: bool,
    active: bool,
) -> Seq<char> {
    let p1 = if active {
        t.active_item_prefix.value@
    } else {
        t.inactive_item_prefix.value@
    };
    let p2 = if checked {
        t.checked_item_prefix.value@
    } else {
        t.unchecked_item_prefix.value@
    };
    p1 + p2 + seq![' '] + text
}

impl ConsoleTheme {
    /// Whether no part of the theme applies a color.
    pub open spec fn spec_plain_theme(&self) -> bool {
        &&& self.checked_item_prefix.style.spec_plain()
        &&& self.unchecked_item_prefix.style.spec_plain()
        &&& self.active_item_prefix.style.spec_plain()
        &&& self.inactive_item_prefix.style.spec_plain()
        &&& self.active_item_style.spec_plain()
        &&& self.inactive_item_style.spec_plain()
    }

    /// Render one item of the selection prompt: the activity prefix, the
    /// checkmark prefix, a space, and the item text under the activity
    /// style. With an uncolored theme the line is exactly those raw parts.
    pub fn format_multi_select_prompt_item(&self, text: &str, checked: bool, active: bool) -> (r:
        String)
        ensures
            self.spec_plain_theme() ==> r@ == spec_prompt_item(*self, text@, checked, active),
    {
        let p1 = if active {
            self.active_item_prefix.to_string()
        } else {
            self.inactive_item_prefix.to_string()
        };
        let p2 = if checked {
            self.checked_item_prefix.to_string()
        } else {
            self.unchecked_item_prefix.to_string()
        };
        let styled_text = if active {
            self.active_item_style.apply_to(text)
        } else {
            self.inactive_item_style.apply_to(text)
        };
        let mut r = p1;
        r.append(p2.as_str());
        r.append(" ");
        r.append(styled_text.as_str());
        proof {
            reveal_strlit(" ");
            assert(" "@ =~= seq![' ']);
        }
        r
    }
}

impl Clone for ConsoleTheme {
    fn clone(&self) -> (r: Self)
        ensures
            r == *self,
    {
        ConsoleTheme {
            name: self.name.clone(),
            checked_item_prefix: self.checked_item_prefix.clone(),
            unchecked_item_prefix: self.unchecked_item_prefix.clone(),
            active_item_prefix: self.active_item_prefix.clone(),
            inactive_item_prefix: self.inactive_item_prefix.clone(),
            active_item_style: self.active_item_style.clone(),
            inactive_item_style: self.inactive_item_style.clone(),
        }
    }
}

impl Default for ConsoleTheme {
    fn default() -> (r: Self)
        ensures
            is_default_console_theme(r),
    {
        ConsoleTheme {
            name: default_name(),
            checked_item_prefix: StyledString {
                value: String::from_str("[x]"),
                style: Style::default(),
            },
            unchecked_item_prefix: StyledString {
                value: String::from_str("[ ]"),
                style: Style::default(),
            },
            active_item_prefix: StyledString {
                value: String::from_str("> "),
                style: Style::default(),
            },
            inactive_item_prefix: StyledString {
                value: String::from_str("  "),
                style: Style::default(),
            },
            active_item_style: Style::default(),
            inactive_item_style: Style::default(),
        }
    }
}

} // verus!
