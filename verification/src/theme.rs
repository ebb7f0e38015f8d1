//! A prompt theme of styled prefix strings, with the style fields held flat
//! beside the text and colors given by exact lower-case names.

use vstd::prelude::*;

use crate::style_render::{
    term_style_bg, term_style_bright, term_style_fg, term_style_for_stderr, term_style_has_color,
    term_style_new, term_style_on_bright, term_style_render,
};

verus! {

/// The palette index a color name denotes, matched exactly; an unknown name
/// denotes no color.
pub open spec fn spec_exact_color_index(name: Seq<char>) -> Option<u8> {
    if name == "black"@ {
        Option::Some(0u8)
    } else if name == "red"@ {
        Option::Some(1u8)
    } else if name == "green"@ {
        Option::Some(2u8)
    } else if name == "yellow"@ {
        Option::Some(3u8)
    } else if name == "blue"@ {
        Option::Some(4u8)
    } else if name == "magenta"@ {
        Option::Some(5u8)
    } else if name == "cyan"@ {
        Option::Some(6u8)
    } else if name == "white"@ {
        Option::Some(7u8)
    } else {
        Option::None
    }
}

/// Whether `s` is exactly `target`.
#[verifier::loop_isolation(false)]
fn str_eq(s: &str, target: &str) -> (r: bool)
    ensures
        r == (s@ == target@),
{
    let n = s.unicode_len();
    let m = target.unicode_len();
    if n != m {
        return false;
    }
    let mut i: usize = 0;
    while i < n
        invariant
            i <= n,
            forall|j: int| 0 <= j < i ==> s@[j] == target@[j],
        decreases n - i,
    {
        if s.get_char(i) != target.get_char(i) {
            return false;
        }
        i = i + 1;
    }
    proof {
        assert(s@ =~= target@);
    }
    true
}

/// The palette index a color name denotes, matched exactly.
pub fn to_color(color: &str) -> (r: Option<u8>)
    ensures
        r == spec_exact_color_index(color@),
{
    if str_eq(color, "black") {
        Option::Some(0)
    } else if str_eq(color, "red") {
        Option::Some(1)
    } else if str_eq(color, "green") {
        Option::Some(2)
    } else if str_eq(color, "yellow") {
        Option::Some(3)
    } else if str_eq(color, "blue") {
        Option::Some(4)
    } else if str_eq(color, "magenta") {
        Option::Some(5)
    } else if str_eq(color, "cyan") {
        Option::Some(6)
    } else if str_eq(color, "white") {
        Option::Some(7)
    } else {
        Option::None
    }
}

/// The stand-in for a styling field left out of a configuration file.
pub fn default_as_false() -> (r: bool)
    ensures
        !r,
{
    false
}

/// A clone of an optional string with the same value.
fn clone_opt_string(o: &Option<String>) -> (r: Option<String>)
    ensures
        r == *o,
{
    match o {
        Option::Some(s) => Option::Some(s.clone()),
        Option::None => Option::None,
    }
}

/// The color a field applies: its named color's index, if the field is set
/// and the name is known exactly.
pub open spec fn spec_exact_effective_color(o: Option<String>) -> Option<u8> {
    match o {
        Option::None => Option::None,
        Option::Some(name) => spec_exact_color_index(name@),
    }
}

/// How prompt text is styled: optional foreground and background color
/// names, and brightness flags for each.
#[derive(Debug, PartialEq)]
pub struct Style {
    pub foreground: Option<String>,
    pub background: Option<String>,
    pub fg_bright: bool,
    pub bg_bright: bool,
}

/// The style that changes nothing: no colors, no brightness.
pub open spec fn spec_plain_gbs_style() -> Style {
    Style { foreground: Option::None, background: Option::None, fg_bright: false, bg_bright: false }
}

impl Style {
    /// Whether this style applies no color; such a style renders text
    /// unchanged.
    pub open spec fn spec_plain(&self) -> bool {
        spec_exact_effective_color(self.foreground) is None && spec_exact_effective_color(
            self.background,
        ) is None
    }

    /// Render `text` under this style. A style applying no color returns the
    /// text unchanged; a colored rendering depends on the terminal.
    pub fn apply_to(&self, text: &str) -> (r: String)
        ensures
            self.spec_plain() ==> r@ == text@,
    {
        let mut st = term_style_for_stderr(term_style_new());
        proof {
            assert(!term_style_has_color(st));
        }
        match &self.foreground {
            Option::Some(fg) => {
                match to_color(fg.as_str()) {
                    Option::Some(c) => {
                        st = term_style_fg(st, c);
                    },
                    Option::None => {
                    },
                }
            },
            Option::None => {
            },
        }
        match &self.background {
            Option::Some(bg) => {
                match to_color(bg.as_str()) {
                    Option::Some(c) => {
                        st = term_style_bg(st, c);
                    },
                    Option::None => {
                    },
                }
            },
            Option::None => {
            },
        }
        if self.fg_bright {
            st = term_style_bright(st);
        }
        if self.bg_bright {
            st = term_style_on_bright(st);
        }
        term_style_render(&st, text)
    }
}

impl Clone for Style {
    fn clone(&self) -> (r: Self)
        ensures
            r == *self,
    {
        Style {
            foreground: clone_opt_string(&self.foreground),
            background: clone_opt_string(&self.background),
            fg_bright: self.fg_bright,
            bg_bright: self.bg_bright,
        }
    }
}

impl Default for Style {
    fn default() -> (r: Self)
        ensures
            r == spec_plain_gbs_style(),
    {
        Style { foreground: Option::None, background: Option::None, fg_bright: false, bg_bright: false }
    }
}

/// A piece of prompt text (possibly left out) with its style fields held
/// flat beside it.
#[derive(Debug, PartialEq)]
pub struct StyledString {
    pub value: Option<String>,
    pub foreground: Option<String>,
    pub background: Option<String>,
    pub fg_bright: bool,
    pub bg_bright: bool,
}

impl StyledString {
    /// The text this value shows: its value, or nothing when left out.
    pub open spec fn spec_text(&self) -> Seq<char> {
        match self.value {
            Option::Some(v) => v@,
            Option::None => Seq::empty(),
        }
    }

    /// Whether the style fields apply no color.
    pub open spec fn spec_plain(&self) -> bool {
        spec_exact_effective_color(self.foreground) is None && spec_exact_effective_color(
            self.background,
        ) is None
    }

    /// Render the text under its style; with no color applied the raw text
    /// comes back.
    pub fn to_string(&self) -> (r: String)
        ensures
            self.spec_plain() ==> r@ == self.spec_text(),
    {
        let style = Style {
            foreground: clone_opt_string(&self.foreground),
            background: clone_opt_string(&self.background),
            fg_bright: self.fg_bright,
            bg_bright: self.bg_bright,
        };
        proof {
            reveal_strlit("");
            assert(""@ =~= Seq::<char>::empty());
        }
        match &self.value {
            Option::Some(v) => style.apply_to(v.as_str()),
            Option::None => style.apply_to(""),
        }
    }
}

impl Clone for StyledString {
    fn clone(&self) -> (r: Self)
        ensures
            r == *self,
    {
        StyledString {
            value: clone_opt_string(&self.value),
            foreground: clone_opt_string(&self.foreground),
            background: clone_opt_string(&self.background),
            fg_bright: self.fg_bright,
            bg_bright: self.bg_bright,
        }
    }
}

impl Default for StyledString {
    fn default() -> (r: Self)
        ensures
            r.value is None,
            r.foreground is None,
            r.background is None,
            !r.fg_bright,
            !r.bg_bright,
    {
        StyledString {
            value: Option::None,
            foreground: Option::None,
            background: Option::None,
            fg_bright: false,
            bg_bright: false,
        }
    }
}

/// A selection prompt theme: a name, the four item prefixes, and the styles
/// for active and inactive item text.
#[derive(Debug, PartialEq)]
pub struct GbsTheme {
    pub name: String,
    pub checked_item_prefix: StyledString,
    pub unchecked_item_prefix: StyledString,
    pub active_item_prefix: StyledString,
    pub inactive_item_prefix: StyledString,
    pub active_item_style: Style,
    pub inactive_item_style: Style,
}

/// Whether a theme is the built-in default: named `default`, with the plain
/// `[x]` / `[ ]` checkmarks and `> ` / `  ` activity markers, nothing
/// colored.
pub open spec fn is_default_gbs_theme(t: GbsTheme) -> bool {
    &&& t.name@ == "default"@
    &&& t.checked_item_prefix.spec_text() == "[x]"@
    &&& t.unchecked_item_prefix.spec_text() == "[ ]"@
    &&& t.active_item_prefix.spec_text() == "> "@
    &&& t.inactive_item_prefix.spec_text() == "  "@
    &&& t.checked_item_prefix.spec_plain()
    &&& t.unchecked_item_prefix.spec_plain()
    &&& t.active_item_prefix.spec_plain()
    &&& t.inactive_item_prefix.spec_plain()
    &&& t.active_item_style == spec_plain_gbs_style()
    &&& t.inactive_item_style == spec_plain_gbs_style()
}

/// The prompt line a theme produces for one item when nothing is colored:
/// the activity prefix, the checkmark prefix, a space, and the item's text.
pub open spec fn spec_gbs_prompt_item(
    t: GbsTheme,
    text: Seq<char>,
    checked: bool,
    active: bool,
) -> Seq<char> {
    let p1 = if active {
        t.active_item_prefix.spec_text()
    } else {
        t.inactive_item_prefix.spec_text()
    };
    let p2 = if checked {
        t.checked_item_prefix.spec_text()
    } else {
        t.unchecked_item_prefix.spec_text()
    };
    p1 + p2 + seq![' '] + text
}

impl GbsTheme {
    /// Whether no part of the theme applies a color.
    pub open spec fn spec_plain_theme(&self) -> bool {
        &&& self.checked_item_prefix.spec_plain()
        &&& self.unchecked_item_prefix.spec_plain()
        &&& self.active_item_prefix.spec_plain()
        &&& self.inactive_item_prefix.spec_plain()
        &&& self.active_item_style.spec_plain()
        &&& self.inactive_item_style.spec_plain()
    }

    /// Render one item of the selection prompt: the activity prefix, the
    /// checkmark prefix, a space, and the item text under the activity
    /// style. With an uncolored theme the line is exactly those raw parts.
    pub fn format_multi_select_prompt_item(&self, text: &str, checked: bool, active: bool) -> (r:
        String)
        ensures
            self.spec_plain_theme() ==> r@ == spec_gbs_prompt_item(*self, text@, checked, active),
    {
        let p1 = if active {
            self.active_item_prefix.to_string()
        } else {
            self.inactive_item_prefix.to_string()
        };
        let p2 = if checked {
            self.checked_item_prefix.to_string()
        } else {
            self.unchecked_item_prefix.to_string()
        };
        let styled_text = if active {
            self.active_item_style.apply_to(text)
        } else {
            self.inactive_item_style.apply_to(text)
        };
        let mut r = p1;
        r.append(p2.as_str());
        r.append(" ");
        r.append(styled_text.as_str());
        proof {
            reveal_strlit(" ");
            assert(" "@ =~= seq![' ']);
        }
        r
    }
}

impl Clone for GbsTheme {
    fn clone(&self) -> (r: Self)
        ensures
            r == *self,
    {
        GbsTheme {
            name: self.name.clone(),
            checked_item_prefix: self.checked_item_prefix.clone(),
            unchecked_item_prefix: self.unchecked_item_prefix.clone(),
            active_item_prefix: self.active_item_prefix.clone(),
            inactive_item_prefix: self.inactive_item_prefix.clone(),
            active_item_style: self.active_item_style.clone(),
            inactive_item_style: self.inactive_item_style.clone(),
        }
    }
}

impl Default for GbsTheme {
    fn default() -> (r: Self)
        ensures
            is_default_gbs_theme(r),
    {
        GbsTheme {
            name: String::from_str("default"),
            checked_item_prefix: StyledString {
                value: Option::Some(String::from_str("[x]")),
                foreground: Option::None,
                background: Option::None,
                fg_bright: false,
                bg_bright: false,
            },
            unchecked_item_prefix: StyledString {
                value: Option::Some(String::from_str("[ ]")),
                foreground: Option::None,
                background: Option::None,
                fg_bright: false,
                bg_bright: false,
            },
            active_item_prefix: StyledString {
                value: Option::Some(String::from_str("> ")),
                foreground: Option::None,
                background: Option::None,
                fg_bright: false,
                bg_bright: false,
            },
            inactive_item_prefix: StyledString {
                value: Option::Some(String::from_str("  ")),
                foreground: Option::None,
                background: Option::None,
                fg_bright: false,
                bg_bright: false,
            },
            active_item_style: Style::default(),
            inactive_item_style: Style::default(),
        }
    }
}

} // verus!
