//! The live configuration model: the selected theme's name and the known
//! themes, with the guarantee that the built-in default theme is always
//! available as a fallback.

use vstd::prelude::*;

use crate::select_theme::{is_default_console_theme, ConsoleTheme};

verus! {

/// The stand-in for a selected theme left out of a configuration file.
pub fn default_theme() -> (r: String)
    ensures
        r@ == "default"@,
{
    String::from_str("default")
}

/// The stand-in for a theme list left out of a configuration file: the
/// built-in default alone.
pub fn default_themes() -> (r: Vec<ConsoleTheme>)
    ensures
        r@.len() == 1,
        is_default_console_theme(r@[0]),
{
    let mut themes: Vec<ConsoleTheme> = Vec::new();
    themes.push(ConsoleTheme::default());
    themes
}

/// The configuration: which theme is selected, and which themes are known.
#[derive(Debug, PartialEq)]
pub struct Config {
    pub theme: String,
    pub themes: Vec<ConsoleTheme>,
}

impl Default for Config {
    fn default() -> (r: Self)
        ensures
            r.theme@ == "default"@,
            r.themes@.len() == 1,
            is_default_console_theme(r.themes@[0]),
    {
        Config { theme: default_theme(), themes: default_themes() }
    }
}

/// The index of the first theme with the given name, or the list's length
/// when none carries it.
pub open spec fn first_console_theme_index(themes: Seq<ConsoleTheme>, name: Seq<char>) -> int
    decreases themes.len(),
{
    if themes.len() == 0 {
        0
    } else if themes.first().name@ == name {
        0
    } else {
        1 + first_console_theme_index(themes.drop_first(), name)
    }
}

/// What `first_console_theme_index` means: it is at most the list's length,
/// nothing before it carries the name, and the entry at it (when it is a
/// valid index) does.
pub proof fn lemma_first_console_theme_index(themes: Seq<ConsoleTheme>, name: Seq<char>)
    ensures
        0 <= first_console_theme_index(themes, name) <= themes.len(),
        first_console_theme_index(themes, name) < themes.len() ==> themes[first_console_theme_index(
            themes,
            name,
        )].name@ == name,
        forall|j: int|
            0 <= j < first_console_theme_index(themes, name) ==> (#[trigger] themes[j]).name@
                != name,
    decreases themes.len(),
{
    if themes.len() > 0 && themes.first().name@ != name {
        lemma_first_console_theme_index(themes.drop_first(), name);
        let rest = themes.drop_first();
        assert forall|j: int|
            0 <= j < first_console_theme_index(themes, name) implies (#[trigger] themes[j]).name@
            != name by {
            if j > 0 {
                assert(themes[j] == rest[j - 1]);
            }
        }
        if first_console_theme_index(themes, name) < themes.len() {
            assert(themes[first_console_theme_index(themes, name)] == rest[first_console_theme_index(
                rest,
                name,
            )]);
        }
    }
}

/// If nothing before `i` carries the name, the first index carrying it is
/// decided at `i`.
proof fn lemma_first_console_theme_step(themes: Seq<ConsoleTheme>, name: Seq<char>, i: int)
    requires
        0 <= i < themes.len(),
        forall|j: int| 0 <= j < i ==> (#[trigger] themes[j]).name@ != name,
    ensures
        themes[i].name@ == name ==> first_console_theme_index(themes, name) == i,
        themes[i].name@ != name ==> first_console_theme_index(themes, name) >= i + 1,
    decreases i,
{
    if i == 0 {
        if themes[0].name@ != name {
            lemma_first_console_theme_index(themes.drop_first(), name);
        }
    } else {
        let rest = themes.drop_first();
        assert(forall|j: int| 0 <= j < i - 1 ==> (#[trigger] rest[j]).name@ != name);
        lemma_first_console_theme_step(rest, name, i - 1);
        assert(rest[i - 1] == themes[i]);
    }
}

impl Config {
    /// The selected theme: the first known theme carrying the selected name,
    /// or the built-in default when none does.
    #[verifier::loop_isolation(false)]
    pub fn theme(&self) -> (r: ConsoleTheme)
        ensures
            ({
                let fi = first_console_theme_index(self.themes@, self.theme@);
                &&& fi < self.themes@.len() ==> r == self.themes@[fi]
                &&& fi >= self.themes@.len() ==> is_default_console_theme(r)
            }),
    {
        let n = self.themes.len();
        let mut i: usize = 0;
        while i < n
            invariant
                i <= n,
                forall|j: int| 0 <= j < i ==> (#[trigger] self.themes@[j]).name@ != self.theme@,
            decreases n - i,
        {
            proof {
                lemma_first_console_theme_step(self.themes@, self.theme@, i as int);
            }
            if string_eq(&self.themes[i].name, &self.theme) {
                return self.themes[i].clone();
            }
            i = i + 1;
        }
        proof {
            lemma_first_console_theme_index(self.themes@, self.theme@);
        }
        ConsoleTheme::default()
    }
}

/// Make sure the built-in default theme is available: if no known theme is
/// named `default`, add the built-in one at the end.
#[verifier::loop_isolation(false)]
pub fn ensure_default_theme(themes: &mut Vec<ConsoleTheme>)
    ensures
        ({
            let fi = first_console_theme_index(old(themes)@, "default"@);
            &&& fi < old(themes)@.len() ==> final(themes)@ == old(themes)@
            &&& fi >= old(themes)@.len() ==> final(themes)@.len() == old(themes)@.len() + 1
                && final(themes)@.take(old(themes)@.len() as int) == old(themes)@
                && is_default_console_theme(final(themes)@.last())
        }),
{
    let name = default_theme();
    let n = themes.len();
    let mut i: usize = 0;
    while i < n
        invariant
            i <= n,
            *themes == *old(themes),
            name@ == "default"@,
            forall|j: int| 0 <= j < i ==> (#[trigger] themes@[j]).name@ != "default"@,
        decreases n - i,
    {
        proof {
            lemma_first_console_theme_step(themes@, "default"@, i as int);
        }
        if string_eq(&themes[i].name, &name) {
            return ;
        }
        i = i + 1;
    }
    proof {
        lemma_first_console_theme_index(themes@, "default"@);
    }
    let ghost before = themes@;
    themes.push(ConsoleTheme::default());
    proof {
        assert(themes@.take(before.len() as int) =~= before);
    }
}

/// Whether two strings hold the same characters.
fn string_eq(a: &String, b: &String) -> (r: bool)
    ensures
        r == (a@ == b@),
{
    a.eq(b)
}

} // verus!
