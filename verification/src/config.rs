//! The tool's configuration: which theme is selected and which themes are
//! known. Looking a theme up by name falls back to the built-in default, so
//! a misspelt selection still leaves the tool usable.

use vstd::prelude::*;

use crate::theme::{is_default_gbs_theme, GbsTheme};

verus! {

/// The base settings: the name of the selected theme.
#[derive(Debug, PartialEq)]
pub struct BaseConfig {
    pub theme: String,
}

impl Default for BaseConfig {
    fn default() -> (r: Self)
        ensures
            r.theme@ == "default"@,
    {
        BaseConfig { theme: String::from_str("default") }
    }
}

impl Clone for BaseConfig {
    fn clone(&self) -> (r: Self)
        ensures
            r == *self,
    {
        BaseConfig { theme: self.theme.clone() }
    }
}

/// The whole configuration: the base settings and the known themes.
#[derive(Debug, PartialEq)]
pub struct Config {
    pub base: BaseConfig,
    pub themes: Vec<GbsTheme>,
}

impl Default for Config {
    fn default() -> (r: Self)
        ensures
            r.base.theme@ == "default"@,
            r.themes@.len() == 1,
            is_default_gbs_theme(r.themes@[0]),
    {
        let mut themes: Vec<GbsTheme> = Vec::new();
        themes.push(GbsTheme::default());
        Config { base: BaseConfig::default(), themes }
    }
}

/// The index of the first theme with the given name, or the list's length
/// when none carries it.
pub open spec fn first_theme_index(themes: Seq<GbsTheme>, name: Seq<char>) -> int
    decreases themes.len(),
{
    if themes.len() == 0 {
        0
    } else if themes.first().name@ == name {
        0
    } else {
        1 + first_theme_index(themes.drop_first(), name)
    }
}

/// What `first_theme_index` means: it is at most the list's length, nothing
/// before it carries the name, and the entry at it (when it is a valid
/// index) does.
pub proof fn lemma_first_theme_index(themes: Seq<GbsTheme>, name: Seq<char>)
    ensures
        0 <= first_theme_index(themes, name) <= themes.len(),
        first_theme_index(themes, name) < themes.len() ==> themes[first_theme_index(
            themes,
            name,
        )].name@ == name,
        forall|j: int|
            0 <= j < first_theme_index(themes, name) ==> (#[trigger] themes[j]).name@ != name,
    decreases themes.len(),
{
    if themes.len() > 0 && themes.first().name@ != name {
        lemma_first_theme_index(themes.drop_first(), name);
        let rest = themes.drop_first();
        assert forall|j: int|
            0 <= j < first_theme_index(themes, name) implies (#[trigger] themes[j]).name@
            != name by {
            if j > 0 {
                assert(themes[j] == rest[j - 1]);
            }
        }
        if first_theme_index(themes, name) < themes.len() {
            assert(themes[first_theme_index(themes, name)] == rest[first_theme_index(rest, name)]);
        }
    }
}

/// If nothing before `i` carries the name, the first index carrying it is
/// decided at `i`.
proof fn lemma_first_theme_step(themes: Seq<GbsTheme>, name: Seq<char>, i: int)
    requires
        0 <= i < themes.len(),
        forall|j: int| 0 <= j < i ==> (#[trigger] themes[j]).name@ != name,
    ensures
        themes[i].name@ == name ==> first_theme_index(themes, name) == i,
        themes[i].name@ != name ==> first_theme_index(themes, name) >= i + 1,
    decreases i,
{
    if i == 0 {
        if themes[0].name@ != name {
            lemma_first_theme_index(themes.drop_first(), name);
        }
    } else {
        let rest = themes.drop_first();
        assert(forall|j: int| 0 <= j < i - 1 ==> (#[trigger] rest[j]).name@ != name);
        lemma_first_theme_step(rest, name, i - 1);
        assert(rest[i - 1] == themes[i]);
    }
}

impl Config {
    /// The selected theme: the first known theme carrying the selected name,
    /// or the built-in default when none does.
    #[verifier::loop_isolation(false)]
    pub fn theme(&self) -> (r: GbsTheme)
        ensures
            ({
                let fi = first_theme_index(self.themes@, self.base.theme@);
                &&& fi < self.themes@.len() ==> r == self.themes@[fi]
                &&& fi >= self.themes@.len() ==> is_default_gbs_theme(r)
            }),
    {
        let n = self.themes.len();
        let mut i: usize = 0;
        while i < n
            invariant
                i <= n,
                forall|j: int| 0 <= j < i ==> (#[trigger] self.themes@[j]).name@
                    != self.base.theme@,
            decreases n - i,
        {
            proof {
                lemma_first_theme_step(self.themes@, self.base.theme@, i as int);
            }
            if string_eq(&self.themes[i].name, &self.base.theme) {
                return self.themes[i].clone();
            }
            i = i + 1;
        }
        proof {
            lemma_first_theme_index(self.themes@, self.base.theme@);
        }
        GbsTheme::default()
    }
}

/// Whether two strings hold the same characters.
fn string_eq(a: &String, b: &String) -> (r: bool)
    ensures
        r == (a@ == b@),
{
    a.eq(b)
}

} // verus!
