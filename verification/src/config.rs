//! The settings that the application keeps between runs.

use vstd::prelude::*;
use vstd::string::StringExecFns;

use crate::text::texts;

verus! {

/// The persistent settings.
#[derive(Clone, Debug, PartialEq, Eq)]
pub struct AppConfig {
    /// Whether port labels carry the port's address.
    pub show_addresses: bool,
    /// Where the manifest of the chosen theme lies.
    pub theme_manifest_path: String,
}

impl Default for AppConfig {
    fn default() -> (config: AppConfig)
        ensures
            !config.show_addresses,
            config.theme_manifest_path@ == Seq::<char>::empty(),
    {
        AppConfig { show_addresses: false, theme_manifest_path: String::new() }
    }
}

impl AppConfig {
    /// The manifest of the theme that ships with the application.
    pub fn default_theme_manifest_path() -> (path: String)
        ensures
            path@ == "themes/memphis/theme.toml"@,
    {
        String::from_str("themes/memphis/theme.toml")
    }

    /// The settings to start with: the stored ones where there are any, else
    /// plain labels and the theme that ships with the application.
    pub fn new(stored: Option<AppConfig>) -> (config: AppConfig)
        ensures
            match stored {
                Some(found) => config == found,
                None => !config.show_addresses && config.theme_manifest_path@
                    == "themes/memphis/theme.toml"@,
            },
    {
        match stored {
            Some(found) => found,
            None => AppConfig {
                show_addresses: false,
                theme_manifest_path: AppConfig::default_theme_manifest_path(),
            },
        }
    }

    /// Switches the addresses in the labels on or off.
    pub fn toggle_addresses(&mut self)
        ensures
            final(self).show_addresses == !old(self).show_addresses,
            final(self).theme_manifest_path == old(self).theme_manifest_path,
    {
        self.show_addresses = !self.show_addresses;
    }
}

/// The place of the first text of the list that equals `wanted`; the length
/// of the list where none does.
pub open spec fn first_place(list: Seq<Seq<char>>, wanted: Seq<char>) -> int
    decreases list.len(),
{
    if list.len() == 0 {
        0
    } else if list.first() == wanted {
        0
    } else {
        1 + first_place(list.drop_first(), wanted)
    }
}

/// The place of the manifest to move on to from `current`: the one after the
/// first place of `current` in the list, the first one after the last, and
/// the first one where `current` is not in the list.
pub open spec fn next_manifest(manifests: Seq<Seq<char>>, current: Seq<char>) -> int {
    if first_place(manifests, current) < manifests.len() {
        (first_place(manifests, current) + 1) % (manifests.len() as int)
    } else {
        0
    }
}

/// The first place of a text is the one before which it does not stand and
/// at which it stands, or at which the list ends.
pub proof fn lemma_first_place(list: Seq<Seq<char>>, wanted: Seq<char>, place: int)
    requires
        0 <= place <= list.len(),
        forall|j: int| 0 <= j < place ==> list[j] != wanted,
        place < list.len() ==> list[place] == wanted,
    ensures
        first_place(list, wanted) == place,
    decreases place,
{
    if place > 0 {
        let rest = list.drop_first();
        assert(list.first() == list[0]);
        assert forall|j: int| 0 <= j < place - 1 implies rest[j] != wanted by {
            assert(rest[j] == list[j + 1]);
        }
        lemma_first_place(rest, wanted, place - 1);
    } else if list.len() > 0 {
        assert(list.first() == list[0]);
    }
}

/// The place of the manifest to move on to from `current`; `None` where
/// there is no manifest at all.
pub fn next_manifest_index(manifests: &Vec<String>, current: &String) -> (next: Option<usize>)
    ensures
        next == (if manifests.len() == 0 {
            None::<usize>
        } else {
            Some(next_manifest(texts(manifests@), current@) as usize)
        }),
        next matches Some(place) ==> place < manifests.len(),
{
    if manifests.len() == 0 {
        return None;
    }
    let mut i: usize = 0;
    while i < manifests.len()
        invariant
            i <= manifests.len(),
            manifests.len() > 0,
            forall|j: int| 0 <= j < i ==> texts(manifests@)[j] != current@,
        decreases manifests.len() - i,
    {
        if manifests[i] == *current {
            proof {
                assert(texts(manifests@)[i as int] == current@);
                lemma_first_place(texts(manifests@), current@, i as int);
                let count = manifests.len() as int;
                assert(texts(manifests@).len() == count);
                if i + 1 == count {
                    assert((i + 1) % count == 0) by (nonlinear_arith)
                        requires
                            i + 1 == count,
                            count > 0,
                    ;
                } else {
                    assert((i + 1) % count == i + 1) by (nonlinear_arith)
                        requires
                            0 <= i + 1 < count,
                    ;
                }
            }
            return Some(if i + 1 == manifests.len() {
                0
            } else {
                i + 1
            });
        }
        assert(texts(manifests@)[i as int] == manifests[i as int]@);
        i += 1;
    }
    proof {
        lemma_first_place(texts(manifests@), current@, i as int);
    }
    Some(0)
}

impl AppConfig {
    /// Moves on to the theme that follows the current one in `manifests`;
    /// tells whether there was a theme to move on to.
    pub fn select_next_theme(&mut self, manifests: &Vec<String>) -> (selected: bool)
        ensures
            selected == (manifests.len() > 0),
            final(self).show_addresses == old(self).show_addresses,
            selected ==> final(self).theme_manifest_path@ == texts(manifests@)[next_manifest(
                texts(manifests@),
                old(self).theme_manifest_path@,
            )],
            !selected ==> final(self).theme_manifest_path == old(self).theme_manifest_path,
    {
        match next_manifest_index(manifests, &self.theme_manifest_path) {
            Some(place) => {
                self.theme_manifest_path = manifests[place].clone();
                true
            },
            None => false,
        }
    }
}

} // verus!
