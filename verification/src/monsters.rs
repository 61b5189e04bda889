use vstd::prelude::*;

use crate::matching::{regex_is_match, regex_is_valid, regex_match, regex_valid};
use crate::resistances::{display_spec, Resistance, Resistances};
use crate::strutil::{join_strings, replace_chars, replace_seq, string_to_chars, chars_to_string};

verus! {

// The shared content catalog: a read-only registry mapping stable
// monster identifiers to display metadata.  The rotation engine stores
// identifiers and looks display data up here; the catalog is built once
// at startup and passed explicitly to everything that needs it.

/// One monster of the catalog.
#[derive(Debug)]
pub struct Monster {
    pub id: String,
    pub category: String,
    pub display: String,
    pub official_name: String,
    pub nickname_regex: String,
    pub resistances: Resistances,
}

impl Monster {
    /// Whether `text` matches this monster's nickname pattern.
    pub open spec fn spec_matches(self, text: Seq<char>) -> bool {
        regex_valid(self.nickname_regex@) && regex_match(self.nickname_regex@, text)
    }

    /// The identifier of this monster.
    pub fn id(&self) -> (r: &String)
        ensures
            r == &self.id,
    {
        &self.id
    }

    /// The category of this monster.
    pub fn category(&self) -> (r: &String)
        ensures
            r == &self.category,
    {
        &self.category
    }

    /// The common name displayed in a status.
    pub fn display(&self) -> (r: &String)
        ensures
            r == &self.display,
    {
        &self.display
    }

    /// The official name of this monster.
    pub fn official_name(&self) -> (r: &String)
        ensures
            r == &self.official_name,
    {
        &self.official_name
    }

    /// The nickname pattern that recognises this monster.
    pub fn nickname_regex(&self) -> (r: &String)
        ensures
            r == &self.nickname_regex,
    {
        &self.nickname_regex
    }

    /// The resistances needed against this monster.
    pub fn resistances(&self) -> (r: &Resistances)
        ensures
            r == &self.resistances,
    {
        &self.resistances
    }

    /// Whether `text` matches this monster's nickname pattern; an
    /// invalid pattern matches nothing.
    pub fn is_match(&self, text: &str) -> (r: bool)
        ensures
            r == self.spec_matches(text@),
    {
        if regex_is_valid(self.nickname_regex.as_str()) {
            regex_is_match(self.nickname_regex.as_str(), text)
        } else {
            false
        }
    }
}

/// Whether the list holds a string equal to `x`.
pub open spec fn holds_string(s: Seq<String>, x: Seq<char>) -> bool {
    exists|i: int| 0 <= i < s.len() && s[i]@ == x
}

/// The index of the first area-name entry at or after `i` whose category
/// is `cat`, or minus one.
pub open spec fn find_area_from(s: Seq<(String, Vec<String>)>, i: int, cat: Seq<char>) -> int
    decreases s.len() - i,
{
    if i < 0 || i >= s.len() {
        -1
    } else if s[i].0@ == cat {
        i
    } else {
        find_area_from(s, i + 1, cat)
    }
}

/// The index of the first monster at or after `i` whose identifier is
/// `id`, or minus one.
pub open spec fn find_from(s: Seq<Monster>, i: int, id: Seq<char>) -> int
    decreases s.len() - i,
{
    if i < 0 || i >= s.len() {
        -1
    } else if s[i].id@ == id {
        i
    } else {
        find_from(s, i + 1, id)
    }
}

/// The read-only monster catalog.
#[derive(Debug)]
pub struct Monsters {
    pub information: String,
    pub information_without_resistance: String,
    pub area_names: Vec<(String, Vec<String>)>,
    pub ignore_categories: Vec<String>,
    pub inner: Vec<Monster>,
}

impl Monsters {
    /// The reaction line of monster `i` to a matched text.
    pub open spec fn line_of(self, i: int, res_text: Seq<char>) -> Seq<char> {
        if res_text.len() == 0 {
            replace_seq(self.information_without_resistance@, "__NAME__"@, self.inner@[i].official_name@)
        } else {
            replace_seq(
                replace_seq(self.information@, "__NAME__"@, self.inner@[i].official_name@),
                "__RESISTANCES__"@,
                res_text,
            )
        }
    }

    /// Whether monster `i` reacts to `text`: not of an ignored category,
    /// and the text matches its nickname pattern.
    pub open spec fn reacts(self, i: int, text: Seq<char>) -> bool {
        &&& !holds_string(self.ignore_categories@, self.inner@[i].category@)
        &&& self.inner@[i].spec_matches(text)
    }

    /// The index of the first entry with identifier `id`, or minus one.
    pub open spec fn first_idx(self, id: Seq<char>) -> int {
        find_from(self.inner@, 0, id)
    }

    /// Look a monster up by identifier: the first entry with that
    /// identifier, or nothing.
    pub fn get(&self, id: &String) -> (r: Option<&Monster>)
        ensures
            (r is Some) <==> self.first_idx(id@) >= 0,
            (r matches Some(m) ==> 0 <= self.first_idx(id@) < self.inner@.len() && m
                == &self.inner@[self.first_idx(id@)]),
    {
        let mut i: usize = 0;
        while i < self.inner.len()
            invariant
                i <= self.inner@.len(),
                self.first_idx(id@) == find_from(self.inner@, i as int, id@),
            decreases self.inner@.len() - i,
        {
            if self.inner[i].id == *id {
                return Some(&self.inner[i]);
            }
            i = i + 1;
        }
        None
    }

    /// Check that every identifier resolves in the catalog: the first
    /// unknown identifier is surfaced as an error.
    pub fn check_ids(&self, ids: &Vec<String>) -> (r: Result<(), crate::error::Error>)
        ensures
            (r is Ok) <==> (forall|i: int|
                0 <= i < ids@.len() ==> 0 <= self.first_idx((#[trigger] ids@[i])@)),
            (r matches Err(e) ==> e matches crate::error::Error::UnknownMonsterId(bad)
                && exists|i: int|
                0 <= i < ids@.len() && bad@ == (#[trigger] ids@[i])@ && self.first_idx(ids@[i]@)
                    < 0),
    {
        let mut i: usize = 0;
        while i < ids.len()
            invariant
                i <= ids@.len(),
                forall|j: int| 0 <= j < i ==> 0 <= self.first_idx((#[trigger] ids@[j])@),
            decreases ids@.len() - i,
        {
            if self.get(&ids[i]).is_none() {
                return Err(crate::error::Error::UnknownMonsterId(ids[i].clone()));
            }
            i = i + 1;
        }
        Ok(())
    }

    /// The index of the first area-name entry of a category, or minus
    /// one.
    pub open spec fn area_idx(self, cat: Seq<char>) -> int {
        find_area_from(self.area_names@, 0, cat)
    }

    /// The area names configured for a category: the first entry with
    /// that category, or nothing.
    pub fn area_names_of(&self, category: &String) -> (r: Option<&Vec<String>>)
        ensures
            (r is Some) <==> 0 <= self.area_idx(category@) < self.area_names@.len(),
            (r matches Some(v) ==> 0 <= self.area_idx(category@) < self.area_names@.len() && v
                == &self.area_names@[self.area_idx(category@)].1),
    {
        let mut i: usize = 0;
        while i < self.area_names.len()
            invariant
                i <= self.area_names@.len(),
                self.area_idx(category@) == find_area_from(self.area_names@, i as int, category@),
            decreases self.area_names@.len() - i,
        {
            if self.area_names[i].0 == *category {
                return Some(&self.area_names[i].1);
            }
            i = i + 1;
        }
        None
    }

    /// The rendered resistances of monster `i`: its single area's joined
    /// names, or its areas under the category's configured area names;
    /// empty where several areas have no fitting name list.
    pub open spec fn res_text_of(self, i: int) -> Seq<char> {
        let m = self.inner@[i];
        let areas = m.resistances.areas();
        if areas.len() == 1 {
            display_spec(areas, Seq::empty())
        } else {
            let j = self.area_idx(m.category@);
            if 0 <= j < self.area_names@.len() && self.area_names@[j].1@.len() >= areas.len() {
                display_spec(areas, self.area_names@[j].1@.map_values(|n: String| n@))
            } else {
                Seq::empty()
            }
        }
    }

    /// The reaction lines of the first `k` monsters, one per reacting
    /// monster.
    pub open spec fn reaction_lines(self, text: Seq<char>, k: int) -> Seq<Seq<char>>
        decreases k,
    {
        if k <= 0 {
            Seq::empty()
        } else {
            let prev = self.reaction_lines(text, k - 1);
            if self.reacts(k - 1, text) {
                prev.push(self.line_of(k - 1, self.res_text_of(k - 1)))
            } else {
                prev
            }
        }
    }

    /// Whether a category is ignored for reactions.
    fn is_ignored(&self, category: &String) -> (r: bool)
        ensures
            r == holds_string(self.ignore_categories@, category@),
    {
        let mut i: usize = 0;
        while i < self.ignore_categories.len()
            invariant
                i <= self.ignore_categories@.len(),
                forall|j: int| 0 <= j < i ==> self.ignore_categories@[j]@ != category@,
            decreases self.ignore_categories@.len() - i,
    {
            if self.ignore_categories[i] == *category {
                return true;
            }
            i = i + 1;
        }
        false
    }

    /// React to a text: one line for every monster whose pattern the
    /// text matches and whose category is not ignored, joined by line
    /// breaks; nothing where no monster reacts.
    pub fn reaction(&self, text: &str) -> (r: Option<String>)
        requires
            forall|i: int|
                0 <= i < self.inner@.len() ==> 1 <= (#[trigger] self.inner@[i]).resistances.areas().len(),
            forall|i: int|
                0 <= i < self.inner@.len() ==> ((#[trigger] self.inner@[i]).resistances.areas().len() > 1
                    ==> exists|j: int|
                    0 <= j < self.area_names@.len() && #[trigger] self.area_names@[j].0@
                        == self.inner@[i].category@ && self.area_names@[j].1@.len()
                        >= self.inner@[i].resistances.areas().len()),
        ensures
            (r is Some) <==> (exists|i: int|
                0 <= i < self.inner@.len() && self.reacts(i, text@)),
            (r matches Some(t) ==> t@ == crate::strutil::join_sep(
                self.reaction_lines(text@, self.inner@.len() as int),
                "\n"@,
            )),
    {
        let mut lines: Vec<String> = Vec::new();
        let mut i: usize = 0;
        while i < self.inner.len()
            invariant
                i <= self.inner@.len(),
                lines@.len() == self.reaction_lines(text@, i as int).len(),
                lines@.map_values(|p: String| p@) =~= self.reaction_lines(text@, i as int),
                lines@.len() > 0 <==> (exists|k: int| 0 <= k < i && self.reacts(k, text@)),
                forall|k: int|
                    0 <= k < self.inner@.len() ==> 1 <= (#[trigger] self.inner@[k]).resistances.areas().len(),
                forall|k: int|
                    0 <= k < self.inner@.len() ==> ((#[trigger] self.inner@[k]).resistances.areas().len()
                        > 1 ==> exists|j: int|
                        0 <= j < self.area_names@.len() && #[trigger] self.area_names@[j].0@
                            == self.inner@[k].category@ && self.area_names@[j].1@.len()
                            >= self.inner@[k].resistances.areas().len()),
            decreases self.inner@.len() - i,
        {
            let m = &self.inner[i];
            let ignored = self.is_ignored(&m.category);
            let matched = m.is_match(text);
            if !ignored && matched {
                let names = self.area_names_of(&m.category);
                let res_text = if m.resistances.area_count() > 1 {
                    match names {
                        Some(ns) => {
                            if ns.len() >= m.resistances.area_count() {
                                m.resistances.display(Some(ns))
                            } else {
                                String::new()
                            }
                        },
                        None => String::new(),
                    }
                } else {
                    m.resistances.display(None)
                };
                proof {
                    assert(res_text@ == self.res_text_of(i as int));
                }
                let line = self.build_line(i, &res_text);
                lines.push(line);
                proof {
                    assert(self.reacts(i as int, text@));
                }
            } else {
                proof {
                    assert(!self.reacts(i as int, text@));
                }
            }
            i = i + 1;
        }
        if lines.len() == 0 {
            None
        } else {
            Some(join_strings(&lines, "\n"))
        }
    }

    fn build_line(&self, i: usize, res_text: &String) -> (r: String)
        requires
            i < self.inner@.len(),
        ensures
            r@ == self.line_of(i as int, res_text@),
    {
        let m = &self.inner[i];
        if res_text.as_str().is_empty() {
            let t = string_to_chars(self.information_without_resistance.as_str());
            let pat = string_to_chars("__NAME__");
            let v = string_to_chars(m.official_name.as_str());
            chars_to_string(&replace_chars(&t, &pat, &v))
        } else {
            let t = string_to_chars(self.information.as_str());
            let pat = string_to_chars("__NAME__");
            let v = string_to_chars(m.official_name.as_str());
            let step = replace_chars(&t, &pat, &v);
            let pat2 = string_to_chars("__RESISTANCES__");
            let v2 = string_to_chars(res_text.as_str());
            chars_to_string(&replace_chars(&step, &pat2, &v2))
        }
    }
}

} // verus!
