use vstd::prelude::*;

use crate::matching::{regex_is_match, regex_is_valid, regex_match, regex_valid};

verus! {

// Feed announcements: deciding which fetched entries are new since the
// last announced one, which titles are interesting, and how an entry is
// posted.  Fetching and parsing the feed itself is the caller's work.

/// One feed entry, reduced to what an announcement needs.
#[derive(Debug)]
pub struct Entry {
    pub title: String,
    pub authors: Option<String>,
    pub link: String,
}

impl Entry {
    /// The posted text: the title, the authors in brackets where known,
    /// and the link after a blank line.
    pub open spec fn text_of(self) -> Seq<char> {
        match self.authors {
            Option::Some(a) => self.title@ + " ["@ + a@ + "]\n\n"@ + self.link@,
            Option::None => self.title@ + "\n\n"@ + self.link@,
        }
    }

    /// Build the posted text.
    pub fn build_text(&self) -> (r: String)
        ensures
            r@ == self.text_of(),
    {
        let mut out = self.title.clone();
        match &self.authors {
            Some(a) => {
                out.append(" [");
                out.append(a.as_str());
                out.append("]\n\n");
            },
            None => {
                out.append("\n\n");
            },
        }
        out.append(self.link.as_str());
        out
    }
}

/// The index of the first identifier at or after `i` equal to `last`, or
/// the length where none is.
pub open spec fn find_id(ids: Seq<String>, i: int, last: Seq<char>) -> int
    decreases ids.len() - i,
{
    if i < 0 || i >= ids.len() {
        ids.len() as int
    } else if ids[i]@ == last {
        i
    } else {
        find_id(ids, i + 1, last)
    }
}

/// How many of the fetched entries are new: all of them where no last
/// announced identifier is known or it no longer appears, none where it
/// leads the list, and otherwise exactly those before it.
pub fn new_items_count(ids: &Vec<String>, last: Option<&String>) -> (r: usize)
    ensures
        ({
            match last {
                Option::None => r == ids@.len(),
                Option::Some(l) => r == find_id(ids@, 0, l@),
            }
        }),
{
    let l = match last {
        Some(l) => l,
        None => {
            return ids.len();
        },
    };
    let mut i: usize = 0;
    while i < ids.len()
        invariant
            i <= ids@.len(),
            last == Option::Some(l),
            find_id(ids@, 0, l@) == find_id(ids@, i as int, l@),
        decreases ids@.len() - i,
    {
        if ids[i] == *l {
            return i;
        }
        i = i + 1;
    }
    ids.len()
}

/// Whether any of the title patterns matches `title`; an invalid pattern
/// matches nothing.
pub fn title_matches(patterns: &Vec<String>, title: &str) -> (r: bool)
    ensures
        r == (exists|i: int|
            0 <= i < patterns@.len() && regex_valid(#[trigger] patterns@[i]@) && regex_match(
                patterns@[i]@,
                title@,
            )),
{
    let mut i: usize = 0;
    while i < patterns.len()
        invariant
            i <= patterns@.len(),
            forall|j: int|
                0 <= j < i ==> !(regex_valid(#[trigger] patterns@[j]@) && regex_match(
                    patterns@[j]@,
                    title@,
                )),
        decreases patterns@.len() - i,
    {
        if regex_is_valid(patterns[i].as_str()) && regex_is_match(patterns[i].as_str(), title) {
            return true;
        }
        i = i + 1;
    }
    false
}

} // verus!
