use vstd::prelude::*;

use crate::features::ResponseCriteria;
use crate::matching::{regex_is_match, regex_is_valid, regex_match, regex_valid};

verus! {

// Keyword banter: the first keyword whose pattern matches the text picks
// one of its canned responses by the query instant's second.

/// One keyword: a pattern and its canned responses.
#[derive(Debug)]
pub struct Keyword {
    pub pattern: String,
    pub responses: Vec<String>,
}

/// Whether keyword `k` matches `text`: a valid pattern that the text
/// matches.
pub open spec fn keyword_matches(k: Keyword, text: Seq<char>) -> bool {
    regex_valid(k.pattern@) && regex_match(k.pattern@, text)
}

/// The index of the first keyword at or after `i` that matches `text`,
/// or minus one.
pub open spec fn first_keyword(ks: Seq<Keyword>, i: int, text: Seq<char>) -> int
    decreases ks.len() - i,
{
    if i < 0 || i >= ks.len() {
        -1
    } else if keyword_matches(ks[i], text) {
        i
    } else {
        first_keyword(ks, i + 1, text)
    }
}

/// The keyword banter feature.
#[derive(Debug)]
pub struct Keema {
    pub keywords: Vec<Keyword>,
}

impl Keema {
    /// Well-formedness: every keyword has at least one response.
    pub open spec fn wf(self) -> bool {
        forall|i: int|
            0 <= i < self.keywords@.len() ==> 1 <= (#[trigger] self.keywords@[i]).responses@.len()
    }

    /// Respond with a canned response of the first matching keyword,
    /// picked by the second of the query instant; nothing where no
    /// keyword matches.
    pub fn respond(&self, criteria: &ResponseCriteria) -> (r: Option<String>)
        requires
            self.wf(),
            criteria.at.wf(),
        ensures
            ({
                let f = first_keyword(self.keywords@, 0, criteria.text@);
                match r {
                    Some(t) => f >= 0 && t@ == self.keywords@[f].responses@[criteria.at.second
                        as int % self.keywords@[f].responses@.len() as int]@,
                    None => f < 0,
                }
            }),
    {
        let mut i: usize = 0;
        while i < self.keywords.len()
            invariant
                i <= self.keywords@.len(),
                self.wf(),
                first_keyword(self.keywords@, 0, criteria.text@) == first_keyword(
                    self.keywords@,
                    i as int,
                    criteria.text@,
                ),
            decreases self.keywords@.len() - i,
        {
            let k = &self.keywords[i];
            if regex_is_valid(k.pattern.as_str()) && regex_is_match(
                k.pattern.as_str(),
                criteria.text.as_str(),
            ) {
                let idx = (criteria.at.second as usize) % k.responses.len();
                return Some(k.responses[idx].clone());
            }
            i = i + 1;
        }
        None
    }
}

} // verus!
