use vstd::prelude::*;

use crate::civil::CivilTime;
use crate::features::AnnouncementCriteria;
use crate::monthly_contents::{day_in, day_listed};
use crate::strutil::{join_sep, join_strings, replace_seq, replace_token};

verus! {

// Periodic day-of-month contents, optionally restricted to specific
// months: the announcement frames today's contents and tomorrow's
// contents separately.

/// One periodic content: its identifier, display name, allowed months
/// (all months where absent), and days of the month.
#[derive(Debug)]
pub struct PeriodicContent {
    pub id: String,
    pub display: String,
    pub months: Option<Vec<u8>>,
    pub days: Vec<u8>,
}

/// Whether the content applies on `(month, day)`.
pub open spec fn applies_on(c: PeriodicContent, month: int, day: int) -> bool {
    &&& (match c.months {
        Option::None => true,
        Option::Some(ms) => day_listed(ms@, month),
    })
    &&& day_listed(c.days@, day)
}

/// The display names of the contents that apply on `(month, day)`,
/// among the first `k` contents.
pub open spec fn periodic_matches(contents: Seq<PeriodicContent>, month: int, day: int, k: int) -> Seq<
    Seq<char>,
>
    decreases k,
{
    if k <= 0 {
        Seq::empty()
    } else {
        let prev = periodic_matches(contents, month, day, k - 1);
        if applies_on(contents[k - 1], month, day) {
            prev.push(contents[k - 1].display@)
        } else {
            prev
        }
    }
}

/// The periodic day-of-month contents feature.
#[derive(Debug)]
pub struct PeriodicContents {
    pub announcement_at_day: String,
    pub announcement_at_day_before: String,
    pub contents: Vec<PeriodicContent>,
}

impl PeriodicContents {
    /// The text announcing the contents that apply on `(month, day)`,
    /// under the given template: empty where nothing matches.
    pub open spec fn contents_text(self, month: int, day: int, template: Seq<char>) -> Seq<char> {
        let parts = periodic_matches(self.contents@, month, day, self.contents@.len() as int);
        let joined = join_sep(parts, "で"@);
        if joined.len() == 0 {
            joined
        } else {
            replace_seq(template, "__CONTENTS__"@, joined)
        }
    }

    /// The whole announcement at `at`: today's contents, then
    /// tomorrow's; nothing where both are empty.
    pub open spec fn announce_text(self, at: CivilTime) -> Option<Seq<char>> {
        let d = self.contents_text(at.month as int, at.day as int, self.announcement_at_day@);
        let b = self.contents_text(
            at.next_civil().month as int,
            at.next_civil().day as int,
            self.announcement_at_day_before@,
        );
        if d.len() == 0 && b.len() == 0 {
            Option::None
        } else if d.len() == 0 {
            Option::Some(b)
        } else if b.len() == 0 {
            Option::Some(d)
        } else {
            Option::Some(d + "\n"@ + b)
        }
    }

    /// The contents that apply on `(month, day)`, rendered under
    /// `template`; empty where nothing matches.
    pub fn contents(&self, month: u8, day: u8, template: &str) -> (r: String)
        ensures
            r@ == self.contents_text(month as int, day as int, template@),
    {
        let mut parts: Vec<String> = Vec::new();
        let mut i: usize = 0;
        while i < self.contents.len()
            invariant
                i <= self.contents@.len(),
                parts@.len() == periodic_matches(
                    self.contents@,
                    month as int,
                    day as int,
                    i as int,
                ).len(),
                parts@.map_values(|p: String| p@) =~= periodic_matches(
                    self.contents@,
                    month as int,
                    day as int,
                    i as int,
                ),
            decreases self.contents@.len() - i,
        {
            let c = &self.contents[i];
            let month_ok = match &c.months {
                Option::None => true,
                Option::Some(ms) => day_in(ms, month),
            };
            if month_ok && day_in(&c.days, day) {
                parts.push(c.display.clone());
            }
            i = i + 1;
        }
        let joined = join_strings(&parts, "で");
        if joined.as_str().is_empty() {
            joined
        } else {
            replace_token(template, "__CONTENTS__", joined.as_str())
        }
    }

    /// Announce today's and tomorrow's periodic contents.
    pub fn announce(&self, criteria: &AnnouncementCriteria) -> (r: Option<String>)
        requires
            criteria.at.wf(),
            !(criteria.at.year == 9999 && criteria.at.month == 12 && criteria.at.day == 31),
        ensures
            ((r is Some) <==> (self.announce_text(criteria.at) is Some)),
            (r matches Some(t) ==> self.announce_text(criteria.at) matches Some(v) && t@ == v),
    {
        let tomorrow = criteria.at.next_day();
        let d = self.contents(criteria.at.month, criteria.at.day, self.announcement_at_day.as_str());
        let b = self.contents(tomorrow.month, tomorrow.day, self.announcement_at_day_before.as_str());
        if d.as_str().is_empty() && b.as_str().is_empty() {
            None
        } else if d.as_str().is_empty() {
            Some(b)
        } else if b.as_str().is_empty() {
            Some(d)
        } else {
            let mut out = d;
            out.append("\n");
            out.append(b.as_str());
            Some(out)
        }
    }
}

} // verus!
