use vstd::prelude::*;

use crate::civil::CivilTime;
use crate::features::AnnouncementCriteria;
use crate::strutil::{join_sep, join_strings, replace_seq, replace_token};

verus! {

// Month-day triggered contents: each content lists the days of the month
// on which a new period starts, and the announcement frames today's
// starts and tomorrow's starts (today's ends) separately.

/// One monthly content: its identifier, display name, and start days.
#[derive(Debug)]
pub struct MonthlyContent {
    pub id: String,
    pub display: String,
    pub days: Vec<u8>,
}

/// Whether `day` is one of the content's start days.
pub open spec fn day_listed(days: Seq<u8>, day: int) -> bool {
    exists|i: int| 0 <= i < days.len() && days[i] == day
}

/// The display names of the contents whose start days include `day`,
/// among the first `k` contents.
pub open spec fn monthly_matches(contents: Seq<MonthlyContent>, day: int, k: int) -> Seq<
    Seq<char>,
>
    decreases k,
{
    if k <= 0 {
        Seq::empty()
    } else {
        let prev = monthly_matches(contents, day, k - 1);
        if day_listed(contents[k - 1].days@, day) {
            prev.push(contents[k - 1].display@)
        } else {
            prev
        }
    }
}

/// The month-day triggered contents feature.
#[derive(Debug)]
pub struct MonthlyContents {
    pub announcement_at_start: String,
    pub announcement_at_end: String,
    pub contents: Vec<MonthlyContent>,
}

impl MonthlyContents {
    /// The text announcing the contents whose start days include `day`,
    /// under the given template: empty where nothing matches.
    pub open spec fn contents_text(self, day: int, template: Seq<char>) -> Seq<char> {
        let parts = monthly_matches(self.contents@, day, self.contents@.len() as int);
        let joined = join_sep(parts, "、"@);
        if joined.len() == 0 {
            joined
        } else {
            replace_seq(template, "__CONTENTS__"@, joined)
        }
    }

    /// The whole announcement at `at`: what ends today (tomorrow's
    /// starts), then what starts today; nothing where both are empty.
    pub open spec fn announce_text(self, at: CivilTime) -> Option<Seq<char>> {
        let e = self.contents_text(at.next_civil().day as int, self.announcement_at_end@);
        let s = self.contents_text(at.day as int, self.announcement_at_start@);
        if e.len() == 0 && s.len() == 0 {
            Option::None
        } else if e.len() == 0 {
            Option::Some(s)
        } else if s.len() == 0 {
            Option::Some(e)
        } else {
            Option::Some(e + "\n"@ + s)
        }
    }

    /// The contents whose start days include the day of `at`, rendered
    /// under `template`; empty where nothing matches.
    pub fn contents(&self, day: u8, template: &str) -> (r: String)
        ensures
            r@ == self.contents_text(day as int, template@),
    {
        let mut parts: Vec<String> = Vec::new();
        let mut i: usize = 0;
        while i < self.contents.len()
            invariant
                i <= self.contents@.len(),
                parts@.len() == monthly_matches(self.contents@, day as int, i as int).len(),
                parts@.map_values(|p: String| p@) =~= monthly_matches(
                    self.contents@,
                    day as int,
                    i as int,
                ),
            decreases self.contents@.len() - i,
        {
            if day_in(&self.contents[i].days, day) {
                parts.push(self.contents[i].display.clone());
            }
            i = i + 1;
        }
        let joined = join_strings(&parts, "、");
        if joined.as_str().is_empty() {
            joined
        } else {
            replace_token(template, "__CONTENTS__", joined.as_str())
        }
    }

    /// Announce what ends today and what starts today.
    pub fn announce(&self, criteria: &AnnouncementCriteria) -> (r: Option<String>)
        requires
            criteria.at.wf(),
            !(criteria.at.year == 9999 && criteria.at.month == 12 && criteria.at.day == 31),
        ensures
            ((r is Some) <==> (self.announce_text(criteria.at) is Some)),
            (r matches Some(t) ==> self.announce_text(criteria.at) matches Some(v) && t@ == v),
    {
        let tomorrow = criteria.at.next_day();
        let e = self.contents(tomorrow.day, self.announcement_at_end.as_str());
        let s = self.contents(criteria.at.day, self.announcement_at_start.as_str());
        if e.as_str().is_empty() && s.as_str().is_empty() {
            None
        } else if e.as_str().is_empty() {
            Some(s)
        } else if s.as_str().is_empty() {
            Some(e)
        } else {
            let mut out = e;
            out.append("\n");
            out.append(s.as_str());
            Some(out)
        }
    }
}

/// Whether `day` is among `days`.
pub fn day_in(days: &Vec<u8>, day: u8) -> (r: bool)
    ensures
        r == day_listed(days@, day as int),
{
    let mut i: usize = 0;
    while i < days.len()
        invariant
            i <= days@.len(),
            forall|j: int| 0 <= j < i ==> days@[j] != day,
        decreases days@.len() - i,
    {
        if days[i] == day {
            return true;
        }
        i = i + 1;
    }
    false
}

} // verus!
