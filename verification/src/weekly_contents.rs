use vstd::prelude::*;

use crate::civil::CivilTime;
use crate::features::AnnouncementCriteria;
use crate::monthly_contents::{day_in, day_listed};
use crate::strutil::{join_sep, join_strings, replace_seq, replace_token};

verus! {

// Weekday-reset contents: each content lists the weekdays (days from
// Sunday) on which it resets, and the announcement frames what resets
// today and what resets tomorrow (what ends today) separately.

/// One weekly content: its identifier, display name, and reset weekdays.
#[derive(Debug)]
pub struct WeeklyContent {
    pub id: String,
    pub display: String,
    pub reset_days: Vec<u8>,
}

/// The emoji-prefixed display names of the contents that reset on weekday
/// `wday`, among the first `k` contents.
pub open spec fn weekly_matches(contents: Seq<WeeklyContent>, wday: int, k: int) -> Seq<Seq<char>>
    decreases k,
{
    if k <= 0 {
        Seq::empty()
    } else {
        let prev = weekly_matches(contents, wday, k - 1);
        if day_listed(contents[k - 1].reset_days@, wday) {
            prev.push("__EMOJI__ "@ + contents[k - 1].display@)
        } else {
            prev
        }
    }
}

/// The weekday-reset contents feature.
#[derive(Debug)]
pub struct WeeklyContents {
    pub announcement_at_start: String,
    pub announcement_at_end: String,
    pub contents: Vec<WeeklyContent>,
}

impl WeeklyContents {
    /// The text announcing the contents that reset on weekday `wday`,
    /// under the given template: empty where nothing matches.
    pub open spec fn contents_text(self, wday: int, template: Seq<char>) -> Seq<char> {
        let parts = weekly_matches(self.contents@, wday, self.contents@.len() as int);
        let joined = join_sep(parts, "\n"@);
        if joined.len() == 0 {
            joined
        } else {
            replace_seq(template, "__CONTENTS__"@, joined)
        }
    }

    /// The whole announcement at `at`: what ends today (tomorrow's
    /// resets), then what starts today; nothing where both are empty.
    pub open spec fn announce_text(self, at: CivilTime) -> Option<Seq<char>> {
        let e = self.contents_text((at.day_num() + 2) % 7, self.announcement_at_end@);
        let s = self.contents_text((at.day_num() + 1) % 7, self.announcement_at_start@);
        if e.len() == 0 && s.len() == 0 {
            Option::None
        } else if e.len() == 0 {
            Option::Some(s)
        } else if s.len() == 0 {
            Option::Some(e)
        } else {
            Option::Some(e + "\n"@ + s)
        }
    }

    /// The contents that reset on weekday `wday_num` (days from Sunday),
    /// rendered under `template`; empty where nothing matches.
    pub fn contents(&self, wday_num: u8, template: &str) -> (r: String)
        ensures
            r@ == self.contents_text(wday_num as int, template@),
    {
        let mut parts: Vec<String> = Vec::new();
        let mut i: usize = 0;
        while i < self.contents.len()
            invariant
                i <= self.contents@.len(),
                parts@.len() == weekly_matches(self.contents@, wday_num as int, i as int).len(),
                parts@.map_values(|p: String| p@) =~= weekly_matches(
                    self.contents@,
                    wday_num as int,
                    i as int,
                ),
            decreases self.contents@.len() - i,
        {
            let c = &self.contents[i];
            if day_in(&c.reset_days, wday_num) {
                let mut line = "__EMOJI__ ".to_owned();
                line.append(c.display.as_str());
                parts.push(line);
            }
            i = i + 1;
        }
        let joined = join_strings(&parts, "\n");
        if joined.as_str().is_empty() {
            joined
        } else {
            replace_token(template, "__CONTENTS__", joined.as_str())
        }
    }

    /// The contents that reset on the weekday of `at`, under the start
    /// template.
    pub fn contents_to_start(&self, at: &CivilTime) -> (r: String)
        requires
            at.wf(),
        ensures
            r@ == self.contents_text((at.day_num() + 1) % 7, self.announcement_at_start@),
    {
        let w = at.weekday_from_sunday();
        self.contents(w, self.announcement_at_start.as_str())
    }

    /// The contents that reset on the weekday after `at`, under the end
    /// template.
    pub fn contents_to_end(&self, at: &CivilTime) -> (r: String)
        requires
            at.wf(),
            !(at.year == 9999 && at.month == 12 && at.day == 31),
        ensures
            r@ == self.contents_text((at.day_num() + 2) % 7, self.announcement_at_end@),
    {
        let tomorrow = at.next_day();
        let w = tomorrow.weekday_from_sunday();
        self.contents(w, self.announcement_at_end.as_str())
    }

    /// Announce what ends today and what starts today.
    pub fn announce(&self, criteria: &AnnouncementCriteria) -> (r: Option<String>)
        requires
            criteria.at.wf(),
            !(criteria.at.year == 9999 && criteria.at.month == 12 && criteria.at.day == 31),
        ensures
            ((r is Some) <==> (self.announce_text(criteria.at) is Some)),
            (r matches Some(t) ==> self.announce_text(criteria.at) matches Some(v) && t@ == v),
    {
        let e = self.contents_to_end(&criteria.at);
        let s = self.contents_to_start(&criteria.at);
        if e.as_str().is_empty() && s.as_str().is_empty() {
            None
        } else if e.as_str().is_empty() {
            Some(s)
        } else if s.as_str().is_empty() {
            Some(e)
        } else {
            let mut out = e;
            out.append("\n");
            out.append(s.as_str());
            Some(out)
        }
    }
}

} // verus!
