use vstd::prelude::*;

use crate::civil::{days_in_month, days_in_month_x, CivilTime};
use crate::error::Error;
use crate::features::{AnnouncementCriteria, ResponseCriteria};
use crate::matching::{regex_is_match, regex_is_valid, regex_match, regex_valid};
use crate::monsters::Monsters;
use crate::num::floored_mod;
use crate::strutil::{i64_to_string, join_sep, replace_seq, replace_token};

verus! {

// The dark-vault term windows: the vault opens on fixed days of every
// month at a fixed hour, stays open for a fixed span of hours, and the
// featured monster advances once per opening.  The reference instant is
// expected to be the first opening.

/// One featured monster: its entry identifier and its catalog
/// identifier.
#[derive(Debug)]
pub struct KonmeikoMonster {
    pub id: String,
    pub monster_id: String,
}

impl KonmeikoMonster {
    /// The entry identifier.
    pub fn id(&self) -> (r: &String)
        ensures
            r == &self.id,
    {
        &self.id
    }

    /// The catalog identifier.
    pub fn monster(&self) -> (r: &String)
        ensures
            r == &self.monster_id,
    {
        &self.monster_id
    }

    /// An owned copy of this entry.
    pub fn duplicate(&self) -> (r: KonmeikoMonster)
        ensures
            r == *self,
    {
        KonmeikoMonster { id: self.id.clone(), monster_id: self.monster_id.clone() }
    }
}

/// Where a query instant stands against the term windows of its month.
#[derive(Debug, Clone, Copy, PartialEq, Eq, Structural)]
pub enum EventStatus {
    /// The query day is an opening day.
    StartOfTerm { start: CivilTime, end: CivilTime },
    /// The query instant lies strictly inside an open term.
    OnTerm { start: CivilTime, end: CivilTime },
    /// No term of this month covers the instant.
    OutOfTerm,
}

/// The dark-vault feature.
#[derive(Debug)]
pub struct Konmeiko {
    pub reference: CivilTime,
    pub days: Vec<u8>,
    pub term_in_hours: u32,
    pub start_hour: u8,
    pub monsters: Vec<KonmeikoMonster>,
    pub announcement: String,
    pub announcement_at_start: String,
    pub information: String,
    pub out_of_term: String,
    pub nickname_regex: String,
}

/// How many of the opening days have been reached by day `day`.
pub open spec fn count_le(days: Seq<u8>, day: int) -> int
    decreases days.len(),
{
    if days.len() == 0 {
        0
    } else {
        count_le(days.drop_last(), day) + if days.last() <= day {
            1int
        } else {
            0int
        }
    }
}

impl Konmeiko {
    /// Well-formedness: real opening days, a positive bounded span, and
    /// at least one monster.
    pub open spec fn wf(self) -> bool {
        &&& self.reference.wf()
        &&& 1 <= self.days@.len() <= 31
        &&& forall|i: int| 0 <= i < self.days@.len() ==> 1 <= #[trigger] self.days@[i] <= 31
        &&& 1 <= self.term_in_hours <= 8784
        &&& self.start_hour <= 23
        &&& 1 <= self.monsters@.len() <= 10000
    }

    /// Every featured identifier resolves in the catalog, to an entry
    /// with a single resistance area.
    pub open spec fn catalog_ok(self, catalog: Monsters) -> bool {
        forall|i: int|
            0 <= i < self.monsters@.len() ==> {
                let j = catalog.first_idx((#[trigger] self.monsters@[i]).monster_id@);
                &&& 0 <= j < catalog.inner@.len()
                &&& catalog.inner@[j].resistances.areas().len() == 1
            }
    }

    /// Build the feature, failing fast on an ill-formed configuration.
    pub fn new(
        reference: CivilTime,
        days: Vec<u8>,
        term_in_hours: u32,
        start_hour: u8,
        monsters: Vec<KonmeikoMonster>,
        announcement: String,
        announcement_at_start: String,
        information: String,
        out_of_term: String,
        nickname_regex: String,
    ) -> (r: Result<Konmeiko, Error>)
        ensures
            (r matches Ok(k) ==> k.wf() && k.reference == reference && k.days@ == days@
                && k.term_in_hours == term_in_hours && k.start_hour == start_hour && k.monsters@
                == monsters@ && k.announcement == announcement && k.announcement_at_start
                == announcement_at_start && k.information == information && k.out_of_term
                == out_of_term && k.nickname_regex == nickname_regex),
            (r is Err) <==> !(reference.wf() && 1 <= days@.len() <= 31 && (forall|i: int|
                0 <= i < days@.len() ==> 1 <= #[trigger] days@[i] <= 31) && 1 <= term_in_hours
                <= 8784 && start_hour <= 23 && 1 <= monsters@.len() <= 10000),
    {
        let k = Konmeiko {
            reference,
            days,
            term_in_hours,
            start_hour,
            monsters,
            announcement,
            announcement_at_start,
            information,
            out_of_term,
            nickname_regex,
        };
        if !k.reference.check_wf() || k.days.len() < 1 || k.days.len() > 31 || k.term_in_hours < 1
            || k.term_in_hours > 8784 || k.start_hour > 23 || k.monsters.len() < 1
            || k.monsters.len() > 10000 {
            return Err(Error::InvalidScheduleConfig);
        }
        let mut i: usize = 0;
        while i < k.days.len()
            invariant
                i <= k.days@.len(),
                k.days@ == days@,
                k.reference == reference,
                k.term_in_hours == term_in_hours,
                k.start_hour == start_hour,
                k.monsters@ == monsters@,
                k.announcement == announcement,
                k.announcement_at_start == announcement_at_start,
                k.information == information,
                k.out_of_term == out_of_term,
                k.nickname_regex == nickname_regex,
                reference.wf(),
                1 <= days@.len() <= 31,
                1 <= term_in_hours <= 8784,
                start_hour <= 23,
                1 <= monsters@.len() <= 10000,
                forall|j: int| 0 <= j < i ==> 1 <= #[trigger] k.days@[j] <= 31,
            decreases k.days@.len() - i,
        {
            if k.days[i] < 1 || k.days[i] > 31 {
                proof {
                    assert(!(1 <= k.days@[i as int] <= 31));
                }
                return Err(Error::InvalidScheduleConfig);
            }
            i = i + 1;
        }
        Ok(k)
    }

    /// The opening instant of day index `i` in the month of `at`.
    pub open spec fn start_of(self, at: CivilTime, i: int) -> CivilTime {
        CivilTime {
            year: at.year,
            month: at.month,
            day: self.days@[i],
            hour: self.start_hour,
            minute: 0,
            second: 0,
        }
    }

    /// The term status of `at`, scanning the opening days from index `i`:
    /// an opening day whose number the month does not reach is an
    /// ambiguity error, an opening day equal to the query day starts a
    /// term, an instant strictly inside a window is on the term, and
    /// anything else falls through to the next opening day.
    pub open spec fn term_status(self, at: CivilTime, i: int) -> Result<EventStatus, Error>
        decreases self.days@.len() - i,
    {
        if i < 0 || i >= self.days@.len() {
            Ok(EventStatus::OutOfTerm)
        } else if self.days@[i] > days_in_month(at.year as int, at.month as int) {
            Err(Error::AmbiguousLocalTime)
        } else {
            let start = self.start_of(at, i);
            let end = start.plus_hours_civil(self.term_in_hours as int);
            if at.day == self.days@[i] {
                Ok(EventStatus::StartOfTerm { start, end })
            } else if start.total_secs() < at.total_secs() && at.total_secs() < end.total_secs() {
                Ok(EventStatus::OnTerm { start, end })
            } else {
                self.term_status(at, i + 1)
            }
        }
    }

    /// Resolve the term status of `at` against this month's openings.
    pub fn event_status(&self, at: &CivilTime) -> (r: Result<EventStatus, Error>)
        requires
            self.wf(),
            at.wf(),
            at.year <= 9996,
        ensures
            r == self.term_status(*at, 0),
            (r matches Ok(s) ==> match s {
                EventStatus::StartOfTerm { start, end } => start.wf() && end.wf(),
                EventStatus::OnTerm { start, end } => start.wf() && end.wf(),
                EventStatus::OutOfTerm => true,
            }),
    {
        let mut i: usize = 0;
        while i < self.days.len()
            invariant
                i <= self.days@.len(),
                self.wf(),
                at.wf(),
                at.year <= 9996,
                self.term_status(*at, 0) == self.term_status(*at, i as int),
            decreases self.days@.len() - i,
        {
            let d = self.days[i];
            if d > days_in_month_x(at.year, at.month) {
                return Err(Error::AmbiguousLocalTime);
            }
            let start = CivilTime {
                year: at.year,
                month: at.month,
                day: d,
                hour: self.start_hour,
                minute: 0,
                second: 0,
            };
            let end = start.plus_hours(self.term_in_hours);
            if at.day == d {
                return Ok(EventStatus::StartOfTerm { start, end });
            }
            if start.total_seconds() < at.total_seconds() && at.total_seconds()
                < end.total_seconds() {
                return Ok(EventStatus::OnTerm { start, end });
            }
            i = i + 1;
        }
        Ok(EventStatus::OutOfTerm)
    }

    /// The count of openings from the reference to `at`: whole months
    /// crossed times the openings per month, plus the openings already
    /// reached this month, counting the reference opening as zero.
    pub open spec fn opening_count(self, at: CivilTime) -> int {
        ((at.year - self.reference.year) * 12 + at.month - self.reference.month)
            * self.days@.len() + count_le(self.days@, at.day as int) - 1
    }

    /// The index of the monster featured at `at`.
    pub open spec fn monster_index(self, at: CivilTime) -> int {
        self.opening_count(at) % self.monsters@.len() as int
    }

    /// The monster featured at `at`.
    pub fn current_monster(&self, at: &CivilTime) -> (r: KonmeikoMonster)
        requires
            self.wf(),
            at.wf(),
        ensures
            r == self.monsters@[self.monster_index(*at)],
    {
        let months: i64 = (at.year as i64 - self.reference.year as i64) * 12 + at.month as i64
            - self.reference.month as i64;
        let mut cnt: i64 = 0;
        let mut i: usize = 0;
        while i < self.days.len()
            invariant
                i <= self.days@.len() <= 31,
                self.wf(),
                at.wf(),
                -130000 <= months <= 130000,
                months == (at.year - self.reference.year) * 12 + at.month - self.reference.month,
                cnt == count_le(self.days@.take(i as int), at.day as int),
                0 <= cnt <= i,
            decreases self.days@.len() - i,
        {
            proof {
                assert(self.days@.take(i as int + 1).drop_last() =~= self.days@.take(i as int));
            }
            if self.days[i] <= at.day {
                cnt = cnt + 1;
            }
            i = i + 1;
        }
        proof {
            assert(self.days@.take(self.days@.len() as int) =~= self.days@);
        }
        let n64: i64 = self.days.len() as i64;
        proof {
            assert(-130000 * 31 <= months as int * n64 as int && months as int * n64 as int
                <= 130000 * 31) by (nonlinear_arith)
                requires
                    -130000 <= months as int <= 130000,
                    0 <= n64 as int <= 31,
            ;
        }
        let count: i64 = months * n64 + cnt - 1;
        let idx = floored_mod(count, self.monsters.len() as i64) as usize;
        self.monsters[idx].duplicate()
    }

    /// Whether the text matches the configured keywords.
    pub open spec fn spec_matches(self, text: Seq<char>) -> bool {
        regex_valid(self.nickname_regex@) && regex_match(self.nickname_regex@, text)
    }

    /// The rendering of a term end: year, month, day and hour.
    pub open spec fn end_text(end: CivilTime) -> Seq<char> {
        crate::strutil::dec_int(end.year as int) + "年"@ + crate::strutil::dec_int(
            end.month as int,
        ) + "月"@ + crate::strutil::dec_int(end.day as int) + "日の"@ + crate::strutil::dec_int(
            end.hour as int,
        ) + "時"@
    }

    /// The display name of the monster featured at `at`.
    pub open spec fn monster_display(self, catalog: Monsters, at: CivilTime) -> Seq<char> {
        catalog.inner@[catalog.first_idx(
            self.monsters@[self.monster_index(at)].monster_id@,
        )].display@
    }

    /// The joined resistance names of the monster featured at `at`.
    pub open spec fn monster_res(self, catalog: Monsters, at: CivilTime) -> Seq<char> {
        join_sep(
            catalog.inner@[catalog.first_idx(
                self.monsters@[self.monster_index(at)].monster_id@,
            )].resistances.areas()[0].map_values(|x: crate::resistances::Resistance| x.label()),
            "、"@,
        )
    }

    /// The announcement at `at`: the opening announcement on an opening
    /// day, the plain announcement inside a term, nothing outside.
    pub open spec fn announcement_text(self, catalog: Monsters, at: CivilTime) -> Result<
        Option<Seq<char>>,
        Error,
    > {
        match self.term_status(at, 0) {
            Ok(EventStatus::StartOfTerm { start, end }) => Ok(
                Some(
                    replace_seq(
                        replace_seq(
                            replace_seq(
                                self.announcement_at_start@,
                                "__MONSTERS__"@,
                                self.monster_display(catalog, at),
                            ),
                            "__RESISTANCES__"@,
                            self.monster_res(catalog, at),
                        ),
                        "__END_OF_TERM__"@,
                        Konmeiko::end_text(end),
                    ),
                ),
            ),
            Ok(EventStatus::OnTerm { start, end }) => Ok(
                Some(
                    replace_seq(
                        replace_seq(
                            self.announcement@,
                            "__MONSTERS__"@,
                            self.monster_display(catalog, at),
                        ),
                        "__END_OF_TERM__"@,
                        Konmeiko::end_text(end),
                    ),
                ),
            ),
            Ok(EventStatus::OutOfTerm) => Ok(None),
            Err(e) => Err(e),
        }
    }

    /// Render a term end as text.
    fn build_end_text(end: &CivilTime) -> (r: String)
        requires
            end.wf(),
        ensures
            r@ == Konmeiko::end_text(*end),
    {
        let mut out = i64_to_string(end.year as i64);
        out.append("年");
        out.append(i64_to_string(end.month as i64).as_str());
        out.append("月");
        out.append(i64_to_string(end.day as i64).as_str());
        out.append("日の");
        out.append(i64_to_string(end.hour as i64).as_str());
        out.append("時");
        out
    }

    /// Announce the featured monster while a term is open.
    pub fn announce(&self, catalog: &Monsters, criteria: &AnnouncementCriteria) -> (r: Result<
        Option<String>,
        Error,
    >)
        requires
            self.wf(),
            criteria.at.wf(),
            criteria.at.year <= 9996,
            self.catalog_ok(*catalog),
        ensures
            ({
                let spec_r = self.announcement_text(*catalog, criteria.at);
                match r {
                    Ok(Some(t)) => (spec_r matches Ok(Some(v)) && t@ == v),
                    Ok(None) => spec_r == Ok::<Option<Seq<char>>, Error>(None),
                    Err(e) => (spec_r matches Err(e2) && e == e2),
                }
            }),
    {
        let status = match self.event_status(&criteria.at) {
            Ok(s) => s,
            Err(e) => {
                return Err(e);
            },
        };
        let monster = self.current_monster(&criteria.at);
        proof {
            let mi = self.monster_index(criteria.at);
            assert(0 <= catalog.first_idx(self.monsters@[mi].monster_id@));
        }
        let mon = match catalog.get(&monster.monster_id) {
            Some(m) => m,
            None => {
                proof {
                    assert(false);
                }
                return Ok(None);
            },
        };
        match status {
            EventStatus::StartOfTerm { start, end } => {
                let res = mon.resistances().display(None);
                let s1 = replace_token(
                    self.announcement_at_start.as_str(),
                    "__MONSTERS__",
                    mon.display().as_str(),
                );
                let s2 = replace_token(s1.as_str(), "__RESISTANCES__", res.as_str());
                let endtxt = Konmeiko::build_end_text(&end);
                Ok(Some(replace_token(s2.as_str(), "__END_OF_TERM__", endtxt.as_str())))
            },
            EventStatus::OnTerm { start, end } => {
                let s1 = replace_token(
                    self.announcement.as_str(),
                    "__MONSTERS__",
                    mon.display().as_str(),
                );
                let endtxt = Konmeiko::build_end_text(&end);
                Ok(Some(replace_token(s1.as_str(), "__END_OF_TERM__", endtxt.as_str())))
            },
            EventStatus::OutOfTerm => Ok(None),
        }
    }

    /// The response at `at`: the featured monster and the term end while
    /// open, the closed message otherwise.
    pub open spec fn response_text(self, catalog: Monsters, at: CivilTime) -> Result<
        Seq<char>,
        Error,
    > {
        match self.term_status(at, 0) {
            Ok(EventStatus::OutOfTerm) => Ok(self.out_of_term@),
            Ok(EventStatus::StartOfTerm { start, end }) => Ok(self.on_term_response(
                catalog,
                at,
                end,
            )),
            Ok(EventStatus::OnTerm { start, end }) => Ok(self.on_term_response(catalog, at, end)),
            Err(e) => Err(e),
        }
    }

    pub open spec fn on_term_response(self, catalog: Monsters, at: CivilTime, end: CivilTime) -> Seq<
        char,
    > {
        replace_seq(
            replace_seq(
                replace_seq(
                    self.information@,
                    "__MONSTERS__"@,
                    self.monster_display(catalog, at),
                ),
                "__RESISTANCES__"@,
                self.monster_res(catalog, at),
            ),
            "__END_OF_TERM__"@,
            Konmeiko::end_text(end),
        )
    }

    /// Respond where the text matches the keywords; nothing otherwise.
    pub fn respond(&self, catalog: &Monsters, criteria: &ResponseCriteria) -> (r: Result<
        Option<String>,
        Error,
    >)
        requires
            self.wf(),
            criteria.at.wf(),
            criteria.at.year <= 9996,
            self.catalog_ok(*catalog),
        ensures
            ({
                let spec_r = self.response_text(*catalog, criteria.at);
                match r {
                    Ok(Some(t)) => self.spec_matches(criteria.text@) && (spec_r matches Ok(v)
                        && t@ == v),
                    Ok(None) => !self.spec_matches(criteria.text@),
                    Err(e) => self.spec_matches(criteria.text@) && (spec_r matches Err(e2) && e
                        == e2),
                }
            }),
    {
        if !regex_is_valid(self.nickname_regex.as_str()) {
            return Ok(None);
        }
        if !regex_is_match(self.nickname_regex.as_str(), criteria.text.as_str()) {
            return Ok(None);
        }
        let status = match self.event_status(&criteria.at) {
            Ok(s) => s,
            Err(e) => {
                return Err(e);
            },
        };
        let end = match status {
            EventStatus::OutOfTerm => {
                return Ok(Some(self.out_of_term.clone()));
            },
            EventStatus::StartOfTerm { start, end } => end,
            EventStatus::OnTerm { start, end } => end,
        };
        let monster = self.current_monster(&criteria.at);
        proof {
            let mi = self.monster_index(criteria.at);
            assert(0 <= catalog.first_idx(self.monsters@[mi].monster_id@));
        }
        let mon = match catalog.get(&monster.monster_id) {
            Some(m) => m,
            None => {
                proof {
                    assert(false);
                }
                return Ok(None);
            },
        };
        let res = mon.resistances().display(None);
        let s1 = replace_token(self.information.as_str(), "__MONSTERS__", mon.display().as_str());
        let s2 = replace_token(s1.as_str(), "__RESISTANCES__", res.as_str());
        let endtxt = Konmeiko::build_end_text(&end);
        Ok(Some(replace_token(s2.as_str(), "__END_OF_TERM__", endtxt.as_str())))
    }
}

} // verus!
