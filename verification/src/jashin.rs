use vstd::prelude::*;

use crate::civil::CivilTime;
use crate::error::Error;
use crate::features::{AnnouncementCriteria, ResponseCriteria};
use crate::matching::{regex_is_match, regex_is_valid, regex_match, regex_valid};
use crate::monsters::Monsters;
use crate::resistances::{display_spec, join_areas, Resistance, Resistances};
use crate::rotation::{Cycle, Granularity, Item};
use crate::strutil::{join_sep, join_strings, replace_seq, replace_token};

verus! {

// The evil-god palace: a two-level rotation.  A calendar day anchored
// table selector picks one of several title cycles, and the chosen cycle
// rotates one title per whole calendar month since the shared reference.

/// One title: its identifier, display name, and the monsters it fields.
#[derive(Debug)]
pub struct Title {
    pub id: String,
    pub display: String,
    pub monster_ids: Vec<String>,
}

impl Title {
    /// An owned copy of this title: the same identifier, display name
    /// and monster list.
    pub fn duplicate(&self) -> (r: Title)
        ensures
            r.id == self.id,
            r.display == self.display,
            r.monster_ids@ == self.monster_ids@,
    {
        let mut ids: Vec<String> = Vec::new();
        let mut i: usize = 0;
        while i < self.monster_ids.len()
            invariant
                i <= self.monster_ids@.len(),
                ids@.len() == i,
                forall|k: int| 0 <= k < i ==> ids@[k] == self.monster_ids@[k],
            decreases self.monster_ids@.len() - i,
        {
            ids.push(self.monster_ids[i].clone());
            i = i + 1;
        }
        proof {
            assert(ids@ =~= self.monster_ids@);
        }
        Title { id: self.id.clone(), display: self.display.clone(), monster_ids: ids }
    }
}

/// One table: a start day of the month and its title cycle.
#[derive(Debug)]
pub struct Table {
    pub start_day: u8,
    pub titles: Vec<Title>,
    pub cycle: Cycle,
}

impl Table {
    /// Well-formedness: a month cycle mirroring the titles one for one.
    pub open spec fn wf(self) -> bool {
        &&& self.cycle.wf()
        &&& self.cycle.granularity is ElapsedMonths
        &&& self.titles@.len() == self.cycle.items@.len()
        &&& forall|i: int|
            0 <= i < self.titles@.len() ==> (#[trigger] self.titles@[i]).id@
                == self.cycle.items@[i].identifier@
        &&& 1 <= self.start_day <= 31
    }

    /// Build a table over a shared reference instant.
    pub fn new(start_day: u8, titles: Vec<Title>, reference: CivilTime) -> (r: Result<
        Table,
        Error,
    >)
        ensures
            (r matches Ok(t) ==> t.wf() && t.start_day == start_day && t.titles@ == titles@
                && t.cycle.reference == reference),
            (r is Err) <==> !(1 <= start_day <= 31 && reference.wf() && 1 <= titles@.len()
                <= 10000),
    {
        if start_day < 1 || start_day > 31 {
            return Err(Error::InvalidScheduleConfig);
        }
        let mut items: Vec<Item> = Vec::new();
        let mut i: usize = 0;
        while i < titles.len()
            invariant
                i <= titles@.len(),
                items@.len() == i,
                forall|k: int| 0 <= k < i ==> (#[trigger] items@[k]).identifier@ == titles@[k].id@,
            decreases titles@.len() - i,
        {
            items.push(Item { identifier: titles[i].id.clone(), weight: 0 });
            i = i + 1;
        }
        let cycle = match Cycle::new(reference, items, Granularity::ElapsedMonths) {
            Ok(c) => c,
            Err(e) => {
                return Err(e);
            },
        };
        Ok(Table { start_day, titles, cycle })
    }
}

/// The index of the table that governs day `day`, scanning from `i`
/// downward: the last table whose start day has been reached, the final
/// table as fallback for the days before any start day.
pub open spec fn select_from(tables: Seq<Table>, i: int, day: int, tod_ge: bool) -> int
    decreases i + 1,
{
    if i < 0 {
        tables.len() - 1
    } else if day > tables[i].start_day || (day == tables[i].start_day && tod_ge) {
        i
    } else {
        select_from(tables, i - 1, day, tod_ge)
    }
}

/// The evil-god palace feature.
#[derive(Debug)]
pub struct Jashin {
    pub reference: CivilTime,
    pub tables: Vec<Table>,
    pub area_names: Vec<String>,
    pub announcement: String,
    pub announcement_at_start: String,
    pub announcement_at_end: String,
    pub information: String,
    pub nickname_regex: String,
}

/// The resistances of the monsters of one title, folded together from a
/// single empty area: `k` is how many identifiers are folded in.
pub open spec fn folded_areas(catalog: Monsters, ids: Seq<String>, k: int) -> Seq<Seq<Resistance>>
    decreases k,
{
    if k <= 0 {
        seq![Seq::<Resistance>::empty()]
    } else {
        join_areas(
            folded_areas(catalog, ids, k - 1),
            catalog.inner@[catalog.first_idx(ids[k - 1]@)].resistances.areas(),
        )
    }
}

/// Whether the fold of a title's resistances is well-defined: every
/// identifier resolves, and every step pairs compatible area counts.
pub open spec fn fold_ok(catalog: Monsters, ids: Seq<String>, k: int) -> bool
    decreases k,
{
    if k <= 0 {
        true
    } else {
        let j = catalog.first_idx(ids[k - 1]@);
        let prev = folded_areas(catalog, ids, k - 1);
        &&& fold_ok(catalog, ids, k - 1)
        &&& 0 <= j < catalog.inner@.len()
        &&& catalog.inner@[j].resistances.areas().len() >= 1
        &&& (prev.len() == catalog.inner@[j].resistances.areas().len() || prev.len() == 1
            || catalog.inner@[j].resistances.areas().len() == 1)
    }
}

impl Jashin {
    /// Well-formedness: at least one table, each over the shared
    /// reference.
    pub open spec fn wf(self) -> bool {
        &&& self.reference.wf()
        &&& 1 <= self.tables@.len()
        &&& forall|i: int|
            0 <= i < self.tables@.len() ==> (#[trigger] self.tables@[i]).wf()
                && self.tables@[i].cycle.reference == self.reference
    }

    /// Every title's monsters resolve in the catalog, their resistances
    /// fold together, and the configured area names cover the fold.
    pub open spec fn catalog_ok(self, catalog: Monsters) -> bool {
        forall|t: int, j: int|
            0 <= t < self.tables@.len() && 0 <= j < self.tables@[t].titles@.len() ==> {
                let ids = (#[trigger] self.tables@[t].titles@[j]).monster_ids@;
                &&& fold_ok(catalog, ids, ids.len() as int)
                &&& (folded_areas(catalog, ids, ids.len() as int).len() > 1 ==> self.area_names@.len()
                    >= folded_areas(catalog, ids, ids.len() as int).len())
            }
    }

    /// Build the feature, failing fast where no table is given.
    pub fn new(
        reference: CivilTime,
        tables: Vec<Table>,
        area_names: Vec<String>,
        announcement: String,
        announcement_at_start: String,
        announcement_at_end: String,
        information: String,
        nickname_regex: String,
    ) -> (r: Result<Jashin, Error>)
        ensures
            (r matches Ok(jj) ==> jj.wf() && jj.reference == reference && jj.tables@ == tables@
                && jj.area_names@ == area_names@ && jj.announcement == announcement
                && jj.announcement_at_start == announcement_at_start && jj.announcement_at_end
                == announcement_at_end && jj.information == information && jj.nickname_regex
                == nickname_regex),
            (r is Err) <==> !(reference.wf() && 1 <= tables@.len() && (forall|k: int|
                0 <= k < tables@.len() ==> (#[trigger] tables@[k]).wf()
                    && tables@[k].cycle.reference == reference)),
    {
        if !reference.check_wf() || tables.len() < 1 {
            return Err(Error::InvalidScheduleConfig);
        }
        let mut i: usize = 0;
        while i < tables.len()
            invariant
                i <= tables@.len(),
                reference.wf(),
                1 <= tables@.len(),
                forall|k: int|
                    0 <= k < i ==> (#[trigger] tables@[k]).wf() && tables@[k].cycle.reference
                        == reference,
            decreases tables@.len() - i,
        {
            if !tables[i].cycle.check_wf() {
                proof {
                    assert(!tables@[i as int].wf());
                }
                return Err(Error::InvalidScheduleConfig);
            }
            if !(matches!(tables[i].cycle.granularity, Granularity::ElapsedMonths)) {
                proof {
                    assert(!tables@[i as int].wf());
                }
                return Err(Error::InvalidScheduleConfig);
            }
            if tables[i].titles.len() != tables[i].cycle.items.len() {
                proof {
                    assert(!tables@[i as int].wf());
                }
                return Err(Error::InvalidScheduleConfig);
            }
            if tables[i].start_day < 1 || tables[i].start_day > 31 {
                proof {
                    assert(!tables@[i as int].wf());
                }
                return Err(Error::InvalidScheduleConfig);
            }
            let mut j: usize = 0;
            while j < tables[i].titles.len()
                invariant
                    i < tables@.len(),
                    j <= tables@[i as int].titles@.len(),
                    tables@[i as int].titles@.len() == tables@[i as int].cycle.items@.len(),
                    forall|k: int|
                        0 <= k < j ==> (#[trigger] tables@[i as int].titles@[k]).id@
                            == tables@[i as int].cycle.items@[k].identifier@,
                decreases tables@[i as int].titles@.len() - j,
            {
                if !(tables[i].titles[j].id == tables[i].cycle.items[j].identifier) {
                    proof {
                        assert(tables@[i as int].titles@[j as int].id@ != tables@[i as int].cycle.items@[j as int].identifier@);
                        assert(!tables@[i as int].wf());
                    }
                    return Err(Error::InvalidScheduleConfig);
                }
                j = j + 1;
            }
            let ok = {
                let gr = &tables[i].cycle.reference;
                gr.year == reference.year && gr.month == reference.month && gr.day == reference.day
                    && gr.hour == reference.hour && gr.minute == reference.minute && gr.second
                    == reference.second
            };
            if !ok {
                proof {
                    assert(tables@[i as int].cycle.reference != reference);
                }
                return Err(Error::InvalidScheduleConfig);
            }
            i = i + 1;
        }
        Ok(
            Jashin {
                reference,
                tables,
                area_names,
                announcement,
                announcement_at_start,
                announcement_at_end,
                information,
                nickname_regex,
            },
        )
    }

    /// The index of the table that governs `at`.
    pub open spec fn selected_table(self, at: CivilTime) -> int {
        select_from(
            self.tables@,
            self.tables@.len() - 1,
            at.day as int,
            at.sec_of_day() >= self.reference.sec_of_day(),
        )
    }

    /// The title active at `at`: the governing table's month index.
    pub open spec fn title_index(self, at: CivilTime) -> int {
        self.tables@[self.selected_table(at)].cycle.month_index(at)
    }

    pub open spec fn title_at(self, at: CivilTime) -> Title {
        self.tables@[self.selected_table(at)].titles@[self.title_index(at)]
    }

    /// Select the table that governs `at`.
    pub fn select_table(&self, at: &CivilTime) -> (r: usize)
        requires
            self.wf(),
            at.wf(),
        ensures
            r == self.selected_table(*at),
            r < self.tables@.len(),
    {
        let tod_ge = at.seconds_of_day() >= self.reference.seconds_of_day();
        let mut i: usize = self.tables.len();
        while i > 0
            invariant
                0 <= i <= self.tables@.len(),
                1 <= self.tables@.len(),
                self.selected_table(*at) == select_from(
                    self.tables@,
                    i - 1,
                    at.day as int,
                    at.sec_of_day() >= self.reference.sec_of_day(),
                ),
                tod_ge == (at.sec_of_day() >= self.reference.sec_of_day()),
            decreases i,
        {
            let t = &self.tables[i - 1];
            if (at.day as i64) > (t.start_day as i64) || (at.day == t.start_day && tod_ge) {
                return i - 1;
            }
            i = i - 1;
        }
        self.tables.len() - 1
    }

    /// The title active at `at`.
    pub fn title(&self, at: &CivilTime) -> (r: Title)
        requires
            self.wf(),
            at.wf(),
        ensures
            r.id == self.title_at(*at).id,
            r.display == self.title_at(*at).display,
            r.monster_ids@ == self.title_at(*at).monster_ids@,
            0 <= self.selected_table(*at) < self.tables@.len(),
            0 <= self.title_index(*at) < self.tables@[self.selected_table(*at)].titles@.len(),
    {
        let ti = self.select_table(at);
        let st = self.tables[ti].cycle.resolve(at);
        self.tables[ti].titles[st.index].duplicate()
    }

    /// Whether the text matches the configured keywords.
    pub open spec fn spec_matches(self, text: Seq<char>) -> bool {
        regex_valid(self.nickname_regex@) && regex_match(self.nickname_regex@, text)
    }

    /// The display names of a title's monsters, joined.
    pub open spec fn monsters_text(catalog: Monsters, t: Title) -> Seq<char> {
        join_sep(
            t.monster_ids@.map_values(
                |id: String| catalog.inner@[catalog.first_idx(id@)].display@,
            ),
            "と"@,
        )
    }

    /// The rendered resistances of a title's monsters, folded.
    pub open spec fn res_text(self, catalog: Monsters, t: Title) -> Seq<char> {
        display_spec(
            folded_areas(catalog, t.monster_ids@, t.monster_ids@.len() as int),
            self.area_names@.map_values(|n: String| n@),
        )
    }

    /// The announcement at `at`: the start template on a title's first
    /// day, the end template on its last, the plain template in between.
    pub open spec fn announcement_text(self, catalog: Monsters, at: CivilTime) -> Seq<char> {
        let today = self.title_at(at);
        let yesterday = self.title_at(at.prev_civil());
        let tomorrow = self.title_at(at.next_civil());
        if today.id@ != yesterday.id@ {
            replace_seq(
                replace_seq(
                    replace_seq(self.announcement_at_start@, "__TITLE__"@, today.display@),
                    "__MONSTERS__"@,
                    Jashin::monsters_text(catalog, today),
                ),
                "__RESISTANCES__"@,
                self.res_text(catalog, today),
            )
        } else if today.id@ != tomorrow.id@ {
            replace_seq(
                replace_seq(self.announcement_at_end@, "__TITLE1__"@, today.display@),
                "__TITLE2__"@,
                tomorrow.display@,
            )
        } else {
            replace_seq(self.announcement@, "__TITLE__"@, today.display@)
        }
    }

    /// The response: the title, its monsters and their resistances.
    pub open spec fn response_text(self, catalog: Monsters, at: CivilTime) -> Seq<char> {
        let today = self.title_at(at);
        replace_seq(
            replace_seq(
                replace_seq(self.information@, "__TITLE__"@, today.display@),
                "__MONSTERS__"@,
                Jashin::monsters_text(catalog, today),
            ),
            "__RESISTANCES__"@,
            self.res_text(catalog, today),
        )
    }

    /// The joined display names of a title's monsters.
    fn build_monsters_text(&self, catalog: &Monsters, t: &Title) -> (r: Option<String>)
        requires
            fold_ok(*catalog, t.monster_ids@, t.monster_ids@.len() as int),
        ensures
            (r matches Some(s) && s@ == Jashin::monsters_text(*catalog, *t)),
    {
        let mut names: Vec<String> = Vec::new();
        let mut i: usize = 0;
        while i < t.monster_ids.len()
            invariant
                i <= t.monster_ids@.len(),
                names@.len() == i,
                fold_ok(*catalog, t.monster_ids@, t.monster_ids@.len() as int),
                forall|k: int|
                    0 <= k < i ==> (#[trigger] names@[k])@ == catalog.inner@[catalog.first_idx(
                        t.monster_ids@[k]@,
                    )].display@,
            decreases t.monster_ids@.len() - i,
        {
            proof {
                lemma_fold_ok_prefix(*catalog, t.monster_ids@, i + 1, t.monster_ids@.len() as int);
            }
            let m = match catalog.get(&t.monster_ids[i]) {
                Some(m) => m,
                None => {
                    proof {
                        assert(false);
                    }
                    return None;
                },
            };
            names.push(m.display().clone());
            i = i + 1;
        }
        proof {
            assert(names@.map_values(|p: String| p@) =~= t.monster_ids@.map_values(
                |id: String| catalog.inner@[catalog.first_idx(id@)].display@,
            ));
        }
        Some(join_strings(&names, "と"))
    }

    /// The folded, rendered resistances of a title's monsters.
    fn build_res_text(&self, catalog: &Monsters, t: &Title) -> (r: Option<String>)
        requires
            fold_ok(*catalog, t.monster_ids@, t.monster_ids@.len() as int),
            folded_areas(*catalog, t.monster_ids@, t.monster_ids@.len() as int).len() > 1
                ==> self.area_names@.len() >= folded_areas(
                *catalog,
                t.monster_ids@,
                t.monster_ids@.len() as int,
            ).len(),
        ensures
            (r matches Some(s) && s@ == self.res_text(*catalog, *t)),
    {
        let mut acc = Resistances::new();
        let mut i: usize = 0;
        while i < t.monster_ids.len()
            invariant
                i <= t.monster_ids@.len(),
                fold_ok(*catalog, t.monster_ids@, t.monster_ids@.len() as int),
                acc.areas() =~= folded_areas(*catalog, t.monster_ids@, i as int),
                acc.areas().len() >= 1,
            decreases t.monster_ids@.len() - i,
        {
            proof {
                lemma_fold_ok_prefix(*catalog, t.monster_ids@, i + 1, t.monster_ids@.len() as int);
            }
            let m = match catalog.get(&t.monster_ids[i]) {
                Some(m) => m,
                None => {
                    proof {
                        assert(false);
                    }
                    return None;
                },
            };
            acc = acc.join(m.resistances());
            i = i + 1;
        }
        if acc.area_count() == 1 {
            Some(acc.display(None))
        } else {
            if self.area_names.len() >= acc.area_count() {
                Some(acc.display(Some(&self.area_names)))
            } else {
                proof {
                    assert(false);
                }
                None
            }
        }
    }

    /// Announce the active title, framed by where `at` stands in its
    /// period.
    pub fn announce(&self, catalog: &Monsters, criteria: &AnnouncementCriteria) -> (r: Option<
        String,
    >)
        requires
            self.wf(),
            criteria.at.wf(),
            2 <= criteria.at.year <= 9998,
            self.catalog_ok(*catalog),
        ensures
            (r matches Some(t) && t@ == self.announcement_text(*catalog, criteria.at)),
    {
        let at = &criteria.at;
        let today = self.title(at);
        let yesterday = self.title(&at.prev_day());
        let tomorrow = self.title(&at.next_day());
        proof {
            let ti = self.selected_table(criteria.at);
            let tj = self.title_index(criteria.at);
            assert(self.tables@[ti].titles@[tj].monster_ids@ == today.monster_ids@);
        }
        if !(today.id == yesterday.id) {
            let monsters = match self.build_monsters_text(catalog, &today) {
                Some(s) => s,
                None => {
                    return None;
                },
            };
            let res = match self.build_res_text(catalog, &today) {
                Some(s) => s,
                None => {
                    return None;
                },
            };
            let s1 = replace_token(
                self.announcement_at_start.as_str(),
                "__TITLE__",
                today.display.as_str(),
            );
            let s2 = replace_token(s1.as_str(), "__MONSTERS__", monsters.as_str());
            Some(replace_token(s2.as_str(), "__RESISTANCES__", res.as_str()))
        } else if !(today.id == tomorrow.id) {
            let s1 = replace_token(
                self.announcement_at_end.as_str(),
                "__TITLE1__",
                today.display.as_str(),
            );
            Some(replace_token(s1.as_str(), "__TITLE2__", tomorrow.display.as_str()))
        } else {
            Some(replace_token(self.announcement.as_str(), "__TITLE__", today.display.as_str()))
        }
    }

    /// Respond with the active title where the text matches the
    /// keywords; nothing otherwise.
    pub fn respond(&self, catalog: &Monsters, criteria: &ResponseCriteria) -> (r: Option<String>)
        requires
            self.wf(),
            criteria.at.wf(),
            self.catalog_ok(*catalog),
        ensures
            (r is Some) <==> self.spec_matches(criteria.text@),
            (r matches Some(t) ==> t@ == self.response_text(*catalog, criteria.at)),
    {
        if !regex_is_valid(self.nickname_regex.as_str()) {
            return None;
        }
        if !regex_is_match(self.nickname_regex.as_str(), criteria.text.as_str()) {
            return None;
        }
        let today = self.title(&criteria.at);
        proof {
            let ti = self.selected_table(criteria.at);
            let tj = self.title_index(criteria.at);
            assert(self.tables@[ti].titles@[tj].monster_ids@ == today.monster_ids@);
        }
        let monsters = match self.build_monsters_text(catalog, &today) {
            Some(s) => s,
            None => {
                return None;
            },
        };
        let res = match self.build_res_text(catalog, &today) {
            Some(s) => s,
            None => {
                return None;
            },
        };
        let s1 = replace_token(self.information.as_str(), "__TITLE__", today.display.as_str());
        let s2 = replace_token(s1.as_str(), "__MONSTERS__", monsters.as_str());
        Some(replace_token(s2.as_str(), "__RESISTANCES__", res.as_str()))
    }
}

/// A well-defined fold is well-defined at every prefix.
proof fn lemma_fold_ok_prefix(catalog: Monsters, ids: Seq<String>, k: int, n: int)
    requires
        k <= n,
        fold_ok(catalog, ids, n),
    ensures
        fold_ok(catalog, ids, k),
    decreases n - k,
{
    if k < n {
        lemma_fold_ok_prefix(catalog, ids, k, n - 1);
    }
}

} // verus!
