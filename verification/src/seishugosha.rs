use vstd::prelude::*;

use crate::civil::CivilTime;
use crate::error::Error;
use crate::features::{AnnouncementCriteria, ResponseCriteria};
use crate::matching::{regex_is_match, regex_is_valid, regex_match, regex_valid};
use crate::monsters::Monsters;
use crate::rotation::{Cycle, Granularity, Item};
use crate::strutil::{join_sep, join_strings, replace_seq, replace_token};

verus! {

// The holy-guardian rotation: a shared ordered list of level names that
// every monster walks through daily, each shifted by its own day offset.

/// One monster of the feature, with its day offset into the level list.
#[derive(Debug)]
pub struct SeishugoshaMonster {
    pub id: String,
    pub monster_id: String,
    pub offset: i64,
}

/// The holy-guardian feature: a daily offset rotation of level names,
/// announcement templates, and the response keywords.
#[derive(Debug)]
pub struct Seishugosha {
    pub cycle: Cycle,
    pub monsters: Vec<SeishugoshaMonster>,
    pub announcement_start: String,
    pub announcement_parts: String,
    pub announcement_end: String,
    pub information: String,
    pub nickname_regex: String,
}

impl Seishugosha {
    /// Well-formedness: an offset-day cycle over the level names, and
    /// bounded monster offsets.
    pub open spec fn wf(self) -> bool {
        &&& self.cycle.wf()
        &&& self.cycle.granularity is ElapsedDaysWithOffset
        &&& forall|i: int|
            0 <= i < self.monsters@.len() ==> -100000 <= (#[trigger] self.monsters@[i]).offset
                <= 100000
    }

    /// Every monster identifier resolves in the catalog.
    pub open spec fn catalog_ok(self, catalog: Monsters) -> bool {
        forall|i: int|
            0 <= i < self.monsters@.len() ==> 0 <= catalog.first_idx(
                (#[trigger] self.monsters@[i]).monster_id@,
            ) < catalog.inner@.len()
    }

    /// Build the feature, failing fast on an ill-formed configuration.
    pub fn new(
        reference: CivilTime,
        level_names: Vec<String>,
        monsters: Vec<SeishugoshaMonster>,
        announcement_start: String,
        announcement_parts: String,
        announcement_end: String,
        information: String,
        nickname_regex: String,
    ) -> (r: Result<Seishugosha, Error>)
        ensures
            (r matches Ok(s) ==> {
                &&& s.wf()
                &&& s.cycle.reference == reference
                &&& s.cycle.items@.len() == level_names@.len()
                &&& forall|i: int|
                    0 <= i < level_names@.len() ==> (#[trigger] s.cycle.items@[i]).identifier@
                        == level_names@[i]@
                &&& s.monsters@ == monsters@
                &&& s.announcement_start == announcement_start
                &&& s.announcement_parts == announcement_parts
                &&& s.announcement_end == announcement_end
                &&& s.nickname_regex == nickname_regex
            }),
            (r is Err) <==> !(reference.wf() && 1 <= level_names@.len() <= 10000 && (forall|i: int|
                0 <= i < monsters@.len() ==> -100000 <= (#[trigger] monsters@[i]).offset
                    <= 100000)),
    {
        let mut items: Vec<Item> = Vec::new();
        let mut i: usize = 0;
        while i < level_names.len()
            invariant
                i <= level_names@.len(),
                items@.len() == i,
                forall|k: int|
                    0 <= k < i ==> (#[trigger] items@[k]).identifier@ == level_names@[k]@
                        && items@[k].weight == 0,
            decreases level_names@.len() - i,
        {
            items.push(Item { identifier: level_names[i].clone(), weight: 0 });
            i = i + 1;
        }
        let cycle = match Cycle::new(reference, items, Granularity::ElapsedDaysWithOffset) {
            Ok(c) => c,
            Err(e) => {
                return Err(e);
            },
        };
        let mut j: usize = 0;
        while j < monsters.len()
            invariant
                j <= monsters@.len(),
                forall|k: int|
                    0 <= k < j ==> -100000 <= (#[trigger] monsters@[k]).offset <= 100000,
            decreases monsters@.len() - j,
        {
            if monsters[j].offset < -100000 || monsters[j].offset > 100000 {
                return Err(Error::InvalidScheduleConfig);
            }
            j = j + 1;
        }
        Ok(
            Seishugosha {
                cycle,
                monsters,
                announcement_start,
                announcement_parts,
                announcement_end,
                information,
                nickname_regex,
            },
        )
    }

    /// The level name that an item with day offset `offset` shows at
    /// `at`.
    pub fn level_name(&self, at: &CivilTime, offset: i64) -> (r: String)
        requires
            self.wf(),
            at.wf(),
            -100000 <= offset <= 100000,
        ensures
            r@ == self.cycle.items@[self.cycle.offset_index_s(*at, offset as int)].identifier@,
    {
        let idx = self.cycle.offset_index(at, offset);
        self.cycle.items[idx].identifier.clone()
    }

    /// Whether the text matches the configured keywords.
    pub open spec fn spec_matches(self, text: Seq<char>) -> bool {
        regex_valid(self.nickname_regex@) && regex_match(self.nickname_regex@, text)
    }

    /// The announcement line of monster `i` at `at`.
    pub open spec fn part_text(self, catalog: Monsters, at: CivilTime, i: int) -> Seq<char> {
        replace_seq(
            replace_seq(
                self.announcement_parts@,
                "__NAME__"@,
                catalog.inner@[catalog.first_idx(self.monsters@[i].monster_id@)].display@,
            ),
            "__LEVEL__"@,
            self.cycle.items@[self.cycle.offset_index_s(at, self.monsters@[i].offset as int)].identifier@,
        )
    }

    /// The whole announcement at `at`: the opening, one line per
    /// monster, and the closing.
    pub open spec fn announcement_text(self, catalog: Monsters, at: CivilTime) -> Seq<char> {
        self.announcement_start@ + join_sep(
            Seq::new(self.monsters@.len(), |i: int| self.part_text(catalog, at, i)),
            "\n"@,
        ) + self.announcement_end@
    }

    /// Announce the levels of every monster at the given instant.
    pub fn announce(&self, catalog: &Monsters, criteria: &AnnouncementCriteria) -> (r: Option<
        String,
    >)
        requires
            self.wf(),
            criteria.at.wf(),
            self.catalog_ok(*catalog),
        ensures
            (r matches Some(t) && t@ == self.announcement_text(*catalog, criteria.at)),
    {
        let mut parts: Vec<String> = Vec::new();
        let mut i: usize = 0;
        while i < self.monsters.len()
            invariant
                i <= self.monsters@.len(),
                parts@.len() == i,
                self.wf(),
                criteria.at.wf(),
                self.catalog_ok(*catalog),
                forall|k: int|
                    0 <= k < i ==> (#[trigger] parts@[k])@ == self.part_text(
                        *catalog,
                        criteria.at,
                        k,
                    ),
            decreases self.monsters@.len() - i,
        {
            let m = &self.monsters[i];
            let mon = match catalog.get(&m.monster_id) {
                Some(mon) => mon,
                None => {
                    proof {
                        assert(false);
                    }
                    return None;
                },
            };
            let level = self.level_name(&criteria.at, m.offset);
            let step1 = replace_token(
                self.announcement_parts.as_str(),
                "__NAME__",
                mon.display().as_str(),
            );
            let line = replace_token(step1.as_str(), "__LEVEL__", level.as_str());
            parts.push(line);
            i = i + 1;
        }
        let body = join_strings(&parts, "\n");
        let mut out = self.announcement_start.clone();
        out.append(body.as_str());
        out.append(self.announcement_end.as_str());
        proof {
            assert(parts@.map_values(|p: String| p@) =~= Seq::new(
                self.monsters@.len(),
                |i: int| self.part_text(*catalog, criteria.at, i),
            ));
        }
        Some(out)
    }

    /// Respond with the announcement where the text matches the
    /// keywords; nothing otherwise.
    pub fn respond(&self, catalog: &Monsters, criteria: &ResponseCriteria) -> (r: Option<String>)
        requires
            self.wf(),
            criteria.at.wf(),
            self.catalog_ok(*catalog),
        ensures
            (r is Some) <==> self.spec_matches(criteria.text@),
            (r matches Some(t) ==> t@ == self.announcement_text(*catalog, criteria.at)),
    {
        if !regex_is_valid(self.nickname_regex.as_str()) {
            return None;
        }
        if !regex_is_match(self.nickname_regex.as_str(), criteria.text.as_str()) {
            return None;
        }
        self.announce(catalog, &AnnouncementCriteria::new(criteria.at))
    }
}

} // verus!
