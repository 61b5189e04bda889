use vstd::prelude::*;

use crate::civil::CivilTime;
use crate::error::Error;
use crate::features::{AnnouncementCriteria, ResponseCriteria};
use crate::matching::{regex_is_match, regex_is_valid, regex_match, regex_valid};
use crate::monsters::Monsters;
use crate::rotation::{Cycle, Granularity, Item, Transition};
use crate::strutil::{join_sep, replace_seq, replace_token};

verus! {

// The origin-vault rotation: one monster every fixed number of days, in
// catalog order, with distinct announcements on the first and the last
// day of each span.

/// The origin-vault feature: a day-step cycle of monster identifiers and
/// the message templates.
#[derive(Debug)]
pub struct Panigulm {
    pub cycle: Cycle,
    pub announcement: String,
    pub announcement_at_start: String,
    pub announcement_at_end: String,
    pub information: String,
    pub nickname_regex: String,
}

impl Panigulm {
    /// Well-formedness: a day-step cycle.
    pub open spec fn wf(self) -> bool {
        &&& self.cycle.wf()
        &&& self.cycle.granularity is ElapsedDays
    }

    /// Every rotating identifier resolves in the catalog, to an entry
    /// with a single resistance area.
    pub open spec fn catalog_ok(self, catalog: Monsters) -> bool {
        forall|i: int|
            0 <= i < self.cycle.items@.len() ==> {
                let j = catalog.first_idx((#[trigger] self.cycle.items@[i]).identifier@);
                &&& 0 <= j < catalog.inner@.len()
                &&& catalog.inner@[j].resistances.areas().len() == 1
            }
    }

    /// Build the feature, failing fast on an ill-formed configuration.
    pub fn new(
        reference: CivilTime,
        num_days: i64,
        monster_ids: Vec<String>,
        announcement: String,
        announcement_at_start: String,
        announcement_at_end: String,
        information: String,
        nickname_regex: String,
    ) -> (r: Result<Panigulm, Error>)
        ensures
            (r matches Ok(p) ==> {
                &&& p.wf()
                &&& p.cycle.reference == reference
                &&& p.cycle.granularity == (Granularity::ElapsedDays { step_days: num_days })
                &&& p.cycle.items@.len() == monster_ids@.len()
                &&& forall|i: int|
                    0 <= i < monster_ids@.len() ==> (#[trigger] p.cycle.items@[i]).identifier@
                        == monster_ids@[i]@
                &&& p.announcement == announcement
                &&& p.announcement_at_start == announcement_at_start
                &&& p.announcement_at_end == announcement_at_end
                &&& p.information == information
                &&& p.nickname_regex == nickname_regex
            }),
            (r is Err) <==> !(reference.wf() && 1 <= monster_ids@.len() <= 10000 && 1 <= num_days
                <= 1000),
    {
        let mut items: Vec<Item> = Vec::new();
        let mut i: usize = 0;
        while i < monster_ids.len()
            invariant
                i <= monster_ids@.len(),
                items@.len() == i,
                forall|k: int|
                    0 <= k < i ==> (#[trigger] items@[k]).identifier@ == monster_ids@[k]@
                        && items@[k].weight == 0,
            decreases monster_ids@.len() - i,
        {
            items.push(Item { identifier: monster_ids[i].clone(), weight: 0 });
            i = i + 1;
        }
        let cycle = match Cycle::new(
            reference,
            items,
            Granularity::ElapsedDays { step_days: num_days },
        ) {
            Ok(c) => c,
            Err(e) => {
                return Err(e);
            },
        };
        Ok(
            Panigulm {
                cycle,
                announcement,
                announcement_at_start,
                announcement_at_end,
                information,
                nickname_regex,
            },
        )
    }

    /// The identifier of the monster active at `at`.
    pub fn monster_at(&self, at: &CivilTime) -> (r: String)
        requires
            self.wf(),
            at.wf(),
        ensures
            r@ == self.cycle.items@[self.cycle.active_index(*at)].identifier@,
    {
        let st = self.cycle.resolve(at);
        st.current.identifier
    }

    /// Whether the text matches the configured keywords.
    pub open spec fn spec_matches(self, text: Seq<char>) -> bool {
        regex_valid(self.nickname_regex@) && regex_match(self.nickname_regex@, text)
    }

    /// The display name and joined resistance names of the catalog entry
    /// of the monster at index `i` of the rotation.
    pub open spec fn display_of(self, catalog: Monsters, i: int) -> Seq<char> {
        catalog.inner@[catalog.first_idx(self.cycle.items@[i].identifier@)].display@
    }

    pub open spec fn res_of(self, catalog: Monsters, i: int) -> Seq<char> {
        join_sep(
            catalog.inner@[catalog.first_idx(
                self.cycle.items@[i].identifier@,
            )].resistances.areas()[0].map_values(|x: crate::resistances::Resistance| x.label()),
            "、"@,
        )
    }

    /// The announcement at `at`: the start template on the first day of
    /// a span, the end template on its last day, the plain template in
    /// between.
    pub open spec fn announcement_text(self, catalog: Monsters, at: CivilTime) -> Seq<char> {
        let i0 = self.cycle.active_index(at.prev_civil());
        let i1 = self.cycle.active_index(at);
        let i2 = self.cycle.active_index(at.next_civil());
        if self.cycle.items@[i1].identifier@ != self.cycle.items@[i0].identifier@ {
            replace_seq(
                replace_seq(
                    self.announcement_at_start@,
                    "__MONSTER__"@,
                    self.display_of(catalog, i1),
                ),
                "__RESISTANCES__"@,
                self.res_of(catalog, i1),
            )
        } else if self.cycle.items@[i1].identifier@ != self.cycle.items@[i2].identifier@ {
            replace_seq(
                replace_seq(
                    self.announcement_at_end@,
                    "__MONSTER1__"@,
                    self.display_of(catalog, i1),
                ),
                "__MONSTER2__"@,
                self.display_of(catalog, i2),
            )
        } else {
            replace_seq(self.announcement@, "__MONSTER__"@, self.display_of(catalog, i1))
        }
    }

    /// The response at `at`: the monster and its resistances.
    pub open spec fn response_text(self, catalog: Monsters, at: CivilTime) -> Seq<char> {
        let i1 = self.cycle.active_index(at);
        replace_seq(
            replace_seq(self.information@, "__MONSTER__"@, self.display_of(catalog, i1)),
            "__RESISTANCES__"@,
            self.res_of(catalog, i1),
        )
    }

    /// Announce the active monster, framed by where `at` stands in its
    /// span.
    pub fn announce(&self, catalog: &Monsters, criteria: &AnnouncementCriteria) -> (r: Option<
        String,
    >)
        requires
            self.wf(),
            criteria.at.wf(),
            2 <= criteria.at.year <= 9998,
            self.catalog_ok(*catalog),
        ensures
            (r matches Some(t) && t@ == self.announcement_text(*catalog, criteria.at)),
    {
        let at = &criteria.at;
        let phase = self.cycle.classify(at);
        let today = self.cycle.resolve(at);
        proof {
            let i1 = self.cycle.active_index(criteria.at);
            assert(0 <= catalog.first_idx(self.cycle.items@[i1].identifier@));
        }
        let cur = match catalog.get(&today.current.identifier) {
            Some(m) => m,
            None => {
                proof {
                    assert(false);
                }
                return None;
            },
        };
        match phase {
            Transition::Start => {
                let res = cur.resistances().display(None);
                let s1 = replace_token(
                    self.announcement_at_start.as_str(),
                    "__MONSTER__",
                    cur.display().as_str(),
                );
                Some(replace_token(s1.as_str(), "__RESISTANCES__", res.as_str()))
            },
            Transition::End => {
                let tomorrow = self.cycle.resolve(&at.next_day());
                proof {
                    let i2 = self.cycle.active_index(criteria.at.next_civil());
                    assert(0 <= catalog.first_idx(self.cycle.items@[i2].identifier@));
                }
                let nxt = match catalog.get(&tomorrow.current.identifier) {
                    Some(m) => m,
                    None => {
                        proof {
                            assert(false);
                        }
                        return None;
                    },
                };
                let s1 = replace_token(
                    self.announcement_at_end.as_str(),
                    "__MONSTER1__",
                    cur.display().as_str(),
                );
                Some(replace_token(s1.as_str(), "__MONSTER2__", nxt.display().as_str()))
            },
            Transition::Mid => {
                Some(
                    replace_token(self.announcement.as_str(), "__MONSTER__", cur.display().as_str()),
                )
            },
        }
    }

    /// Respond with the active monster and its resistances where the
    /// text matches the keywords; nothing otherwise.
    pub fn respond(&self, catalog: &Monsters, criteria: &ResponseCriteria) -> (r: Option<String>)
        requires
            self.wf(),
            criteria.at.wf(),
            self.catalog_ok(*catalog),
        ensures
            (r is Some) <==> self.spec_matches(criteria.text@),
            (r matches Some(t) ==> t@ == self.response_text(*catalog, criteria.at)),
    {
        if !regex_is_valid(self.nickname_regex.as_str()) {
            return None;
        }
        if !regex_is_match(self.nickname_regex.as_str(), criteria.text.as_str()) {
            return None;
        }
        let today = self.cycle.resolve(&criteria.at);
        proof {
            let i1 = self.cycle.active_index(criteria.at);
            assert(0 <= catalog.first_idx(self.cycle.items@[i1].identifier@));
        }
        let cur = match catalog.get(&today.current.identifier) {
            Some(m) => m,
            None => {
                proof {
                    assert(false);
                }
                return None;
            },
        };
        let res = cur.resistances().display(None);
        let s1 = replace_token(self.information.as_str(), "__MONSTER__", cur.display().as_str());
        Some(replace_token(s1.as_str(), "__RESISTANCES__", res.as_str()))
    }
}

} // verus!
