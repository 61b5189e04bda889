use vstd::prelude::*;

use crate::civil::CivilTime;
use crate::error::Error;
use crate::features::ResponseCriteria;
use crate::matching::{regex_is_match, regex_is_valid, regex_match, regex_valid};
use crate::monsters::Monsters;
use crate::rotation::{prefix_weight, Cycle, Granularity, Item};
use crate::strutil::{dec_int, i64_to_string, join_sep, replace_seq, replace_token};

verus! {

// The defence-force rotation: a fixed-duration cycle of monsters, each
// active for its own span of minutes, asked about through keyword
// responses.

/// One rotation entry: a monster on duty at one location for a span of
/// minutes.
#[derive(Debug)]
pub struct BoueigunMonster {
    pub id: String,
    pub monster_id: String,
    pub location: String,
    pub duration: i64,
}

impl BoueigunMonster {
    /// An owned copy of this entry.
    pub fn duplicate(&self) -> (r: BoueigunMonster)
        ensures
            r == *self,
    {
        BoueigunMonster {
            id: self.id.clone(),
            monster_id: self.monster_id.clone(),
            location: self.location.clone(),
            duration: self.duration,
        }
    }
}

/// The monster on duty now, the one that follows, and the minutes left.
#[derive(Debug)]
pub struct CurrentMonsterInfo {
    pub current: BoueigunMonster,
    pub next: BoueigunMonster,
    pub remain: i64,
}

/// The defence-force feature: a fixed-duration cycle of monsters and the
/// response template.
#[derive(Debug)]
pub struct Boueigun {
    pub cycle: Cycle,
    pub monsters: Vec<BoueigunMonster>,
    pub information: String,
    pub nickname_regex: String,
}

impl Boueigun {
    /// Well-formedness: the cycle mirrors the entries one for one.
    pub open spec fn wf(self) -> bool {
        &&& self.cycle.wf()
        &&& self.cycle.granularity is FixedDuration
        &&& self.monsters@.len() == self.cycle.items@.len()
        &&& forall|i: int|
            0 <= i < self.monsters@.len() ==> (#[trigger] self.monsters@[i]).id@
                == self.cycle.items@[i].identifier@ && self.monsters@[i].duration
                == self.cycle.items@[i].weight
    }

    /// Every monster identifier resolves in the catalog, to an entry
    /// with a single resistance area.
    pub open spec fn catalog_ok(self, catalog: Monsters) -> bool {
        forall|i: int|
            0 <= i < self.monsters@.len() ==> {
                let j = catalog.first_idx((#[trigger] self.monsters@[i]).monster_id@);
                &&& 0 <= j < catalog.inner@.len()
                &&& catalog.inner@[j].resistances.areas().len() == 1
            }
    }

    /// The rendering of the catalog entry first found for `id`: its
    /// display name and its joined resistance names.
    pub open spec fn catalog_display(catalog: Monsters, id: Seq<char>) -> Seq<char> {
        catalog.inner@[catalog.first_idx(id)].display@
    }

    /// The joined resistance names of the catalog entry first found for
    /// `id`.
    pub open spec fn catalog_res(catalog: Monsters, id: Seq<char>) -> Seq<char> {
        join_sep(
            catalog.inner@[catalog.first_idx(id)].resistances.areas()[0].map_values(
                |x: crate::resistances::Resistance| x.label(),
            ),
            "、"@,
        )
    }

    /// Build the feature, failing fast on an ill-formed configuration.
    pub fn new(
        reference: CivilTime,
        monsters: Vec<BoueigunMonster>,
        information: String,
        nickname_regex: String,
    ) -> (r: Result<Boueigun, Error>)
        ensures
            (r matches Ok(b) ==> b.wf() && b.cycle.reference == reference && b.monsters@
                == monsters@ && b.information == information && b.nickname_regex
                == nickname_regex),
            (r is Err) <==> !(reference.wf() && 1 <= monsters@.len() <= 10000 && (forall|i: int|
                0 <= i < monsters@.len() ==> 1 <= (#[trigger] monsters@[i]).duration <= 100000)),
    {
        let mut items: Vec<Item> = Vec::new();
        let mut i: usize = 0;
        while i < monsters.len()
            invariant
                i <= monsters@.len(),
                items@.len() == i,
                forall|k: int|
                    0 <= k < i ==> (#[trigger] items@[k]).identifier@ == monsters@[k].id@
                        && items@[k].weight == monsters@[k].duration,
            decreases monsters@.len() - i,
        {
            items.push(Item { identifier: monsters[i].id.clone(), weight: monsters[i].duration });
            i = i + 1;
        }
        proof {
            if forall|k: int|
                0 <= k < monsters@.len() ==> 1 <= (#[trigger] monsters@[k]).duration <= 100000 {
                assert forall|k: int|
                    0 <= k < items@.len() implies 1 <= (#[trigger] items@[k]).weight
                    <= 100000 by {
                    assert(1 <= monsters@[k].duration <= 100000);
                }
            } else {
                let k = choose|k: int|
                    0 <= k < monsters@.len() && !(1 <= (#[trigger] monsters@[k]).duration
                        <= 100000);
                assert(!(1 <= items@[k].weight <= 100000));
            }
        }
        let cycle = match Cycle::new(reference, items, Granularity::FixedDuration) {
            Ok(c) => c,
            Err(e) => {
                return Err(e);
            },
        };
        Ok(Boueigun { cycle, monsters, information, nickname_regex })
    }

    /// The entry on duty at `at`, the entry that follows it in natural
    /// order, and the minutes left in the current span.
    pub fn current_status(&self, at: &CivilTime) -> (r: CurrentMonsterInfo)
        requires
            self.wf(),
            at.wf(),
        ensures
            ({
                let idx = self.cycle.fixed_index(*at);
                &&& 0 <= idx < self.monsters@.len()
                &&& r.current == self.monsters@[idx]
                &&& r.next == self.monsters@[(idx + 1) % self.monsters@.len() as int]
                &&& r.remain == prefix_weight(self.cycle.items@, idx) + self.cycle.items@[idx].weight
                    - self.cycle.fixed_pos(*at)
                &&& 1 <= r.remain <= 100000
            }),
    {
        let st = self.cycle.resolve(at);
        let idx = st.index;
        let nxt: usize = if idx + 1 < self.monsters.len() {
            idx + 1
        } else {
            0
        };
        proof {
            if idx + 1 == self.monsters@.len() {
                vstd::arithmetic::div_mod::lemma_mod_self_0(self.monsters@.len() as int);
            } else {
                vstd::arithmetic::div_mod::lemma_small_mod(
                    (idx + 1) as nat,
                    self.monsters@.len() as nat,
                );
            }
        }
        CurrentMonsterInfo {
            current: self.monsters[idx].duplicate(),
            next: self.monsters[nxt].duplicate(),
            remain: st.remaining,
        }
    }

    /// Sum of all durations: the cycle length in minutes.
    pub fn total_duration(&self) -> (r: i64)
        requires
            self.wf(),
        ensures
            r == self.cycle.total_minutes(),
    {
        self.cycle.total_duration()
    }

    /// Whether the text matches the configured keywords.
    pub open spec fn spec_matches(self, text: Seq<char>) -> bool {
        regex_valid(self.nickname_regex@) && regex_match(self.nickname_regex@, text)
    }

    /// The response text at `at`, with the current monster's location,
    /// display name and resistances, the next monster's display name, and
    /// the minutes left.
    pub open spec fn response_text(self, catalog: Monsters, at: CivilTime) -> Seq<char> {
        let idx = self.cycle.fixed_index(at);
        let cur_display = Boueigun::catalog_display(catalog, self.monsters@[idx].monster_id@);
        let cur_res = Boueigun::catalog_res(catalog, self.monsters@[idx].monster_id@);
        let next_display = Boueigun::catalog_display(
            catalog,
            self.monsters@[(idx + 1) % self.monsters@.len() as int].monster_id@,
        );
        let remain = prefix_weight(self.cycle.items@, idx) + self.cycle.items@[idx].weight
            - self.cycle.fixed_pos(at);
        replace_seq(
            replace_seq(
                replace_seq(
                    replace_seq(
                        replace_seq(
                            self.information@,
                            "__LOCATION__"@,
                            self.monsters@[idx].location@,
                        ),
                        "__CURRENT_MONSTER__"@,
                        cur_display,
                    ),
                    "__RESISTANCES__"@,
                    cur_res,
                ),
                "__NEXT_MONSTER__"@,
                next_display,
            ),
            "__REMAIN__"@,
            dec_int(remain),
        )
    }

    /// Respond to a matched text: the current monster, its location and
    /// resistances, the next monster and the minutes left; nothing where
    /// the text does not match.
    pub fn respond(&self, catalog: &Monsters, criteria: &ResponseCriteria) -> (r: Option<String>)
        requires
            self.wf(),
            criteria.at.wf(),
            self.catalog_ok(*catalog),
        ensures
            (r is Some) <==> self.spec_matches(criteria.text@),
            (r matches Some(t) ==> t@ == self.response_text(*catalog, criteria.at)),
    {
        if !regex_is_valid(self.nickname_regex.as_str()) {
            return None;
        }
        if !regex_is_match(self.nickname_regex.as_str(), criteria.text.as_str()) {
            return None;
        }
        let info = self.current_status(&criteria.at);
        proof {
            let idx = self.cycle.fixed_index(criteria.at);
            let nidx = (idx + 1) % self.monsters@.len() as int;
            assert(self.monsters@[idx] == info.current);
            assert(self.monsters@[nidx] == info.next);
            assert(0 <= catalog.first_idx(self.monsters@[idx].monster_id@));
            assert(0 <= catalog.first_idx(self.monsters@[nidx].monster_id@));
        }
        let cur = match catalog.get(&info.current.monster_id) {
            Some(m) => m,
            None => {
                proof {
                    assert(false);
                }
                return None;
            },
        };
        let nxt = match catalog.get(&info.next.monster_id) {
            Some(m) => m,
            None => {
                proof {
                    assert(false);
                }
                return None;
            },
        };
        let res_text = cur.resistances().display(None);
        let step1 = replace_token(
            self.information.as_str(),
            "__LOCATION__",
            info.current.location.as_str(),
        );
        let step2 = replace_token(step1.as_str(), "__CURRENT_MONSTER__", cur.display().as_str());
        let step3 = replace_token(step2.as_str(), "__RESISTANCES__", res_text.as_str());
        let step4 = replace_token(step3.as_str(), "__NEXT_MONSTER__", nxt.display().as_str());
        let remain_s = i64_to_string(info.remain);
        let step5 = replace_token(step4.as_str(), "__REMAIN__", remain_s.as_str());
        Some(step5)
    }
}

} // verus!
