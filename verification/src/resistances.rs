use vstd::prelude::*;

use crate::strutil::{join_sep, join_strings, string_to_chars};
use vstd::seq_lib::lemma_multiset_commutative;

verus! {

// Resistances of abnormal conditions, grouped by battle area.
//
// A monster carries one or more areas, each an ordered list of
// resistances.  Joining two monsters' resistances pairs their areas (the
// shorter list cycling) and unions each pair, removing duplicates and
// bringing the union into the declared order of the variants, so that a
// joined area reads the same whichever side it came from.  Display joins
// the names with an enumeration comma, prefixing area names where there
// are several areas.

/// One resistance of an abnormal condition or an element.
#[derive(Debug, Clone, PartialEq, PartialOrd, Eq, Ord, Hash)]
pub enum Resistance {
    Spell,
    Breath,
    Sleep,
    Confusion,
    Paralisys,
    Death,
    Seal,
    Illusion,
    Dance,
    Poison,
    Charm,
    Curse,
    Fall,
    Bind,
    Fear,
    Laugh,
    Flame,
    Ice,
    Breeze,
    Thunder,
    Earth,
    Light,
    Dark,
    Various(String),
}

impl Resistance {
    /// The display name of this resistance.
    pub open spec fn label(self) -> Seq<char> {
        match self {
            Resistance::Spell => "呪文"@,
            Resistance::Breath => "ブレス"@,
            Resistance::Sleep => "眠り"@,
            Resistance::Confusion => "混乱"@,
            Resistance::Paralisys => "マヒ"@,
            Resistance::Death => "即死"@,
            Resistance::Seal => "封印"@,
            Resistance::Illusion => "幻惑"@,
            Resistance::Dance => "踊り"@,
            Resistance::Poison => "どく"@,
            Resistance::Charm => "魅了"@,
            Resistance::Curse => "呪い"@,
            Resistance::Fall => "転び"@,
            Resistance::Bind => "しばり"@,
            Resistance::Fear => "おびえ"@,
            Resistance::Laugh => "笑い"@,
            Resistance::Flame => "炎"@,
            Resistance::Ice => "氷"@,
            Resistance::Breeze => "風"@,
            Resistance::Thunder => "雷"@,
            Resistance::Earth => "土"@,
            Resistance::Light => "光"@,
            Resistance::Dark => "闇"@,
            Resistance::Various(s) => s@,
        }
    }

    /// The display name of this resistance.
    pub fn display_name(&self) -> (r: String)
        ensures
            r@ == self.label(),
    {
        match self {
            Resistance::Spell => "呪文".to_owned(),
            Resistance::Breath => "ブレス".to_owned(),
            Resistance::Sleep => "眠り".to_owned(),
            Resistance::Confusion => "混乱".to_owned(),
            Resistance::Paralisys => "マヒ".to_owned(),
            Resistance::Death => "即死".to_owned(),
            Resistance::Seal => "封印".to_owned(),
            Resistance::Illusion => "幻惑".to_owned(),
            Resistance::Dance => "踊り".to_owned(),
            Resistance::Poison => "どく".to_owned(),
            Resistance::Charm => "魅了".to_owned(),
            Resistance::Curse => "呪い".to_owned(),
            Resistance::Fall => "転び".to_owned(),
            Resistance::Bind => "しばり".to_owned(),
            Resistance::Fear => "おびえ".to_owned(),
            Resistance::Laugh => "笑い".to_owned(),
            Resistance::Flame => "炎".to_owned(),
            Resistance::Ice => "氷".to_owned(),
            Resistance::Breeze => "風".to_owned(),
            Resistance::Thunder => "雷".to_owned(),
            Resistance::Earth => "土".to_owned(),
            Resistance::Light => "光".to_owned(),
            Resistance::Dark => "闇".to_owned(),
            Resistance::Various(s) => s.clone(),
        }
    }

    /// The named resistance of a display name, where one exists.
    pub open spec fn named_resistance(s: Seq<char>) -> Option<Resistance> {
        if s == "呪文"@ {
            Option::Some(Resistance::Spell)
        } else if s == "ブレス"@ {
            Option::Some(Resistance::Breath)
        } else if s == "眠り"@ {
            Option::Some(Resistance::Sleep)
        } else if s == "混乱"@ {
            Option::Some(Resistance::Confusion)
        } else if s == "マヒ"@ {
            Option::Some(Resistance::Paralisys)
        } else if s == "即死"@ {
            Option::Some(Resistance::Death)
        } else if s == "封印"@ {
            Option::Some(Resistance::Seal)
        } else if s == "幻惑"@ {
            Option::Some(Resistance::Illusion)
        } else if s == "踊り"@ {
            Option::Some(Resistance::Dance)
        } else if s == "どく"@ {
            Option::Some(Resistance::Poison)
        } else if s == "魅了"@ {
            Option::Some(Resistance::Charm)
        } else if s == "呪い"@ {
            Option::Some(Resistance::Curse)
        } else if s == "転び"@ {
            Option::Some(Resistance::Fall)
        } else if s == "しばり"@ {
            Option::Some(Resistance::Bind)
        } else if s == "おびえ"@ {
            Option::Some(Resistance::Fear)
        } else if s == "笑い"@ {
            Option::Some(Resistance::Laugh)
        } else if s == "炎"@ {
            Option::Some(Resistance::Flame)
        } else if s == "氷"@ {
            Option::Some(Resistance::Ice)
        } else if s == "風"@ {
            Option::Some(Resistance::Breeze)
        } else if s == "雷"@ {
            Option::Some(Resistance::Thunder)
        } else if s == "土"@ {
            Option::Some(Resistance::Earth)
        } else if s == "闇"@ {
            Option::Some(Resistance::Dark)
        } else if s == "光"@ {
            Option::Some(Resistance::Light)
        } else {
            Option::None
        }
    }

    /// Parse a display name into a resistance: the named variant where
    /// one exists, and the free-form variant carrying the name otherwise.
    pub fn from_name(s: &String) -> (r: Resistance)
        ensures
            (match Resistance::named_resistance(s@) {
                Option::Some(x) => r == x,
                Option::None => (r matches Resistance::Various(v) && v@ == s@),
            }),
    {
        if *s == "呪文".to_owned() {
            Resistance::Spell
        } else if *s == "ブレス".to_owned() {
            Resistance::Breath
        } else if *s == "眠り".to_owned() {
            Resistance::Sleep
        } else if *s == "混乱".to_owned() {
            Resistance::Confusion
        } else if *s == "マヒ".to_owned() {
            Resistance::Paralisys
        } else if *s == "即死".to_owned() {
            Resistance::Death
        } else if *s == "封印".to_owned() {
            Resistance::Seal
        } else if *s == "幻惑".to_owned() {
            Resistance::Illusion
        } else if *s == "踊り".to_owned() {
            Resistance::Dance
        } else if *s == "どく".to_owned() {
            Resistance::Poison
        } else if *s == "魅了".to_owned() {
            Resistance::Charm
        } else if *s == "呪い".to_owned() {
            Resistance::Curse
        } else if *s == "転び".to_owned() {
            Resistance::Fall
        } else if *s == "しばり".to_owned() {
            Resistance::Bind
        } else if *s == "おびえ".to_owned() {
            Resistance::Fear
        } else if *s == "笑い".to_owned() {
            Resistance::Laugh
        } else if *s == "炎".to_owned() {
            Resistance::Flame
        } else if *s == "氷".to_owned() {
            Resistance::Ice
        } else if *s == "風".to_owned() {
            Resistance::Breeze
        } else if *s == "雷".to_owned() {
            Resistance::Thunder
        } else if *s == "土".to_owned() {
            Resistance::Earth
        } else if *s == "闇".to_owned() {
            Resistance::Dark
        } else if *s == "光".to_owned() {
            Resistance::Light
        } else {
            Resistance::Various(s.clone())
        }
    }

    /// An owned copy of this resistance.
    pub fn duplicate(&self) -> (r: Resistance)
        ensures
            r == *self,
    {
        match self {
            Resistance::Spell => Resistance::Spell,
            Resistance::Breath => Resistance::Breath,
            Resistance::Sleep => Resistance::Sleep,
            Resistance::Confusion => Resistance::Confusion,
            Resistance::Paralisys => Resistance::Paralisys,
            Resistance::Death => Resistance::Death,
            Resistance::Seal => Resistance::Seal,
            Resistance::Illusion => Resistance::Illusion,
            Resistance::Dance => Resistance::Dance,
            Resistance::Poison => Resistance::Poison,
            Resistance::Charm => Resistance::Charm,
            Resistance::Curse => Resistance::Curse,
            Resistance::Fall => Resistance::Fall,
            Resistance::Bind => Resistance::Bind,
            Resistance::Fear => Resistance::Fear,
            Resistance::Laugh => Resistance::Laugh,
            Resistance::Flame => Resistance::Flame,
            Resistance::Ice => Resistance::Ice,
            Resistance::Breeze => Resistance::Breeze,
            Resistance::Thunder => Resistance::Thunder,
            Resistance::Earth => Resistance::Earth,
            Resistance::Light => Resistance::Light,
            Resistance::Dark => Resistance::Dark,
            Resistance::Various(s) => Resistance::Various(s.clone()),
        }
    }

    /// Whether two resistances are the same: the same variant, and for
    /// `Various` the same name.
    pub open spec fn same_spec(self, other: Resistance) -> bool {
        match (self, other) {
            (Resistance::Various(a), Resistance::Various(b)) => a@ == b@,
            (Resistance::Spell, Resistance::Spell) => true,
            (Resistance::Breath, Resistance::Breath) => true,
            (Resistance::Sleep, Resistance::Sleep) => true,
            (Resistance::Confusion, Resistance::Confusion) => true,
            (Resistance::Paralisys, Resistance::Paralisys) => true,
            (Resistance::Death, Resistance::Death) => true,
            (Resistance::Seal, Resistance::Seal) => true,
            (Resistance::Illusion, Resistance::Illusion) => true,
            (Resistance::Dance, Resistance::Dance) => true,
            (Resistance::Poison, Resistance::Poison) => true,
            (Resistance::Charm, Resistance::Charm) => true,
            (Resistance::Curse, Resistance::Curse) => true,
            (Resistance::Fall, Resistance::Fall) => true,
            (Resistance::Bind, Resistance::Bind) => true,
            (Resistance::Fear, Resistance::Fear) => true,
            (Resistance::Laugh, Resistance::Laugh) => true,
            (Resistance::Flame, Resistance::Flame) => true,
            (Resistance::Ice, Resistance::Ice) => true,
            (Resistance::Breeze, Resistance::Breeze) => true,
            (Resistance::Thunder, Resistance::Thunder) => true,
            (Resistance::Earth, Resistance::Earth) => true,
            (Resistance::Light, Resistance::Light) => true,
            (Resistance::Dark, Resistance::Dark) => true,
            _ => false,
        }
    }

    /// Whether two resistances are the same.
    pub fn same_as(&self, other: &Resistance) -> (r: bool)
        ensures
            r == self.same_spec(*other),
    {
        match (self, other) {
            (Resistance::Spell, Resistance::Spell) => true,
            (Resistance::Breath, Resistance::Breath) => true,
            (Resistance::Sleep, Resistance::Sleep) => true,
            (Resistance::Confusion, Resistance::Confusion) => true,
            (Resistance::Paralisys, Resistance::Paralisys) => true,
            (Resistance::Death, Resistance::Death) => true,
            (Resistance::Seal, Resistance::Seal) => true,
            (Resistance::Illusion, Resistance::Illusion) => true,
            (Resistance::Dance, Resistance::Dance) => true,
            (Resistance::Poison, Resistance::Poison) => true,
            (Resistance::Charm, Resistance::Charm) => true,
            (Resistance::Curse, Resistance::Curse) => true,
            (Resistance::Fall, Resistance::Fall) => true,
            (Resistance::Bind, Resistance::Bind) => true,
            (Resistance::Fear, Resistance::Fear) => true,
            (Resistance::Laugh, Resistance::Laugh) => true,
            (Resistance::Flame, Resistance::Flame) => true,
            (Resistance::Ice, Resistance::Ice) => true,
            (Resistance::Breeze, Resistance::Breeze) => true,
            (Resistance::Thunder, Resistance::Thunder) => true,
            (Resistance::Earth, Resistance::Earth) => true,
            (Resistance::Light, Resistance::Light) => true,
            (Resistance::Dark, Resistance::Dark) => true,
            (Resistance::Various(a), Resistance::Various(b)) => *a == *b,
            _ => false,
        }
    }
}

/// Whether `s` holds `x`.
pub open spec fn holds_res(s: Seq<Resistance>, x: Resistance) -> bool {
    exists|i: int| 0 <= i < s.len() && s[i].same_spec(x)
}

/// `s` with later duplicates removed: each resistance keeps its first
/// occurrence.
pub open spec fn dedup_res(s: Seq<Resistance>) -> Seq<Resistance>
    decreases s.len(),
{
    if s.len() == 0 {
        Seq::empty()
    } else {
        let p = dedup_res(s.drop_last());
        if holds_res(p, s.last()) {
            p
        } else {
            p.push(s.last())
        }
    }
}

// The declared order of resistances: the named variants in declaration
// order, then the free-form variant, free-form names among themselves by
// their characters.  Joined areas are canonicalised to this order.

impl Resistance {
    /// The position of this resistance's variant in the declared order.
    pub open spec fn res_rank(self) -> int {
        match self {
            Resistance::Spell => 0,
            Resistance::Breath => 1,
            Resistance::Sleep => 2,
            Resistance::Confusion => 3,
            Resistance::Paralisys => 4,
            Resistance::Death => 5,
            Resistance::Seal => 6,
            Resistance::Illusion => 7,
            Resistance::Dance => 8,
            Resistance::Poison => 9,
            Resistance::Charm => 10,
            Resistance::Curse => 11,
            Resistance::Fall => 12,
            Resistance::Bind => 13,
            Resistance::Fear => 14,
            Resistance::Laugh => 15,
            Resistance::Flame => 16,
            Resistance::Ice => 17,
            Resistance::Breeze => 18,
            Resistance::Thunder => 19,
            Resistance::Earth => 20,
            Resistance::Light => 21,
            Resistance::Dark => 22,
            Resistance::Various(_) => 23,
        }
    }

    /// The position of this resistance's variant in the declared order.
    pub fn rank(&self) -> (r: u8)
        ensures
            r == self.res_rank(),
    {
        match self {
            Resistance::Spell => 0,
            Resistance::Breath => 1,
            Resistance::Sleep => 2,
            Resistance::Confusion => 3,
            Resistance::Paralisys => 4,
            Resistance::Death => 5,
            Resistance::Seal => 6,
            Resistance::Illusion => 7,
            Resistance::Dance => 8,
            Resistance::Poison => 9,
            Resistance::Charm => 10,
            Resistance::Curse => 11,
            Resistance::Fall => 12,
            Resistance::Bind => 13,
            Resistance::Fear => 14,
            Resistance::Laugh => 15,
            Resistance::Flame => 16,
            Resistance::Ice => 17,
            Resistance::Breeze => 18,
            Resistance::Thunder => 19,
            Resistance::Earth => 20,
            Resistance::Light => 21,
            Resistance::Dark => 22,
            Resistance::Various(_) => 23,
        }
    }
}

/// Lexicographic order on character sequences.
pub open spec fn lex_le(x: Seq<char>, y: Seq<char>) -> bool
    decreases x.len(),
{
    if x.len() == 0 {
        true
    } else if y.len() == 0 {
        false
    } else if (x[0] as u32) < (y[0] as u32) {
        true
    } else if (x[0] as u32) > (y[0] as u32) {
        false
    } else {
        lex_le(x.skip(1), y.skip(1))
    }
}

/// The declared order: variant rank first, free-form names by their
/// characters.
pub open spec fn res_le(a: Resistance, b: Resistance) -> bool {
    if a.res_rank() < b.res_rank() {
        true
    } else if a.res_rank() > b.res_rank() {
        false
    } else {
        match (a, b) {
            (Resistance::Various(p), Resistance::Various(q)) => lex_le(p@, q@),
            _ => true,
        }
    }
}

/// Whether the area is in the declared order.
pub open spec fn sorted_res(s: Seq<Resistance>) -> bool {
    forall|i: int, j: int| 0 <= i < j < s.len() ==> res_le(s[i], s[j])
}

/// `x` inserted into `v` at its place in the declared order.
pub open spec fn insert_res_spec(v: Seq<Resistance>, x: Resistance) -> Seq<Resistance>
    decreases v.len(),
{
    if v.len() == 0 {
        seq![x]
    } else if res_le(v[0], x) {
        seq![v[0]] + insert_res_spec(v.skip(1), x)
    } else {
        seq![x] + v
    }
}

/// `s` rearranged into the declared order by insertion.
pub open spec fn sort_res_spec(s: Seq<Resistance>) -> Seq<Resistance>
    decreases s.len(),
{
    if s.len() == 0 {
        Seq::empty()
    } else {
        insert_res_spec(sort_res_spec(s.drop_last()), s.last())
    }
}

pub proof fn lemma_lex_le_connex(x: Seq<char>, y: Seq<char>)
    ensures
        lex_le(x, y) || lex_le(y, x),
    decreases x.len(),
{
    if x.len() > 0 && y.len() > 0 && (x[0] as u32) == (y[0] as u32) {
        lemma_lex_le_connex(x.skip(1), y.skip(1));
    }
}

pub proof fn lemma_lex_le_trans(x: Seq<char>, y: Seq<char>, z: Seq<char>)
    requires
        lex_le(x, y),
        lex_le(y, z),
    ensures
        lex_le(x, z),
    decreases x.len(),
{
    if x.len() > 0 && y.len() > 0 && z.len() > 0 && (x[0] as u32) == (y[0] as u32) && (y[0] as u32)
        == (z[0] as u32) {
        lemma_lex_le_trans(x.skip(1), y.skip(1), z.skip(1));
    }
}

pub proof fn lemma_res_le_connex(a: Resistance, b: Resistance)
    ensures
        res_le(a, b) || res_le(b, a),
{
    if a.res_rank() == b.res_rank() {
        match (a, b) {
            (Resistance::Various(p), Resistance::Various(q)) => {
                lemma_lex_le_connex(p@, q@);
            },
            _ => {},
        }
    }
}

pub proof fn lemma_res_le_trans(a: Resistance, b: Resistance, c: Resistance)
    requires
        res_le(a, b),
        res_le(b, c),
    ensures
        res_le(a, c),
{
    if a.res_rank() == b.res_rank() && b.res_rank() == c.res_rank() {
        match (a, b, c) {
            (Resistance::Various(p), Resistance::Various(q), Resistance::Various(w)) => {
                lemma_lex_le_trans(p@, q@, w@);
            },
            _ => {},
        }
    }
}

/// Inserting an element anywhere adds exactly it to the multiset.
proof fn lemma_res_cons_to_multiset(x: Resistance, v: Seq<Resistance>)
    ensures
        (seq![x] + v).to_multiset() =~= v.to_multiset().insert(x),
{
    broadcast use vstd::seq_lib::group_to_multiset_ensures;

    lemma_multiset_commutative(seq![x], v);
    assert(seq![x] =~= Seq::<Resistance>::empty().push(x));
}

/// Insertion keeps the order, adds exactly the element to the multiset,
/// and grows the length by one.
pub proof fn lemma_insert_res(v: Seq<Resistance>, x: Resistance)
    requires
        sorted_res(v),
    ensures
        sorted_res(insert_res_spec(v, x)),
        insert_res_spec(v, x).to_multiset() =~= v.to_multiset().insert(x),
        insert_res_spec(v, x).len() == v.len() + 1,
    decreases v.len(),
{
    broadcast use vstd::seq_lib::group_to_multiset_ensures;

    if v.len() == 0 {
        assert(seq![x] =~= Seq::<Resistance>::empty().push(x));
    } else if res_le(v[0], x) {
        let tail = v.skip(1);
        assert(sorted_res(tail)) by {
            assert(forall|i: int, j: int|
                0 <= i < j < tail.len() ==> tail[i] == v[i + 1] && tail[j] == v[j + 1]);
        }
        lemma_insert_res(tail, x);
        let w = insert_res_spec(tail, x);
        let r = seq![v[0]] + w;
        assert forall|i: int, j: int| 0 <= i < j < r.len() implies res_le(r[i], r[j]) by {
            if i == 0 {
                let e = w[j - 1];
                assert(w.contains(e));
                assert(w.to_multiset().count(e) > 0);
                if e == x {
                } else {
                    assert(tail.to_multiset().count(e) > 0);
                    assert(tail.contains(e));
                    let k = choose|k: int| 0 <= k < tail.len() && tail[k] == e;
                    assert(res_le(v[0], v[k + 1]));
                }
            } else {
                assert(r[i] == w[i - 1] && r[j] == w[j - 1]);
            }
        }
        lemma_res_cons_to_multiset(v[0], w);
        lemma_res_cons_to_multiset(v[0], tail);
        assert(v =~= seq![v[0]] + tail);
    } else {
        lemma_res_le_connex(v[0], x);
        let r = seq![x] + v;
        assert forall|i: int, j: int| 0 <= i < j < r.len() implies res_le(r[i], r[j]) by {
            if i == 0 {
                if j == 1 {
                } else {
                    lemma_res_le_trans(x, v[0], v[j - 1]);
                }
            } else {
                assert(r[i] == v[i - 1] && r[j] == v[j - 1]);
            }
        }
        lemma_res_cons_to_multiset(x, v);
    }
}

/// Sorting keeps the multiset and the length, and yields the declared
/// order.
pub proof fn lemma_sort_res(s: Seq<Resistance>)
    ensures
        sorted_res(sort_res_spec(s)),
        sort_res_spec(s).to_multiset() =~= s.to_multiset(),
        sort_res_spec(s).len() == s.len(),
    decreases s.len(),
{
    broadcast use vstd::seq_lib::group_to_multiset_ensures;

    if s.len() > 0 {
        lemma_sort_res(s.drop_last());
        lemma_insert_res(sort_res_spec(s.drop_last()), s.last());
        assert(s =~= s.drop_last().push(s.last()));
    }
}

/// Duplicate removal leaves no two entries that are the same resistance.
pub proof fn lemma_dedup_distinct(s: Seq<Resistance>)
    ensures
        forall|i: int, j: int|
            0 <= i < j < dedup_res(s).len() ==> !(#[trigger] dedup_res(s)[i]).same_spec(
                #[trigger] dedup_res(s)[j],
            ),
    decreases s.len(),
{
    if s.len() > 0 {
        lemma_dedup_distinct(s.drop_last());
        let p = dedup_res(s.drop_last());
        if !holds_res(p, s.last()) {
            assert forall|i: int, j: int|
                0 <= i < j < dedup_res(s).len() implies !(#[trigger] dedup_res(s)[i]).same_spec(
                #[trigger] dedup_res(s)[j],
            ) by {
                if j == dedup_res(s).len() - 1 {
                    assert(dedup_res(s)[i] == p[i]);
                }
            }
        }
    }
}

/// Duplicate removal keeps exactly the resistances that were held.
pub proof fn lemma_dedup_holds(s: Seq<Resistance>, x: Resistance)
    ensures
        holds_res(dedup_res(s), x) <==> holds_res(s, x),
    decreases s.len(),
{
    if s.len() > 0 {
        lemma_dedup_holds(s.drop_last(), x);
        let p = dedup_res(s.drop_last());
        let d = dedup_res(s);
        assert(forall|i: int| 0 <= i < s.len() - 1 ==> s.drop_last()[i] == s[i]);
        if holds_res(s.drop_last(), x) {
            let i = choose|i: int| 0 <= i < s.drop_last().len() && s.drop_last()[i].same_spec(x);
            assert(s[i].same_spec(x));
        }
        if holds_res(d, x) {
            let i = choose|i: int| 0 <= i < d.len() && d[i].same_spec(x);
            if holds_res(p, s.last()) {
                assert(p[i].same_spec(x));
            } else if i < p.len() {
                assert(p[i].same_spec(x));
            } else {
                assert(d[i] == s.last());
                assert(s[s.len() - 1].same_spec(x));
            }
        }
        if holds_res(s, x) {
            let i = choose|i: int| 0 <= i < s.len() && s[i].same_spec(x);
            if i < s.len() - 1 {
                assert(s.drop_last()[i].same_spec(x));
                let k = choose|k: int| 0 <= k < p.len() && p[k].same_spec(x);
                assert(d[k].same_spec(x));
            } else {
                if holds_res(p, s.last()) {
                    let k = choose|k: int| 0 <= k < p.len() && p[k].same_spec(s.last());
                    lemma_same_spec_trans(p[k], s.last(), x);
                    assert(d[k].same_spec(x));
                } else {
                    assert(d[p.len() as int] == s.last());
                    assert(d[p.len() as int].same_spec(x));
                }
            }
        }
    }
}

/// Sameness of resistances is reflexive and carries across chains.
pub proof fn lemma_same_spec_trans(a: Resistance, b: Resistance, c: Resistance)
    requires
        a.same_spec(b),
        b.same_spec(c),
    ensures
        a.same_spec(c),
{
}

proof fn lemma_lex_le_refl(x: Seq<char>)
    ensures
        lex_le(x, x),
    decreases x.len(),
{
    if x.len() > 0 {
        lemma_lex_le_refl(x.skip(1));
    }
}

/// Characters with the same scalar value are the same character.
proof fn lemma_char_inj(c1: char, c2: char)
    requires
        c1 as u32 == c2 as u32,
    ensures
        c1 == c2,
{
}

proof fn lemma_lex_le_antisym(x: Seq<char>, y: Seq<char>)
    requires
        lex_le(x, y),
        lex_le(y, x),
    ensures
        x == y,
    decreases x.len(),
{
    if x.len() == 0 {
        assert(x =~= y);
    } else {
        let c1 = x[0];
        let c2 = y[0];
        assert(c1 as u32 == c2 as u32);
        lemma_char_inj(c1, c2);
        lemma_lex_le_antisym(x.skip(1), y.skip(1));
        assert(x =~= y) by {
            assert(forall|i: int|
                1 <= i < x.len() ==> x[i] == x.skip(1)[i - 1] && y[i] == y.skip(1)[i - 1]);
        }
    }
}

/// A resistance is the same as itself.
pub proof fn lemma_same_spec_refl(a: Resistance)
    ensures
        a.same_spec(a),
{
}

/// Sameness of resistances is symmetric.
pub proof fn lemma_same_spec_sym(a: Resistance, b: Resistance)
    requires
        a.same_spec(b),
    ensures
        b.same_spec(a),
{
}

/// The same resistance stands at the same place of the declared order.
proof fn lemma_same_spec_le(a: Resistance, b: Resistance)
    requires
        a.same_spec(b),
    ensures
        res_le(a, b),
        res_le(b, a),
{
    match (a, b) {
        (Resistance::Various(p), Resistance::Various(q)) => {
            lemma_lex_le_refl(p@);
        },
        _ => {},
    }
}

/// Two resistances that stand at the same place of the declared order
/// are the same.
proof fn lemma_le_antisym(a: Resistance, b: Resistance)
    requires
        res_le(a, b),
        res_le(b, a),
    ensures
        a.same_spec(b),
{
    match (a, b) {
        (Resistance::Various(p), Resistance::Various(q)) => {
            lemma_lex_le_antisym(p@, q@);
        },
        _ => {},
    }
}

/// Sorting keeps entries pairwise distinct as resistances.
proof fn lemma_sort_samespec_distinct(d: Seq<Resistance>)
    requires
        forall|i: int, j: int|
            0 <= i < j < d.len() ==> !(#[trigger] d[i]).same_spec(#[trigger] d[j]),
    ensures
        forall|i: int, j: int|
            0 <= i < j < sort_res_spec(d).len() ==> !(#[trigger] sort_res_spec(d)[i]).same_spec(
                #[trigger] sort_res_spec(d)[j],
            ),
{
    broadcast use vstd::seq_lib::group_to_multiset_ensures;

    let r = sort_res_spec(d);
    lemma_sort_res(d);
    assert(d.no_duplicates()) by {
        assert forall|i: int, j: int| 0 <= i < j < d.len() implies d[i] != d[j] by {
            if d[i] == d[j] {
                lemma_same_spec_refl(d[i]);
            }
        }
    }
    d.lemma_multiset_has_no_duplicates();
    r.lemma_multiset_has_no_duplicates_conv();
    assert forall|i: int, j: int|
        0 <= i < j < r.len() implies !(#[trigger] r[i]).same_spec(#[trigger] r[j]) by {
        if r[i].same_spec(r[j]) {
            assert(r[i] != r[j]);
            assert(r.contains(r[i]) && r.contains(r[j]));
            assert(r.to_multiset().count(r[i]) > 0);
            assert(r.to_multiset().count(r[j]) > 0);
            assert(d.to_multiset().count(r[i]) > 0);
            assert(d.to_multiset().count(r[j]) > 0);
            assert(d.contains(r[i]) && d.contains(r[j]));
            let k = choose|k: int| 0 <= k < d.len() && d[k] == r[i];
            let l = choose|l: int| 0 <= l < d.len() && d[l] == r[j];
            assert(k != l);
            if k < l {
                assert(!d[k].same_spec(d[l]));
            } else {
                assert(!d[l].same_spec(d[k]));
                lemma_same_spec_sym(d[k], d[l]);
            }
        }
    }
}

/// Two lists in the declared order, pairwise distinct, holding the same
/// resistances, list the same resistances at the same places.
proof fn lemma_sorted_unique(s1: Seq<Resistance>, s2: Seq<Resistance>)
    requires
        sorted_res(s1),
        sorted_res(s2),
        forall|i: int, j: int|
            0 <= i < j < s1.len() ==> !(#[trigger] s1[i]).same_spec(#[trigger] s1[j]),
        forall|i: int, j: int|
            0 <= i < j < s2.len() ==> !(#[trigger] s2[i]).same_spec(#[trigger] s2[j]),
        forall|x: Resistance| holds_res(s1, x) <==> holds_res(s2, x),
    ensures
        s1.len() == s2.len(),
        forall|i: int| 0 <= i < s1.len() ==> (#[trigger] s1[i]).same_spec(s2[i]),
    decreases s1.len(),
{
    if s1.len() == 0 {
        if s2.len() > 0 {
            lemma_same_spec_refl(s2[0]);
            assert(holds_res(s2, s2[0]));
            assert(holds_res(s1, s2[0]));
        }
    } else if s2.len() == 0 {
        lemma_same_spec_refl(s1[0]);
        assert(holds_res(s1, s1[0]));
        assert(holds_res(s2, s1[0]));
    } else {
        lemma_same_spec_refl(s1[0]);
        lemma_same_spec_refl(s2[0]);
        assert(holds_res(s1, s1[0]));
        assert(holds_res(s2, s2[0]));
        let k = choose|k: int| 0 <= k < s2.len() && s2[k].same_spec(s1[0]);
        let m = choose|m: int| 0 <= m < s1.len() && s1[m].same_spec(s2[0]);
        assert(s1[0].same_spec(s2[0])) by {
            if k == 0 {
                lemma_same_spec_sym(s2[0], s1[0]);
            } else if m == 0 {
            } else {
                lemma_same_spec_le(s2[k], s1[0]);
                lemma_res_le_trans(s2[0], s2[k], s1[0]);
                lemma_same_spec_le(s1[m], s2[0]);
                lemma_res_le_trans(s1[0], s1[m], s2[0]);
                lemma_le_antisym(s1[0], s2[0]);
            }
        }
        let t1 = s1.skip(1);
        let t2 = s2.skip(1);
        assert(forall|i: int| 0 <= i < t1.len() ==> t1[i] == s1[i + 1]);
        assert(forall|i: int| 0 <= i < t2.len() ==> t2[i] == s2[i + 1]);
        assert forall|x: Resistance| holds_res(t1, x) <==> holds_res(t2, x) by {
            if holds_res(t1, x) {
                let i = choose|i: int| 0 <= i < t1.len() && t1[i].same_spec(x);
                assert(s1[i + 1].same_spec(x));
                assert(holds_res(s1, x));
                let j = choose|j: int| 0 <= j < s2.len() && s2[j].same_spec(x);
                if j == 0 {
                    lemma_same_spec_sym(s1[i + 1], x);
                    lemma_same_spec_trans(s2[0], x, s1[i + 1]);
                    lemma_same_spec_sym(s1[0], s2[0]);
                    lemma_same_spec_trans(s1[0], s2[0], s1[i + 1]);
                } else {
                    assert(t2[j - 1].same_spec(x));
                }
            }
            if holds_res(t2, x) {
                let i = choose|i: int| 0 <= i < t2.len() && t2[i].same_spec(x);
                assert(s2[i + 1].same_spec(x));
                assert(holds_res(s2, x));
                let j = choose|j: int| 0 <= j < s1.len() && s1[j].same_spec(x);
                if j == 0 {
                    lemma_same_spec_sym(s2[i + 1], x);
                    lemma_same_spec_trans(s1[0], x, s2[i + 1]);
                    lemma_same_spec_sym(s1[0], s2[0]);
                    lemma_same_spec_trans(s2[0], s1[0], s2[i + 1]);
                } else {
                    assert(t1[j - 1].same_spec(x));
                }
            }
        }
        lemma_sorted_unique(t1, t2);
        assert forall|i: int| 0 <= i < s1.len() implies (#[trigger] s1[i]).same_spec(s2[i]) by {
            if i > 0 {
                assert(t1[i - 1].same_spec(t2[i - 1]));
            }
        }
    }
}

/// The joined areas of two area lists: the longer list kept, the
/// shorter cycling along it, every pair unioned and brought into the
/// declared order.
pub open spec fn join_areas(a: Seq<Seq<Resistance>>, b: Seq<Seq<Resistance>>) -> Seq<
    Seq<Resistance>,
> {
    let larger = if a.len() > b.len() {
        a
    } else {
        b
    };
    let smaller = if a.len() > b.len() {
        b
    } else {
        a
    };
    Seq::new(
        larger.len(),
        |i: int| sort_res_spec(dedup_res(larger[i] + smaller[i % smaller.len() as int])),
    )
}

/// Each joined area is in the declared order, duplicate-free, and holds
/// exactly the resistances of the two areas it unions.
pub proof fn lemma_join_area_canonical(a: Seq<Resistance>, b: Seq<Resistance>)
    ensures
        sorted_res(sort_res_spec(dedup_res(a + b))),
        sort_res_spec(dedup_res(a + b)).no_duplicates(),
        forall|x: Resistance|
            holds_res(sort_res_spec(dedup_res(a + b)), x) <==> holds_res(a + b, x),
{
    broadcast use vstd::seq_lib::group_to_multiset_ensures;

    let d = dedup_res(a + b);
    let r = sort_res_spec(d);
    lemma_sort_res(d);
    lemma_dedup_distinct(a + b);
    assert(d.no_duplicates()) by {
        assert forall|i: int, j: int| 0 <= i < j < d.len() implies d[i] != d[j] by {
            assert(!d[i].same_spec(d[j]));
        }
    }
    d.lemma_multiset_has_no_duplicates();
    r.lemma_multiset_has_no_duplicates_conv();
    assert forall|x: Resistance| holds_res(r, x) <==> holds_res(a + b, x) by {
        lemma_dedup_holds(a + b, x);
        if holds_res(r, x) {
            let i = choose|i: int| 0 <= i < r.len() && r[i].same_spec(x);
            assert(r.contains(r[i]));
            assert(r.to_multiset().count(r[i]) > 0);
            assert(d.contains(r[i]));
            let k = choose|k: int| 0 <= k < d.len() && d[k] == r[i];
            assert(d[k].same_spec(x));
        }
        if holds_res(d, x) {
            let i = choose|i: int| 0 <= i < d.len() && d[i].same_spec(x);
            assert(d.contains(d[i]));
            assert(d.to_multiset().count(d[i]) > 0);
            assert(r.contains(d[i]));
            let k = choose|k: int| 0 <= k < r.len() && r[k] == d[i];
            assert(r[k].same_spec(x));
        }
    }
}

/// The rendering of areas: one area is its names joined by the
/// enumeration comma; several areas each carry their name in front.
pub open spec fn display_spec(areas: Seq<Seq<Resistance>>, ns: Seq<Seq<char>>) -> Seq<char> {
    if areas.len() == 1 {
        join_sep(areas[0].map_values(|x: Resistance| x.label()), "、"@)
    } else {
        join_sep(
            Seq::new(
                areas.len(),
                |i: int| ns[i] + "は "@ + join_sep(
                    areas[i].map_values(|x: Resistance| x.label()),
                    "、"@,
                ),
            ),
            "、"@,
        )
    }
}

/// A concatenation holds a resistance no matter the order of its parts.
proof fn lemma_holds_concat_sym(a: Seq<Resistance>, b: Seq<Resistance>, x: Resistance)
    ensures
        holds_res(a + b, x) <==> holds_res(b + a, x),
{
    assert(forall|i: int| 0 <= i < a.len() ==> (a + b)[i] == a[i] && (b + a)[b.len() + i] == a[i]);
    assert(forall|i: int| 0 <= i < b.len() ==> (a + b)[a.len() + i] == b[i] && (b + a)[i] == b[i]);
    if holds_res(a + b, x) {
        let i = choose|i: int| 0 <= i < (a + b).len() && (a + b)[i].same_spec(x);
        if i < a.len() {
            assert((b + a)[b.len() + i].same_spec(x));
        } else {
            assert((b + a)[i - a.len()].same_spec(x));
        }
    }
    if holds_res(b + a, x) {
        let i = choose|i: int| 0 <= i < (b + a).len() && (b + a)[i].same_spec(x);
        if i < b.len() {
            assert((a + b)[a.len() + i].same_spec(x));
        } else {
            assert((a + b)[i - b.len()].same_spec(x));
        }
    }
}

/// Joining is commutative: both orders give the same area count, and
/// areas that list the same resistances, under the same display names,
/// at the same places.
pub proof fn lemma_join_commutes(a: Seq<Seq<Resistance>>, b: Seq<Seq<Resistance>>)
    requires
        a.len() >= 1,
        b.len() >= 1,
    ensures
        join_areas(a, b).len() == join_areas(b, a).len(),
        forall|i: int|
            0 <= i < join_areas(a, b).len() ==> (#[trigger] join_areas(a, b)[i]).map_values(
                |x: Resistance| x.label(),
            ) == join_areas(b, a)[i].map_values(|x: Resistance| x.label()),
{
    assert forall|i: int|
        0 <= i < join_areas(a, b).len() implies (#[trigger] join_areas(a, b)[i]).map_values(
        |x: Resistance| x.label(),
    ) == join_areas(b, a)[i].map_values(|x: Resistance| x.label()) by {
        if a.len() == b.len() {
            let x = a[i];
            let y = b[i % b.len() as int];
            assert(i % b.len() as int == i && i % a.len() as int == i) by {
                vstd::arithmetic::div_mod::lemma_small_mod(i as nat, b.len());
                vstd::arithmetic::div_mod::lemma_small_mod(i as nat, a.len());
            }
            let e1 = join_areas(a, b)[i];
            let e2 = join_areas(b, a)[i];
            assert(e1 == sort_res_spec(dedup_res(y + x)));
            assert(e2 == sort_res_spec(dedup_res(x + y)));
            lemma_join_area_canonical(y, x);
            lemma_join_area_canonical(x, y);
            lemma_dedup_distinct(y + x);
            lemma_dedup_distinct(x + y);
            lemma_sort_samespec_distinct(dedup_res(y + x));
            lemma_sort_samespec_distinct(dedup_res(x + y));
            assert forall|e: Resistance| holds_res(e1, e) <==> holds_res(e2, e) by {
                lemma_holds_concat_sym(y, x, e);
            }
            lemma_sorted_unique(e1, e2);
            assert forall|k: int|
                0 <= k < e1.len() implies #[trigger] e1[k].label() == e2[k].label() by {
                assert(e1[k].same_spec(e2[k]));
            }
            assert(e1.map_values(|x2: Resistance| x2.label()) =~= e2.map_values(
                |x2: Resistance| x2.label(),
            ));
        } else {
            assert(join_areas(a, b)[i] == join_areas(b, a)[i]);
            assert(join_areas(a, b)[i].map_values(|x2: Resistance| x2.label()) =~= join_areas(
                b,
                a,
            )[i].map_values(|x2: Resistance| x2.label()));
        }
    }
}

/// Resistances grouped by battle area.
#[derive(Debug)]
pub struct Resistances {
    pub inner: Vec<Vec<Resistance>>,
}

impl Resistances {
    /// The areas, as sequences of resistances.
    pub open spec fn areas(self) -> Seq<Seq<Resistance>> {
        self.inner@.map_values(|v: Vec<Resistance>| v@)
    }

    /// One empty area.
    pub fn new() -> (r: Resistances)
        ensures
            r.areas() =~= seq![Seq::<Resistance>::empty()],
    {
        let mut inner: Vec<Vec<Resistance>> = Vec::new();
        inner.push(Vec::new());
        r_from(inner)
    }

    /// Wrap explicit areas.
    pub fn from_areas(inner: Vec<Vec<Resistance>>) -> (r: Resistances)
        ensures
            r.areas() == inner@.map_values(|v: Vec<Resistance>| v@),
    {
        Resistances { inner }
    }

    /// The number of areas.
    pub fn area_count(&self) -> (r: usize)
        ensures
            r == self.areas().len(),
    {
        self.inner.len()
    }

    /// Join with another set of areas: the longer list of areas is kept,
    /// the shorter cycles along it, and each pair of areas is unioned
    /// with first occurrences kept.  The area counts must match, or one
    /// of them must be a single area.
    pub fn join(&self, other: &Resistances) -> (r: Resistances)
        requires
            self.areas().len() >= 1,
            other.areas().len() >= 1,
            self.areas().len() == other.areas().len() || self.areas().len() == 1 || other.areas().len() == 1,
        ensures
            r.areas() =~= join_areas(self.areas(), other.areas()),
            r.areas().len() == (if self.areas().len() > other.areas().len() {
                self.areas().len()
            } else {
                other.areas().len()
            }),
            forall|i: int|
                0 <= i < r.areas().len() ==> sorted_res(#[trigger] r.areas()[i])
                    && r.areas()[i].no_duplicates(),
    {
        let (larger, smaller): (&Resistances, &Resistances) = if self.inner.len()
            > other.inner.len() {
            (self, other)
        } else {
            (other, self)
        };
        let ghost lv = larger.areas();
        let ghost sv = smaller.areas();
        let mut out: Vec<Vec<Resistance>> = Vec::new();
        let mut i: usize = 0;
        while i < larger.inner.len()
            invariant
                i <= lv.len(),
                lv == larger.areas(),
                sv == smaller.areas(),
                sv.len() >= 1,
                lv.len() == larger.inner@.len(),
                sv.len() == smaller.inner@.len(),
                out@.len() == i,
                forall|k: int|
                    0 <= k < i ==> (#[trigger] out@[k])@ == sort_res_spec(
                        dedup_res(lv[k] + sv[k % sv.len() as int]),
                    ),
            decreases lv.len() - i,
        {
            let merged = union_area(&larger.inner[i], &smaller.inner[i % smaller.inner.len()]);
            let canonical = sort_resistances(&merged);
            out.push(canonical);
            i = i + 1;
        }
        proof {
            let f = |k: int| sort_res_spec(dedup_res(lv[k] + sv[k % sv.len() as int]));
            assert(out@.map_values(|v: Vec<Resistance>| v@) =~= Seq::new(lv.len(), f));
            assert forall|k: int|
                0 <= k < lv.len() implies sorted_res(#[trigger] Seq::new(lv.len(), f)[k]) && Seq::new(
                lv.len(),
                f,
            )[k].no_duplicates() by {
                lemma_join_area_canonical(lv[k], sv[k % sv.len() as int]);
            }
        }
        r_from(out)
    }

    /// Render the areas: one area is its names joined by the enumeration
    /// comma; several areas each carry their area name in front, the
    /// groups joined by the same comma.
    pub fn display(&self, area_names: Option<&Vec<String>>) -> (r: String)
        requires
            self.areas().len() >= 1,
            self.areas().len() > 1 ==> (area_names matches Some(ns) && ns@.len()
                >= self.areas().len()),
        ensures
            self.areas().len() == 1 ==> r@ == display_spec(self.areas(), Seq::empty()),
            self.areas().len() > 1 ==> (area_names matches Some(ns) && r@ == display_spec(
                self.areas(),
                ns@.map_values(|n: String| n@),
            )),
    {
        if self.inner.len() == 1 {
            let names = labels_of(&self.inner[0]);
            join_strings(&names, "、")
        } else {
            let ns = match area_names {
                Some(ns) => ns,
                None => {
                    proof {
                        assert(false);
                    }
                    return String::new();
                },
            };
            let ghost gspec = Seq::new(
                self.areas().len(),
                |i: int| ns@[i]@ + "は "@ + join_sep(
                    self.areas()[i].map_values(|x: Resistance| x.label()),
                    "、"@,
                ),
            );
            let mut groups: Vec<String> = Vec::new();
            let mut i: usize = 0;
            while i < self.inner.len()
                invariant
                    i <= self.inner@.len(),
                    ns@.len() >= self.inner@.len(),
                    groups@.len() == i,
                    gspec == Seq::new(
                        self.areas().len(),
                        |k: int| ns@[k]@ + "は "@ + join_sep(
                            self.areas()[k].map_values(|x: Resistance| x.label()),
                            "、"@,
                        ),
                    ),
                    self.areas().len() == self.inner@.len(),
                    forall|k: int| 0 <= k < i ==> (#[trigger] groups@[k])@ == gspec[k],
                decreases self.inner@.len() - i,
            {
                let names = labels_of(&self.inner[i]);
                let mut g = ns[i].clone();
                g.append("は ");
                g.append(join_strings(&names, "、").as_str());
                groups.push(g);
                i = i + 1;
            }
            let out = join_strings(&groups, "、");
            proof {
                assert(groups@.map_values(|p: String| p@) =~= gspec);
                assert(gspec =~= Seq::new(
                    self.areas().len(),
                    |i: int| ns@.map_values(|n: String| n@)[i] + "は "@ + join_sep(
                        self.areas()[i].map_values(|x: Resistance| x.label()),
                        "、"@,
                    ),
                ));
            }
            out
        }
    }
}

fn r_from(inner: Vec<Vec<Resistance>>) -> (r: Resistances)
    ensures
        r.areas() == inner@.map_values(|v: Vec<Resistance>| v@),
{
    Resistances { inner }
}

/// The display names of the given resistances, in order.
fn labels_of(s: &Vec<Resistance>) -> (r: Vec<String>)
    ensures
        r@.map_values(|p: String| p@) =~= s@.map_values(|x: Resistance| x.label()),
{
    let mut out: Vec<String> = Vec::new();
    let mut i: usize = 0;
    while i < s.len()
        invariant
            i <= s@.len(),
            out@.len() == i,
            forall|k: int| 0 <= k < i ==> (#[trigger] out@[k])@ == s@[k].label(),
        decreases s@.len() - i,
    {
        let name = s[i].display_name();
        out.push(name);
        i = i + 1;
    }
    proof {
        assert(out@.map_values(|p: String| p@) =~= s@.map_values(|x: Resistance| x.label()));
    }
    out
}

/// The union of two areas, first occurrences kept.
fn union_area(a: &Vec<Resistance>, b: &Vec<Resistance>) -> (r: Vec<Resistance>)
    ensures
        r@ == dedup_res(a@ + b@),
{
    let ghost whole = a@ + b@;
    let mut out: Vec<Resistance> = Vec::new();
    let mut i: usize = 0;
    proof {
        assert(whole.take(0) =~= Seq::<Resistance>::empty());
    }
    while i < a.len()
        invariant
            i <= a@.len(),
            whole == a@ + b@,
            out@ == dedup_res(whole.take(i as int)),
        decreases a@.len() - i,
    {
        proof {
            assert(whole.take(i as int + 1).drop_last() =~= whole.take(i as int));
            assert(whole.take(i as int + 1).last() == a@[i as int]);
        }
        push_unless_held(&mut out, &a[i]);
        i = i + 1;
    }
    let mut j: usize = 0;
    while j < b.len()
        invariant
            j <= b@.len(),
            whole == a@ + b@,
            out@ == dedup_res(whole.take(a@.len() + j)),
        decreases b@.len() - j,
    {
        proof {
            assert(whole.take(a@.len() + j + 1).drop_last() =~= whole.take(a@.len() + j));
            assert(whole.take(a@.len() + j + 1).last() == b@[j as int]);
        }
        push_unless_held(&mut out, &b[j]);
        j = j + 1;
    }
    proof {
        assert(whole.take(whole.len() as int) =~= whole);
    }
    out
}

/// Lexicographic comparison of two names.
fn lex_le_x(x: &String, y: &String) -> (r: bool)
    ensures
        r == lex_le(x@, y@),
{
    let xs = string_to_chars(x.as_str());
    let ys = string_to_chars(y.as_str());
    let mut i: usize = 0;
    proof {
        assert(x@.skip(0) =~= x@);
        assert(y@.skip(0) =~= y@);
    }
    while i < xs.len() && i < ys.len()
        invariant
            i <= xs@.len(),
            i <= ys@.len(),
            xs@ == x@,
            ys@ == y@,
            lex_le(x@, y@) == lex_le(x@.skip(i as int), y@.skip(i as int)),
        decreases xs@.len() - i,
    {
        proof {
            assert(x@.skip(i as int).skip(1) =~= x@.skip(i as int + 1));
            assert(y@.skip(i as int).skip(1) =~= y@.skip(i as int + 1));
        }
        if (xs[i] as u32) < (ys[i] as u32) {
            return true;
        }
        if (xs[i] as u32) > (ys[i] as u32) {
            return false;
        }
        i = i + 1;
    }
    i == xs.len()
}

/// Comparison in the declared order.
fn res_le_x(a: &Resistance, b: &Resistance) -> (r: bool)
    ensures
        r == res_le(*a, *b),
{
    let ra = a.rank();
    let rb = b.rank();
    if ra < rb {
        true
    } else if ra > rb {
        false
    } else {
        match (a, b) {
            (Resistance::Various(p), Resistance::Various(q)) => lex_le_x(p, q),
            _ => true,
        }
    }
}

/// `x` inserted into `v` at its place in the declared order.
fn insert_res_x(v: &Vec<Resistance>, x: Resistance) -> (r: Vec<Resistance>)
    ensures
        r@ == insert_res_spec(v@, x),
{
    let mut out: Vec<Resistance> = Vec::new();
    let mut i: usize = 0;
    proof {
        assert(v@.skip(0) =~= v@);
        assert(v@.take(0) =~= Seq::<Resistance>::empty());
        assert(Seq::<Resistance>::empty() + insert_res_spec(v@, x) =~= insert_res_spec(v@, x));
    }
    while i < v.len() && res_le_x(&v[i], &x)
        invariant
            i <= v@.len(),
            out@ == v@.take(i as int),
            insert_res_spec(v@, x) == out@ + insert_res_spec(v@.skip(i as int), x),
        decreases v@.len() - i,
    {
        proof {
            assert(v@.skip(i as int).skip(1) =~= v@.skip(i as int + 1));
            assert(v@.skip(i as int)[0] == v@[i as int]);
            assert(v@.take(i as int + 1) =~= v@.take(i as int).push(v@[i as int]));
            assert(out@ + (seq![v@[i as int]] + insert_res_spec(v@.skip(i as int + 1), x)) =~= out@.push(
                v@[i as int],
            ) + insert_res_spec(v@.skip(i as int + 1), x));
        }
        out.push(v[i].duplicate());
        i = i + 1;
    }
    proof {
        let tail = v@.skip(i as int);
        if tail.len() == 0 {
            assert(seq![x] + tail =~= seq![x]);
        } else {
            assert(tail[0] == v@[i as int]);
        }
        assert(insert_res_spec(tail, x) == seq![x] + tail);
        assert(out@ + (seq![x] + tail) =~= out@.push(x) + tail);
    }
    out.push(x);
    let mut j: usize = i;
    while j < v.len()
        invariant
            i <= j <= v@.len(),
            out@ + v@.skip(j as int) == insert_res_spec(v@, x),
        decreases v@.len() - j,
    {
        proof {
            assert(v@.skip(j as int).skip(1) =~= v@.skip(j as int + 1));
            assert(v@.skip(j as int)[0] == v@[j as int]);
            assert(out@ + (seq![v@[j as int]] + v@.skip(j as int + 1)) =~= out@.push(v@[j as int])
                + v@.skip(j as int + 1));
            assert(v@.skip(j as int) =~= seq![v@[j as int]] + v@.skip(j as int + 1));
        }
        out.push(v[j].duplicate());
        j = j + 1;
    }
    proof {
        assert(v@.skip(v@.len() as int) =~= Seq::<Resistance>::empty());
        assert(out@ + Seq::<Resistance>::empty() =~= out@);
    }
    out
}

/// Rearrange resistances into the declared order: the result is sorted,
/// holds the same multiset, and is duplicate-free where the input was.
pub fn sort_resistances(v: &Vec<Resistance>) -> (r: Vec<Resistance>)
    ensures
        r@ == sort_res_spec(v@),
        sorted_res(r@),
        r@.to_multiset() == v@.to_multiset(),
        v@.no_duplicates() ==> r@.no_duplicates(),
{
    let mut out: Vec<Resistance> = Vec::new();
    let mut i: usize = 0;
    proof {
        assert(v@.take(0) =~= Seq::<Resistance>::empty());
    }
    while i < v.len()
        invariant
            i <= v@.len(),
            out@ == sort_res_spec(v@.take(i as int)),
        decreases v@.len() - i,
    {
        proof {
            assert(v@.take(i as int + 1).drop_last() =~= v@.take(i as int));
            assert(v@.take(i as int + 1).last() == v@[i as int]);
        }
        out = insert_res_x(&out, v[i].duplicate());
        i = i + 1;
    }
    proof {
        broadcast use vstd::seq_lib::group_to_multiset_ensures;

        assert(v@.take(v@.len() as int) =~= v@);
        lemma_sort_res(v@);
        if v@.no_duplicates() {
            v@.lemma_multiset_has_no_duplicates();
            out@.lemma_multiset_has_no_duplicates_conv();
        }
    }
    out
}

/// Append `x` unless it is already present.
fn push_unless_held(out: &mut Vec<Resistance>, x: &Resistance)
    ensures
        final(out)@ == (if holds_res(old(out)@, *x) {
            old(out)@
        } else {
            old(out)@.push(*x)
        }),
{
    let mut k: usize = 0;
    while k < out.len()
        invariant
            k <= out@.len(),
            out@ == old(out)@,
            forall|m: int| 0 <= m < k ==> !(#[trigger] out@[m]).same_spec(*x),
        decreases out@.len() - k,
    {
        if out[k].same_as(x) {
            return ;
        }
        k = k + 1;
    }
    out.push(x.duplicate());
}

} // verus!
