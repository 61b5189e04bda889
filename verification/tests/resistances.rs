use drakeema::resistances::{Resistance, Resistances};

#[test]
fn test_order() {
    assert!(Resistance::Spell < Resistance::Breath);
}

#[test]
fn test_sort() {
    let mut vec = vec![Resistance::Breath, Resistance::Spell];
    vec.sort();
    assert_eq!(vec, vec![Resistance::Spell, Resistance::Breath]);
}

#[test]
fn resistance_names_round_trip() {
    assert_eq!(Resistance::from_name(&"呪文".to_string()), Resistance::Spell);
    assert_eq!(Resistance::from_name(&"闇".to_string()), Resistance::Dark);
    assert_eq!(
        Resistance::from_name(&"謎の耐性".to_string()),
        Resistance::Various("謎の耐性".to_string())
    );
    assert_eq!(Resistance::Spell.display_name(), "呪文");
}

#[test]
fn resistances_display_single_area() {
    let r = Resistances::from_areas(vec![vec![
        Resistance::Spell,
        Resistance::Fear,
        Resistance::Ice,
        Resistance::Dark,
    ]]);
    assert_eq!(r.display(None), "呪文、おびえ、氷、闇");
}

#[test]
fn resistances_display_multiple_areas() {
    let r = Resistances::from_areas(vec![
        vec![Resistance::Spell],
        vec![Resistance::Flame, Resistance::Ice],
    ]);
    let names = vec!["一獄".to_string(), "二獄".to_string()];
    assert_eq!(r.display(Some(&names)), "一獄は 呪文、二獄は 炎、氷");
}

#[test]
fn resistances_join_unions_and_dedups() {
    // A joined area is the duplicate-free union, in the declared order.
    let a = Resistances::from_areas(vec![vec![Resistance::Ice, Resistance::Spell]]);
    let b = Resistances::from_areas(vec![vec![Resistance::Dark, Resistance::Ice]]);
    let joined = a.join(&b);
    assert_eq!(joined.display(None), "呪文、氷、闇");
}

#[test]
fn resistances_join_is_commutative() {
    let a = Resistances::from_areas(vec![vec![Resistance::Spell, Resistance::Ice]]);
    let b = Resistances::from_areas(vec![vec![Resistance::Ice, Resistance::Dark]]);
    assert_eq!(a.join(&b).display(None), b.join(&a).display(None));

    let fresh = Resistances::new();
    assert_eq!(a.join(&fresh).display(None), "呪文、氷");

    let various = Resistances::from_areas(vec![vec![
        Resistance::Various("い".to_string()),
        Resistance::Various("あ".to_string()),
        Resistance::Dark,
    ]]);
    assert_eq!(various.join(&fresh).display(None), "闇、あ、い");
}

#[test]
fn resistances_join_cycles_shorter_side() {
    let a = Resistances::from_areas(vec![
        vec![Resistance::Spell],
        vec![Resistance::Flame],
    ]);
    let b = Resistances::from_areas(vec![vec![Resistance::Dark]]);
    let joined = a.join(&b);
    let names = vec!["一獄".to_string(), "二獄".to_string()];
    assert_eq!(joined.display(Some(&names)), "一獄は 呪文、闇、二獄は 炎、闇");
}
