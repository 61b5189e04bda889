use drakeema::civil::CivilTime;
use drakeema::features::{AnnouncementCriteria, ResponseCriteria};
use drakeema::monsters::{Monster, Monsters};
use drakeema::panigulm::Panigulm;
use drakeema::resistances::{Resistance, Resistances};

fn c(y: i32, mo: u8, d: u8, h: u8, mi: u8, s: u8) -> CivilTime {
    CivilTime::new(y, mo, d, h, mi, s).unwrap()
}

const PANIGULM_IDS: [&str; 8] = [
    "panigulm_jigenryu",
    "panigulm_fordina",
    "panigulm_dydalmos",
    "panigulm_catcher",
    "panigulm_fulupotea",
    "panigulm_pultanus",
    "panigulm_elgios",
    "panigulm_almana",
];

fn panigulm_catalog() -> Monsters {
    Monsters {
        information: String::new(),
        information_without_resistance: String::new(),
        area_names: vec![],
        ignore_categories: vec![],
        inner: PANIGULM_IDS
            .iter()
            .map(|id| Monster {
                id: id.to_string(),
                category: "panigulm".to_string(),
                display: id.to_string(),
                official_name: id.to_string(),
                nickname_regex: "x^".to_string(),
                resistances: Resistances::from_areas(vec![vec![Resistance::Spell]]),
            })
            .collect(),
    }
}

fn panigulm_data() -> Panigulm {
    Panigulm::new(
        c(2025, 2, 1, 6, 0, 0),
        3,
        PANIGULM_IDS.iter().map(|id| id.to_string()).collect(),
        "本日の源世庫パニガルムは __MONSTER__ です！".to_string(),
        "源世庫パニガルムは本日から __MONSTER__、あると良い耐性は __RESISTANCES__ です！".to_string(),
        "本日の源世庫パニガルムは __MONSTER1__ です！明日からは __MONSTER2__ が始まります！".to_string(),
        "本日の源世庫パニガルムは __MONSTER__ です！あると良い耐性は __RESISTANCES__ です！".to_string(),
        "(?:(?:源世庫|げんせいこ|ゲンセイコ|ｹﾞﾝｾｲｺ)|(?:パニガルム|ぱにがるむ|ﾊﾟﾆｶﾞﾙﾑ|パニパニ|ぱにぱに|ﾊﾟﾆﾊﾟﾆ))".to_string(),
    )
    .unwrap()
}

#[test]
fn panigulm_test_current_positive() {
    let pani = panigulm_data();
    let catalog = panigulm_catalog();

    assert_eq!(pani.monster_at(&c(2025, 2, 1, 6, 0, 0)), "panigulm_jigenryu");
    assert_eq!(pani.monster_at(&c(2025, 2, 4, 5, 59, 59)), "panigulm_jigenryu");
    assert_eq!(pani.monster_at(&c(2025, 2, 4, 6, 0, 0)), "panigulm_fordina");
    assert_eq!(pani.monster_at(&c(2025, 2, 7, 5, 59, 59)), "panigulm_fordina");
    assert_eq!(pani.monster_at(&c(2025, 2, 7, 6, 0, 0)), "panigulm_dydalmos");
    assert_eq!(pani.monster_at(&c(2025, 2, 25, 5, 59, 59)), "panigulm_almana");
    assert_eq!(pani.monster_at(&c(2025, 2, 25, 6, 0, 0)), "panigulm_jigenryu");

    assert!(pani
        .announce(&catalog, &AnnouncementCriteria::new(c(2025, 2, 1, 6, 0, 0)))
        .is_some());
    assert!(pani
        .announce(&catalog, &AnnouncementCriteria::new(c(2022, 2, 4, 6, 0, 0)))
        .is_some());
    assert!(pani
        .announce(&catalog, &AnnouncementCriteria::new(c(2022, 2, 24, 5, 59, 59)))
        .is_some());
}

#[test]
fn panigulm_test_current_negative() {
    let pani = panigulm_data();

    assert_eq!(pani.monster_at(&c(2025, 2, 1, 5, 59, 59)), "panigulm_almana");
    assert_eq!(pani.monster_at(&c(2025, 1, 29, 6, 0, 0)), "panigulm_almana");
    assert_eq!(pani.monster_at(&c(2025, 1, 29, 5, 59, 59)), "panigulm_elgios");
    assert_eq!(pani.monster_at(&c(2025, 1, 26, 6, 0, 0)), "panigulm_elgios");
    assert_eq!(pani.monster_at(&c(2025, 1, 10, 5, 59, 59)), "panigulm_jigenryu");
    assert_eq!(pani.monster_at(&c(2025, 1, 8, 6, 0, 0)), "panigulm_jigenryu");
    assert_eq!(pani.monster_at(&c(2025, 1, 8, 5, 59, 59)), "panigulm_almana");
}

#[test]
fn test_respond() {
    let pani = panigulm_data();
    let catalog = panigulm_catalog();

    let rc = ResponseCriteria::new(c(2022, 2, 22, 7, 0, 0), "あああパニパニあああ".to_string());
    assert!(pani.respond(&catalog, &rc).is_some());

    let rc = ResponseCriteria::new(c(2022, 2, 22, 7, 0, 0), "源世庫".to_string());
    assert!(pani.respond(&catalog, &rc).is_some());

    let rc = ResponseCriteria::new(c(2022, 2, 22, 7, 0, 0), "パニゴロモ".to_string());
    assert!(pani.respond(&catalog, &rc).is_none());
}
