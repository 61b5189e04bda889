use drakeema::boueigun::{Boueigun, BoueigunMonster};
use drakeema::civil::CivilTime;

fn c(y: i32, mo: u8, d: u8, h: u8, mi: u8, s: u8) -> CivilTime {
    CivilTime::new(y, mo, d, h, mi, s).unwrap()
}

fn bou_entry(id: &str, monster_id: &str, location: &str, duration: i64) -> BoueigunMonster {
    BoueigunMonster {
        id: id.to_string(),
        monster_id: monster_id.to_string(),
        location: location.to_string(),
        duration,
    }
}

fn bou_data() -> Boueigun {
    let monsters = vec![
        bou_entry("ryurin", "boueigun_ryurin", "岳都ガタラ", 60),
        bou_entry("nenkai", "boueigun_nenkai", "ツスクルの村", 60),
        bou_entry("karetsu1", "boueigun_karetsu", "ジュレットの町", 60),
        bou_entry("all1", "boueigun_all", "各地", 60),
        bou_entry("juga", "boueigun_juga", "獅子門", 60),
        bou_entry("tekki", "boueigun_tekki", "獅子門", 60),
        bou_entry("karetsu2", "boueigun_karetsu", "ジュレットの町", 60),
        bou_entry("all2", "boueigun_all", "各地", 60),
        bou_entry("zoma", "boueigun_zoma", "獅子門", 60),
        bou_entry("shigoku", "boueigun_shigoku", "ツスクルの村", 60),
        bou_entry("kyochu", "boueigun_kyochu", "チョッピ荒野", 60),
        bou_entry("all3", "boueigun_all", "各地", 60),
        bou_entry("kaiyo", "boueigun_kaiyo", "ジュレットの町", 60),
    ];
    let info = "現在アストルティア防衛軍は__LOCATION__で __CURRENT_MONSTER__ と交戦中です！\n__RESISTANCES__ の耐性があると良いようです！\nあと __REMAIN__ 分で __NEXT_MONSTER__ が攻めてきます！";
    Boueigun::new(
        c(2021, 11, 15, 6, 0, 0),
        monsters,
        info.to_string(),
        "(?:防衛軍|ぼうえいぐん|防衛)".to_string(),
    )
    .unwrap()
}

#[test]
fn boueigun_test_current_positive() {
    let bou = bou_data();

    assert_eq!(bou.current_status(&c(2021, 11, 15, 6, 0, 0)).current.id, "ryurin");
    assert_eq!(bou.current_status(&c(2021, 11, 15, 6, 59, 59)).current.id, "ryurin");
    assert_eq!(bou.current_status(&c(2021, 11, 15, 7, 0, 0)).current.id, "nenkai");

    // The cycle is 13 hours long: its last minute starts at 18:59.
    assert_eq!(bou.total_duration(), 780);
    assert_eq!(bou.current_status(&c(2021, 11, 15, 18, 59, 0)).current.id, "kaiyo");
    // The second lap.
    assert_eq!(bou.current_status(&c(2021, 11, 15, 19, 0, 0)).current.id, "ryurin");
}

#[test]
fn boueigun_test_current_negative() {
    let bou = bou_data();

    assert_eq!(bou.current_status(&c(2021, 11, 15, 5, 59, 59)).current.id, "kaiyo");
    assert_eq!(bou.current_status(&c(2021, 11, 15, 5, 0, 0)).current.id, "kaiyo");
    assert_eq!(bou.current_status(&c(2021, 11, 15, 4, 59, 59)).current.id, "all3");
    // The last minute of the previous lap's first item.
    assert_eq!(bou.current_status(&c(2021, 11, 14, 17, 1, 0)).current.id, "ryurin");
    // Exactly one lap back.
    assert_eq!(bou.current_status(&c(2021, 11, 14, 17, 0, 0)).current.id, "ryurin");
    // One unit before one lap back.
    assert_eq!(bou.current_status(&c(2021, 11, 14, 16, 59, 59)).current.id, "kaiyo");
}
