use drakeema::civil::CivilTime;
use drakeema::jashin::{Jashin, Table, Title};

fn c(y: i32, mo: u8, d: u8, h: u8, mi: u8, s: u8) -> CivilTime {
    CivilTime::new(y, mo, d, h, mi, s).unwrap()
}

fn title(id: &str, display: &str, monster_ids: &[&str]) -> Title {
    Title {
        id: id.to_string(),
        display: display.to_string(),
        monster_ids: monster_ids.iter().map(|m| m.to_string()).collect(),
    }
}

fn jashin_data() -> Jashin {
    let reference = c(2020, 7, 10, 6, 0, 0);
    let table10 = Table::new(
        10,
        vec![
            title("five_elemental_armors", "五属性の災禍", &["jashin_armors"]),
            title("malucia_thoma", "闇に堕ちた英雄の幻影", &["jashin_malucia", "jashin_thoma"]),
            title("calamity_dream", "災いの神話と暴虐の悪夢", &["jashin_calamity", "jashin_dream"]),
            title("masako_pictures", "魔幻の覇王軍", &["jashin_masako", "jashin_pictures"]),
            title("raz_zel", "覇道の双璧", &["jashin_raz", "jashin_zel"]),
        ],
        reference,
    )
    .unwrap();
    let table25 = Table::new(
        25,
        vec![
            title("dream_masako", "破壊と創造の神々", &["jashin_dream", "jashin_masako"]),
            title("malucia_masako", "背離する魔族の血統", &["jashin_malucia", "jashin_masako"]),
            title("raz_pictures", "魔宮の守護者たち", &["jashin_raz", "jashin_pictures"]),
            title("dream_thoma", "昏き悪夢の衝撃", &["jashin_dream", "jashin_thoma"]),
            title("calamity_pictures", "災厄神話ギャラリー", &["jashin_calamity", "jashin_pictures"]),
            title("zel_masako", "覇業の君臣", &["jashin_zel", "jashin_masako"]),
            title("calamity_thoma", "悲劇の英雄譚", &["jashin_calamity", "jashin_thoma"]),
            title("dream_malucia", "見果てぬ夢の蛮勇", &["jashin_dream", "jashin_malucia"]),
            title("thoma_zel", "魔幻の最高幹部", &["jashin_thoma", "jashin_zel"]),
            title("calamity_malucia", "妖女と災獣", &["jashin_calamity", "jashin_malucia"]),
        ],
        reference,
    )
    .unwrap();
    Jashin::new(
        reference,
        vec![table10, table25],
        vec![
            "一獄".to_string(),
            "二獄".to_string(),
            "三獄".to_string(),
            "四獄".to_string(),
            "五獄".to_string(),
            "はい？獄".to_string(),
        ],
        "本日の邪神の宮殿は __TITLE__ です！".to_string(),
        "邪神の宮殿は本日から __TITLE__ です！相手は __MONSTERS__、あると良い耐性は __RESISTANCES__ です！".to_string(),
        "本日の邪神の宮殿は __TITLE1__ です！明日からは __TITLE2__ が始まります！".to_string(),
        "本日の邪神の宮殿は __TITLE__ です！相手は__MONSTERS__、あると良い耐性は __RESISTANCES__ です！".to_string(),
        "(?:邪神|じゃしん|ジャシン|ｼﾞｬｼﾝ)".to_string(),
    )
    .unwrap()
}

#[test]
fn test_title() {
    let jashin = jashin_data();

    // 1st title
    assert_eq!(jashin.title(&c(2020, 7, 10, 6, 0, 0)).id, "five_elemental_armors");
    // Edge of 1st title
    assert_eq!(jashin.title(&c(2020, 7, 25, 5, 59, 59)).id, "five_elemental_armors");
    // 2nd title
    assert_eq!(jashin.title(&c(2020, 7, 25, 6, 0, 0)).id, "dream_masako");
    // Edge of 2nd title
    assert_eq!(jashin.title(&c(2020, 8, 10, 5, 59, 59)).id, "dream_masako");
    // 3rd title
    assert_eq!(jashin.title(&c(2020, 8, 10, 6, 0, 0)).id, "malucia_thoma");
    // 4th title
    assert_eq!(jashin.title(&c(2020, 8, 25, 6, 0, 0)).id, "malucia_masako");
    // last title of 1st period of 1st table
    assert_eq!(jashin.title(&c(2020, 11, 10, 6, 0, 0)).id, "raz_zel");
    // 1st title of 2nd period of 1st table
    assert_eq!(jashin.title(&c(2020, 12, 10, 6, 0, 0)).id, "five_elemental_armors");
    // 6th title of 1st period of 2nd table
    assert_eq!(jashin.title(&c(2020, 12, 25, 6, 0, 0)).id, "zel_masako");
    // Last title of 1st period of 2nd table
    assert_eq!(jashin.title(&c(2021, 4, 25, 6, 0, 0)).id, "calamity_malucia");
    // 1st title of 2nd period of 2nd table
    assert_eq!(jashin.title(&c(2021, 5, 25, 6, 0, 0)).id, "dream_masako");
}

#[test]
fn test_past_date() {
    let jashin = jashin_data();

    // Edge of title before reference date
    assert_eq!(jashin.title(&c(2020, 7, 10, 5, 59, 59)).id, "calamity_malucia");
    assert_eq!(jashin.title(&c(2020, 6, 25, 6, 0, 0)).id, "calamity_malucia");
    // 2 titles before the reference date
    assert_eq!(jashin.title(&c(2020, 6, 10, 6, 0, 0)).id, "raz_zel");
}
