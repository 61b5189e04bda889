use drakeema::civil::CivilTime;
use drakeema::seishugosha::{Seishugosha, SeishugoshaMonster};

fn c(y: i32, mo: u8, d: u8, h: u8, mi: u8, s: u8) -> CivilTime {
    CivilTime::new(y, mo, d, h, mi, s).unwrap()
}

fn ssgs_data() -> Seishugosha {
    let monsters = vec![
        SeishugoshaMonster {
            id: "regrog".to_string(),
            monster_id: "seishugosha_regrog".to_string(),
            offset: 0,
        },
        SeishugoshaMonster {
            id: "scorpide".to_string(),
            monster_id: "seishugosha_scorpide".to_string(),
            offset: 2,
        },
        SeishugoshaMonster {
            id: "jelzarg".to_string(),
            monster_id: "seishugosha_jelzarg".to_string(),
            offset: 1,
        },
        SeishugoshaMonster {
            id: "gardodon".to_string(),
            monster_id: "seishugosha_gardodon".to_string(),
            offset: 1,
        },
    ];
    Seishugosha::new(
        c(2018, 4, 20, 6, 0, 0),
        vec!["Ⅰ".to_string(), "Ⅱ".to_string(), "Ⅲ".to_string()],
        monsters,
        "本日の 聖守護者の闘戦記 は……\n".to_string(),
        "__NAME__：__LEVEL__".to_string(),
        "\n……です！".to_string(),
        "本日の __NAME__ は __LEVEL__ です！あると良い耐性は __RESISTANCES__ です！".to_string(),
        "(?:聖?守護者|(?:せい)?しゅごしゃ|(?:セイ)?シュゴシャ|(?:ｾｲ)?ｼｭｺﾞｼｬ|闘戦記|とうせんき|トウセンキ|ﾄｳｾﾝｷ)".to_string(),
    )
    .unwrap()
}

#[test]
fn test_positive() {
    let ssgs = ssgs_data();

    assert_eq!(ssgs.level_name(&c(2018, 4, 20, 6, 0, 0), 0), "Ⅰ");
    // Edge of first day
    assert_eq!(ssgs.level_name(&c(2018, 4, 21, 5, 59, 59), 0), "Ⅰ");
    assert_eq!(ssgs.level_name(&c(2018, 4, 21, 6, 0, 0), 0), "Ⅱ");
    assert_eq!(ssgs.level_name(&c(2018, 4, 22, 6, 0, 0), 0), "Ⅲ");
    assert_eq!(ssgs.level_name(&c(2018, 4, 23, 6, 0, 0), 0), "Ⅰ");
}

#[test]
fn test_negative() {
    let ssgs = ssgs_data();

    assert_eq!(ssgs.level_name(&c(2018, 4, 20, 6, 0, 0), 0), "Ⅰ");
    // Edge of 1 day ago
    assert_eq!(ssgs.level_name(&c(2018, 4, 20, 5, 59, 59), 0), "Ⅲ");
    assert_eq!(ssgs.level_name(&c(2018, 4, 19, 6, 0, 0), 0), "Ⅲ");
    assert_eq!(ssgs.level_name(&c(2018, 4, 18, 6, 0, 0), 0), "Ⅱ");
    assert_eq!(ssgs.level_name(&c(2018, 4, 17, 6, 0, 0), 0), "Ⅰ");
    assert_eq!(ssgs.level_name(&c(2018, 4, 16, 6, 0, 0), 0), "Ⅲ");
}

#[test]
fn seishugosha_offsets_shift_levels() {
    let ssgs = ssgs_data();

    // At the reference, an offset of two shows the third level.
    assert_eq!(ssgs.level_name(&c(2018, 4, 20, 6, 0, 0), 2), "Ⅲ");
    assert_eq!(ssgs.level_name(&c(2018, 4, 20, 6, 0, 0), 1), "Ⅱ");
}
