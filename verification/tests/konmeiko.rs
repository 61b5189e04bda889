use drakeema::civil::CivilTime;
use drakeema::features::{AnnouncementCriteria, ResponseCriteria};
use drakeema::konmeiko::{EventStatus, Konmeiko, KonmeikoMonster};
use drakeema::monsters::{Monster, Monsters};
use drakeema::resistances::{Resistance, Resistances};

fn c(y: i32, mo: u8, d: u8, h: u8, mi: u8, s: u8) -> CivilTime {
    CivilTime::new(y, mo, d, h, mi, s).unwrap()
}

fn konmeiko_catalog() -> Monsters {
    Monsters {
        information: String::new(),
        information_without_resistance: String::new(),
        area_names: vec![],
        ignore_categories: vec![],
        inner: vec![Monster {
            id: "konmeiko_jerodra".to_string(),
            category: "konmeiko".to_string(),
            display: "冥氷竜ジェロドーラ".to_string(),
            official_name: "冥氷竜ジェロドーラ".to_string(),
            nickname_regex: "ジェロドーラ".to_string(),
            resistances: Resistances::from_areas(vec![vec![
                Resistance::Spell,
                Resistance::Fear,
                Resistance::Ice,
                Resistance::Dark,
            ]]),
        }],
    }
}

fn konmeiko_data(num: usize) -> Konmeiko {
    let ids: Vec<&str> = match num {
        1 => vec!["jerodra"],
        3 => vec!["test1", "test2", "test3"],
        _ => panic!("unknown fixture"),
    };
    let monsters = ids
        .iter()
        .map(|id| KonmeikoMonster {
            id: id.to_string(),
            monster_id: "konmeiko_jerodra".to_string(),
        })
        .collect();
    Konmeiko::new(
        c(2024, 7, 1, 6, 0, 0),
        vec![1, 15],
        120,
        6,
        monsters,
        "本日の昏冥庫パニガルムは __MONSTERS__ です！__END_OF_TERM__まで開放されています！".to_string(),
        "昏冥庫パニガルムが開放されました！__END_OF_TERM__まで __MONSTERS__ と戦えます！__RESISTANCES__の耐性があると良いようです！".to_string(),
        "本日の昏冥庫パニガルムは __MONSTERS__ です！__END_OF_TERM__まで開放されています！__RESISTANCES__の耐性があると良いようです！".to_string(),
        "本日の昏冥庫パニガルムは開いてません！".to_string(),
        "(?:昏冥庫|こんめいこ|こんめーこ|混迷庫)".to_string(),
    )
    .unwrap()
}

#[test]
fn test_event_status() {
    let kmk = konmeiko_data(1);

    assert_eq!(
        kmk.event_status(&c(2024, 7, 1, 6, 0, 0)).unwrap(),
        EventStatus::StartOfTerm { start: c(2024, 7, 1, 6, 0, 0), end: c(2024, 7, 6, 6, 0, 0) }
    );
    assert_eq!(
        kmk.event_status(&c(2024, 7, 2, 9, 0, 0)).unwrap(),
        EventStatus::OnTerm { start: c(2024, 7, 1, 6, 0, 0), end: c(2024, 7, 6, 6, 0, 0) }
    );
    assert_eq!(
        kmk.event_status(&c(2024, 7, 6, 5, 59, 59)).unwrap(),
        EventStatus::OnTerm { start: c(2024, 7, 1, 6, 0, 0), end: c(2024, 7, 6, 6, 0, 0) }
    );
    assert_eq!(kmk.event_status(&c(2024, 7, 6, 6, 0, 0)).unwrap(), EventStatus::OutOfTerm);
    assert_eq!(kmk.event_status(&c(2024, 7, 10, 13, 0, 0)).unwrap(), EventStatus::OutOfTerm);
    assert_eq!(
        kmk.event_status(&c(2024, 7, 15, 6, 0, 0)).unwrap(),
        EventStatus::StartOfTerm { start: c(2024, 7, 15, 6, 0, 0), end: c(2024, 7, 20, 6, 0, 0) }
    );
    assert_eq!(
        kmk.event_status(&c(2024, 7, 16, 9, 0, 0)).unwrap(),
        EventStatus::OnTerm { start: c(2024, 7, 15, 6, 0, 0), end: c(2024, 7, 20, 6, 0, 0) }
    );
    assert_eq!(
        kmk.event_status(&c(2024, 7, 20, 5, 59, 59)).unwrap(),
        EventStatus::OnTerm { start: c(2024, 7, 15, 6, 0, 0), end: c(2024, 7, 20, 6, 0, 0) }
    );
    assert_eq!(kmk.event_status(&c(2024, 7, 20, 6, 0, 0)).unwrap(), EventStatus::OutOfTerm);
}

#[test]
fn konmeiko_short_month_opening_is_ambiguous() {
    // An opening day the month does not reach resolves to an explicit
    // error, never to a guessed instant.
    let kmk = Konmeiko::new(
        c(2024, 1, 31, 6, 0, 0),
        vec![31],
        120,
        6,
        vec![KonmeikoMonster { id: "one".to_string(), monster_id: "konmeiko_jerodra".to_string() }],
        String::new(),
        String::new(),
        String::new(),
        String::new(),
        String::new(),
    )
    .unwrap();
    assert_eq!(
        kmk.event_status(&c(2024, 2, 10, 12, 0, 0)),
        Err(drakeema::error::Error::AmbiguousLocalTime)
    );
    assert!(kmk.event_status(&c(2024, 1, 31, 12, 0, 0)).is_ok());
}

#[test]
fn test_monster_lotation() {
    let kmk = konmeiko_data(3);

    assert_eq!(kmk.current_monster(&c(2024, 7, 1, 6, 0, 0)).id, "test1");
    assert_eq!(kmk.current_monster(&c(2024, 7, 15, 6, 0, 0)).id, "test2");
    assert_eq!(kmk.current_monster(&c(2024, 8, 1, 6, 0, 0)).id, "test3");
    assert_eq!(kmk.current_monster(&c(2024, 8, 15, 6, 0, 0)).id, "test1");
    // 6 months later: 12 openings have passed.
    assert_eq!(kmk.current_monster(&c(2025, 1, 1, 6, 0, 0)).id, "test1");
    // 8 months later: 16 openings have passed.
    assert_eq!(kmk.current_monster(&c(2025, 3, 1, 6, 0, 0)).id, "test2");
    // 21 months later: 42 openings have passed, a whole number of laps.
    assert_eq!(kmk.current_monster(&c(2026, 4, 1, 6, 0, 0)).id, "test1");
}

#[test]
fn test_messages() {
    let kmk = konmeiko_data(1);
    let catalog = konmeiko_catalog();

    assert_eq!(
        kmk.announce(&catalog, &AnnouncementCriteria::new(c(2024, 7, 1, 6, 0, 0)))
            .unwrap()
            .unwrap(),
        "昏冥庫パニガルムが開放されました！2024年7月6日の6時まで 冥氷竜ジェロドーラ と戦えます！呪文、おびえ、氷、闇の耐性があると良いようです！"
    );
    assert_eq!(
        kmk.announce(&catalog, &AnnouncementCriteria::new(c(2024, 7, 6, 5, 59, 59)))
            .unwrap()
            .unwrap(),
        "本日の昏冥庫パニガルムは 冥氷竜ジェロドーラ です！2024年7月6日の6時まで開放されています！"
    );
    assert_eq!(
        kmk.announce(&catalog, &AnnouncementCriteria::new(c(2024, 7, 6, 6, 0, 0))).unwrap(),
        None
    );
    assert_eq!(
        kmk.respond(
            &catalog,
            &ResponseCriteria::new(c(2024, 7, 15, 6, 0, 0), "こんめーこ".to_string())
        )
        .unwrap()
        .unwrap(),
        "本日の昏冥庫パニガルムは 冥氷竜ジェロドーラ です！2024年7月20日の6時まで開放されています！呪文、おびえ、氷、闇の耐性があると良いようです！"
    );
    assert_eq!(
        kmk.respond(
            &catalog,
            &ResponseCriteria::new(c(2024, 7, 20, 6, 0, 0), "こんめーこ".to_string())
        )
        .unwrap()
        .unwrap(),
        "本日の昏冥庫パニガルムは開いてません！"
    );
}
