use drakeema::civil::CivilTime;
use drakeema::features::AnnouncementCriteria;
use drakeema::periodic_contents::{PeriodicContent, PeriodicContents};

fn c(y: i32, mo: u8, d: u8, h: u8, mi: u8, s: u8) -> CivilTime {
    CivilTime::new(y, mo, d, h, mi, s).unwrap()
}

fn pc_entry(id: &str, display: &str, months: Option<Vec<u8>>, days: Vec<u8>) -> PeriodicContent {
    PeriodicContent { id: id.to_string(), display: display.to_string(), months, days }
}

fn periodic_data() -> PeriodicContents {
    PeriodicContents {
        announcement_at_day: "__CONTENTS__です！".to_string(),
        announcement_at_day_before: "明日は__CONTENTS__です！".to_string(),
        contents: vec![
            pc_entry("tens_day", "テンの日", None, vec![10]),
            pc_entry("tens_day", "じゅうににち", None, vec![12]),
            pc_entry("tens_day", "12日", None, vec![12]),
            pc_entry("pukus_day_monthly", "プクの日", None, vec![29]),
            pc_entry("pukus_day_yearly", "プクの日", Some(vec![2]), vec![9]),
            pc_entry("foresdon_anniversary", "フォレスドンの誕生日", Some(vec![6]), vec![27]),
        ],
    }
}

#[test]
fn test_contents_at_day_is_exist() {
    let pc = periodic_data();

    let an = pc.announce(&AnnouncementCriteria::new(c(2020, 8, 10, 12, 0, 0)));
    assert_eq!(an.unwrap(), "テンの日です！");

    let an = pc.announce(&AnnouncementCriteria::new(c(2020, 8, 12, 12, 0, 0)));
    assert_eq!(an.unwrap(), "じゅうににちで12日です！");
}

#[test]
fn test_contents_at_day_before_is_exist() {
    let pc = periodic_data();

    let an = pc.announce(&AnnouncementCriteria::new(c(2020, 8, 9, 12, 0, 0)));
    assert_eq!(an.unwrap(), "明日はテンの日です！");
}

#[test]
fn test_contents_at_day_and_at_day_before_are_exist() {
    let pc = periodic_data();

    let an = pc.announce(&AnnouncementCriteria::new(c(2020, 2, 9, 12, 0, 0)));
    assert_eq!(an.unwrap(), "プクの日です！\n明日はテンの日です！");
}

#[test]
fn periodic_contents_test_contents_is_nothing() {
    let pc = periodic_data();

    let an = pc.announce(&AnnouncementCriteria::new(c(2020, 2, 5, 12, 0, 0)));
    assert!(an.is_none());
}
