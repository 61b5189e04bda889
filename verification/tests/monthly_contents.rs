use drakeema::civil::CivilTime;
use drakeema::features::AnnouncementCriteria;
use drakeema::monthly_contents::{MonthlyContent, MonthlyContents};

fn c(y: i32, mo: u8, d: u8, h: u8, mi: u8, s: u8) -> CivilTime {
    CivilTime::new(y, mo, d, h, mi, s).unwrap()
}

fn monthly_data() -> MonthlyContents {
    MonthlyContents {
        announcement_at_start: "今期の__CONTENTS__は今日からです！".to_string(),
        announcement_at_end: "今期の__CONTENTS__は今日までです！".to_string(),
        contents: vec![
            MonthlyContent {
                id: "theatrical_chronicle".to_string(),
                display: " :m_nasubimera: シアトリカルクロニクル".to_string(),
                days: vec![1, 15],
            },
            MonthlyContent { id: "mato".to_string(), display: "不思議の魔塔".to_string(), days: vec![1] },
        ],
    }
}

#[test]
fn monthly_contents_test_contents_to_start_is_exist() {
    let pc = monthly_data();

    let an = pc.announce(&AnnouncementCriteria::new(c(2020, 8, 1, 12, 0, 0)));
    assert_eq!(an.unwrap(), "今期の :m_nasubimera: シアトリカルクロニクル、不思議の魔塔は今日からです！");

    let an = pc.announce(&AnnouncementCriteria::new(c(2020, 8, 15, 12, 0, 0)));
    assert_eq!(an.unwrap(), "今期の :m_nasubimera: シアトリカルクロニクルは今日からです！");
}

#[test]
fn monthly_contents_test_contents_to_end_is_exist() {
    let pc = monthly_data();

    let an = pc.announce(&AnnouncementCriteria::new(c(2020, 8, 31, 12, 0, 0)));
    assert_eq!(an.unwrap(), "今期の :m_nasubimera: シアトリカルクロニクル、不思議の魔塔は今日までです！");

    let an = pc.announce(&AnnouncementCriteria::new(c(2020, 8, 14, 12, 0, 0)));
    assert_eq!(an.unwrap(), "今期の :m_nasubimera: シアトリカルクロニクルは今日までです！");
}

#[test]
fn monthly_contents_test_contents_is_nothing() {
    let pc = monthly_data();

    let an = pc.announce(&AnnouncementCriteria::new(c(2020, 8, 16, 12, 0, 0)));
    assert!(an.is_none());
}
