use drakeema::civil::CivilTime;
use drakeema::weekly_contents::{WeeklyContent, WeeklyContents};

fn c(y: i32, mo: u8, d: u8, h: u8, mi: u8, s: u8) -> CivilTime {
    CivilTime::new(y, mo, d, h, mi, s).unwrap()
}

fn wc_entry(id: &str, display: &str, reset_days: Vec<u8>) -> WeeklyContent {
    WeeklyContent { id: id.to_string(), display: display.to_string(), reset_days }
}

fn weekly_data() -> WeeklyContents {
    WeeklyContents {
        announcement_at_start: "今週の……\n__CONTENTS__\n……は、今日からです！".to_string(),
        announcement_at_end: "今週の……\n__CONTENTS__\n……は、今日までです！".to_string(),
        contents: vec![
            wc_entry("banma", "万魔の塔", vec![0]),
            wc_entry("shutobatsu", "レンダーシア討伐隊", vec![0]),
            wc_entry("pyramid", "ピラミッドの秘宝", vec![1]),
            wc_entry("shiren", "試練の門", vec![1]),
            wc_entry("ohke", "王家の迷宮", vec![2]),
            wc_entry("tatsujin", "達人クエスト", vec![0]),
            wc_entry("tarot", "モンスタータロット販売", vec![0]),
        ],
    }
}

#[test]
fn weekly_contents_test_contents_to_start_is_exist() {
    let wc = weekly_data();
    let sunday = c(2020, 8, 23, 12, 0, 0);
    let monday = c(2020, 8, 24, 12, 0, 0);
    let tuesday = c(2020, 8, 25, 12, 0, 0);

    assert!(!(wc.contents_to_start(&sunday).is_empty()));
    assert!(!(wc.contents_to_start(&monday).is_empty()));
    assert!(!(wc.contents_to_start(&tuesday).is_empty()));
}

#[test]
fn test_contents_to_start_is_not_exist() {
    let wc = weekly_data();
    let wednesday = c(2020, 8, 26, 12, 0, 0);
    let thursday = c(2020, 8, 27, 12, 0, 0);
    let friday = c(2020, 8, 28, 12, 0, 0);

    assert!(wc.contents_to_start(&wednesday).is_empty());
    assert!(wc.contents_to_start(&thursday).is_empty());
    assert!(wc.contents_to_start(&friday).is_empty());
}

#[test]
fn weekly_contents_test_contents_to_end_is_exist() {
    let wc = weekly_data();
    let saturday = c(2020, 8, 22, 12, 0, 0);
    let sunday = c(2020, 8, 23, 12, 0, 0);
    let monday = c(2020, 8, 24, 12, 0, 0);

    assert!(!(wc.contents_to_end(&saturday).is_empty()));
    assert!(!(wc.contents_to_end(&sunday).is_empty()));
    assert!(!(wc.contents_to_end(&monday).is_empty()));
}

#[test]
fn test_contents_to_end_is_not_exist() {
    let wc = weekly_data();
    let tuesday = c(2020, 8, 25, 12, 0, 0);
    let wednesday = c(2020, 8, 26, 12, 0, 0);
    let thursday = c(2020, 8, 27, 12, 0, 0);

    assert!(wc.contents_to_end(&tuesday).is_empty());
    assert!(wc.contents_to_end(&wednesday).is_empty());
    assert!(wc.contents_to_end(&thursday).is_empty());
}
