use drakeema::civil::CivilTime;
use drakeema::features::ResponseCriteria;
use drakeema::keema::{Keema, Keyword};

fn c(y: i32, mo: u8, d: u8, h: u8, mi: u8, s: u8) -> CivilTime {
    CivilTime::new(y, mo, d, h, mi, s).unwrap()
}

fn kw(pattern: &str, responses: &[&str]) -> Keyword {
    Keyword {
        pattern: pattern.to_string(),
        responses: responses.iter().map(|r| r.to_string()).collect(),
    }
}

fn keema_data() -> Keema {
    Keema {
        keywords: vec![
            kw(
                "(?:簡単|かんたん|カンタン)な(?:事|こと|コト)",
                &[
                    ":x_ripo02: :x_dame:\n:x_ku02: とりあえずばつくれつけん！\n:x_pu02: よくわかんないけど悲しい…",
                    ":x_gyousha: 簡単なことですよ︎❤",
                ],
            ),
            kw(
                "[へヘﾍ][えエｴぇェｪ][ー〜]+[!！]*\\s*[いイｲ]{2}[ねネﾈ]",
                &[":x_ku02: ……ばくれちゅわ。", ":x_ripo02: :x_dame:"],
            ),
            kw("[欲ほ]しいな[あぁー〜]", &[":x_gyousha: お呼びですか？", ":x_exkun: でも全財産は1万7000ゴールド……"]),
            kw("ばくれちゅ[わは]", &[":x_ku01: ばくれちゅわ！"]),
            kw("(?:グローバルスター|ぐろーばるすたー)", &[":x_ripo01: 呼んだ？"]),
            kw("(?:しめ|シメ|ｼﾒ)(?:さば|サバ|ｻﾊﾞ)", &[":x_ku01: しめさばください！", ":x_ku01: しめさばおいしい！", ":x_ku01: しめさばは正義！"]),
        ],
    }
}

#[test]
fn test_is_match() {
    let keema = keema_data();
    assert!(keema
        .respond(&ResponseCriteria::new(c(2024, 1, 1, 12, 0, 0), "簡単なこと".to_string()))
        .is_some());
}

#[test]
fn test_is_not_match() {
    let keema = keema_data();
    assert!(keema
        .respond(&ResponseCriteria::new(c(2024, 1, 1, 12, 0, 0), "あいうえお".to_string()))
        .is_none());
}

#[test]
fn keema_second_picks_response() {
    let keema = keema_data();
    // The first keyword has two responses: seconds 0 and 1 pick each.
    let r0 = keema
        .respond(&ResponseCriteria::new(c(2024, 1, 1, 12, 0, 0), "簡単なこと".to_string()))
        .unwrap();
    let r1 = keema
        .respond(&ResponseCriteria::new(c(2024, 1, 1, 12, 0, 1), "簡単なこと".to_string()))
        .unwrap();
    assert!(r0.contains("ばつくれつけん"));
    assert_eq!(r1, ":x_gyousha: 簡単なことですよ︎❤");
}
