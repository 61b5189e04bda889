use drakeema::announcement_times::AnnouncementTimes;
use drakeema::civil::CivilTime;
use drakeema::error::Error;
use drakeema::feeds::{new_items_count, title_matches, Entry};
use drakeema::monsters::{Monster, Monsters};
use drakeema::rate_limit::RateLimit;
use drakeema::resistances::{Resistance, Resistances};
use drakeema::response::{FollowAction, NotificationConfig, NotificationProcessor, StatusConfig, StatusProcessor};
use drakeema::strutil::{i64_to_string, replace_token};
use drakeema::tmp_file::load_tmp_as_i64;
use drakeema::weekly_activity::WeeklyActivity;

fn c(y: i32, mo: u8, d: u8, h: u8, mi: u8, s: u8) -> CivilTime {
    CivilTime::new(y, mo, d, h, mi, s).unwrap()
}

#[test]
fn test_duration_secs() {
    let at = AnnouncementTimes::new(vec![6 * 3600 + 90, 18 * 3600 + 90]).unwrap();

    assert_eq!(at.duration_secs(&c(2020, 9, 6, 6, 1, 30)), 43200);
    assert_eq!(at.duration_secs(&c(2020, 9, 6, 6, 1, 31)), 43199);
    assert_eq!(at.duration_secs(&c(2020, 9, 6, 6, 1, 29)), 43201);
}

#[test]
fn civil_weekdays_and_day_steps() {
    // 2020-08-23 was a Sunday.
    assert_eq!(c(2020, 8, 23, 12, 0, 0).weekday_from_sunday(), 0);
    assert_eq!(c(2020, 8, 24, 12, 0, 0).weekday_from_sunday(), 1);

    // Month and year boundaries.
    assert_eq!(c(2020, 2, 28, 6, 0, 0).next_day(), c(2020, 2, 29, 6, 0, 0));
    assert_eq!(c(2021, 2, 28, 6, 0, 0).next_day(), c(2021, 3, 1, 6, 0, 0));
    assert_eq!(c(2020, 12, 31, 6, 0, 0).next_day(), c(2021, 1, 1, 6, 0, 0));
    assert_eq!(c(2021, 1, 1, 6, 0, 0).prev_day(), c(2020, 12, 31, 6, 0, 0));
    assert_eq!(c(2024, 7, 1, 6, 0, 0).plus_hours(120), c(2024, 7, 6, 6, 0, 0));
}

#[test]
fn civil_rejects_bad_dates() {
    assert!(CivilTime::new(2021, 2, 29, 6, 0, 0).is_none());
    assert!(CivilTime::new(2020, 13, 1, 6, 0, 0).is_none());
    assert!(CivilTime::new(2020, 4, 31, 6, 0, 0).is_none());
    assert!(CivilTime::new(2020, 4, 30, 24, 0, 0).is_none());
    assert!(CivilTime::new(2020, 2, 29, 6, 0, 0).is_some());
}

#[test]
fn replace_token_replaces_every_occurrence() {
    assert_eq!(replace_token("a__X__b__X__c", "__X__", "Z"), "aZbZc");
    assert_eq!(replace_token("nothing here", "__X__", "Z"), "nothing here");
    assert_eq!(replace_token("日本語__X__テキスト", "__X__", "置換"), "日本語置換テキスト");
}

#[test]
fn i64_to_string_renders_signs() {
    assert_eq!(i64_to_string(0), "0");
    assert_eq!(i64_to_string(47), "47");
    assert_eq!(i64_to_string(-1234567), "-1234567");
}

#[test]
fn load_tmp_parses_integers() {
    assert_eq!(load_tmp_as_i64(None), Ok(None));
    assert_eq!(load_tmp_as_i64(Some("12345".to_string())), Ok(Some(12345)));
    assert_eq!(load_tmp_as_i64(Some("-42".to_string())), Ok(Some(-42)));
    assert_eq!(load_tmp_as_i64(Some("+7".to_string())), Ok(Some(7)));
    assert_eq!(load_tmp_as_i64(Some("  1598227200\n".to_string())), Ok(Some(1598227200)));
    assert_eq!(load_tmp_as_i64(Some("00000000000000000000042".to_string())), Ok(Some(42)));
    assert_eq!(
        load_tmp_as_i64(Some("9223372036854775807".to_string())),
        Ok(Some(i64::MAX))
    );
    assert_eq!(
        load_tmp_as_i64(Some("-9223372036854775808".to_string())),
        Ok(Some(i64::MIN))
    );
    assert!(matches!(
        load_tmp_as_i64(Some("9223372036854775808".to_string())),
        Err(Error::TmpDataFormat(_))
    ));
    assert!(matches!(
        load_tmp_as_i64(Some("12a45".to_string())),
        Err(Error::TmpDataFormat(_))
    ));
    assert!(matches!(load_tmp_as_i64(Some("".to_string())), Err(Error::TmpDataFormat(_))));
    assert!(matches!(load_tmp_as_i64(Some("  ".to_string())), Err(Error::TmpDataFormat(_))));
}

#[test]
fn rate_limit_counts_and_resets() {
    let mut rl = RateLimit::new(2, c(2024, 1, 1, 12, 0, 0));
    assert_eq!(rl.increment(c(2024, 1, 1, 12, 0, 10)), Ok(1));
    assert_eq!(rl.increment(c(2024, 1, 1, 12, 0, 20)), Ok(2));
    assert_eq!(
        rl.increment(c(2024, 1, 1, 12, 0, 30)),
        Err(Error::ExceedRateLimit(2))
    );
    // More than the reset interval after the anchor, the window restarts.
    assert_eq!(rl.increment(c(2024, 1, 1, 12, 1, 1)), Ok(1));
}

#[test]
fn weekly_activity_announces_new_weeks_only() {
    let wa = WeeklyActivity {
        announcement: "__START_DATE__〜__END_DATE__: __ACTIVE_USER__人が__STATUS_COUNT__投稿"
            .to_string(),
    };
    let start = c(2020, 8, 17, 0, 0, 0);
    assert_eq!(wa.announce_week(100, 100, &start, 12, 345), None);
    assert_eq!(
        wa.announce_week(101, 100, &start, 12, 345).unwrap(),
        "2020-08-17〜2020-08-23: 12人が345投稿"
    );
}

#[test]
fn feeds_pick_new_entries_and_titles() {
    let ids = vec!["e3".to_string(), "e2".to_string(), "e1".to_string()];
    assert_eq!(new_items_count(&ids, None), 3);
    assert_eq!(new_items_count(&ids, Some(&"e1".to_string())), 2);
    assert_eq!(new_items_count(&ids, Some(&"e3".to_string())), 0);
    assert_eq!(new_items_count(&ids, Some(&"gone".to_string())), 3);

    let patterns = vec!["ドラゴンクエスト".to_string()];
    assert!(title_matches(&patterns, "ドラゴンクエストXの新情報"));
    assert!(!title_matches(&patterns, "無関係の記事"));

    let e = Entry {
        title: "新情報".to_string(),
        authors: Some("編集部".to_string()),
        link: "https://example.jp/1".to_string(),
    };
    assert_eq!(e.build_text(), "新情報 [編集部]\n\nhttps://example.jp/1");
    let e = Entry { title: "新情報".to_string(), authors: None, link: "https://example.jp/1".to_string() };
    assert_eq!(e.build_text(), "新情報\n\nhttps://example.jp/1");
}

fn status_processor() -> StatusProcessor {
    StatusProcessor {
        config: StatusConfig {
            keemasan_regex: "キーマさん".to_string(),
            oshiete_regex: "(?:(?:おし|教)えて|(?:てぃーち|ティーチ|ﾃｨーﾁ)\\s*(?:みー|ミー|ﾐー))".to_string(),
            healthcheck_regex: "(?:(?:元気|げんき|ゲンキ|ｹﾞﾝｷ)(?:!|！)*(?:？|\\?))".to_string(),
            healthcheck_responses: vec!["元気です！".to_string(), "元気な場合がある。".to_string()],
            can_i_regex: "(?:いい|イイ|良い)(?:ですか|かな|の|かしら)*[!！]*[?？]".to_string(),
            can_i_responses: vec!["どうぞ！".to_string(), "ダメです！".to_string()],
            can_i_poll_secs: vec![41],
            can_i_poll_options: vec!["はい".to_string(), "いいえ".to_string()],
            can_i_poll_expires_in: 300,
            ignore_acct_regex: vec![
                "@example.com$".to_string(),
                "^hoge@fuga.com$".to_string(),
                "hoge.foresdon.jp$".to_string(),
            ],
            tag_p_regex: "</?[pP][^>]*>".to_string(),
            tag_other_regex: "</?[^>]+>".to_string(),
        },
    }
}

#[test]
fn status_test_is_ignore() {
    let resp = status_processor();

    assert!(resp.is_ignore("hoge@example.com"));
    assert!(resp.is_ignore("hoge@fuga.com"));
    assert!(resp.is_ignore("hoge@fuga.pya.hoge.foresdon.jp"));
    assert!(!resp.is_ignore("kedama@foresdon.jp"));
}

#[test]
fn response_status_test_is_ignore() {
    let resp = status_processor();

    assert!(resp.is_ignore("hoge@example.com"));
    assert!(resp.is_ignore("hoge@fuga.com"));
    assert!(resp.is_ignore("hoge@fuga.pya.hoge.foresdon.jp"));
    assert!(!resp.is_ignore("kedama@foresdon.jp"));
}

#[test]
fn status_processor_decides_replies() {
    let resp = status_processor();
    let acct = "kedama@foresdon.jp".to_string();

    // An ignored account gets nothing.
    assert!(resp
        .process_status(&"hoge@example.com".to_string(), "キーマさん教えて", false, 0, None, None)
        .is_none());

    // A question gets the features' joined reply, or a shrug.
    let r = resp
        .process_status(&acct, "キーマさん教えて", false, 0, Some("本日の邪神".to_string()), None)
        .unwrap();
    assert_eq!(r.text, "本日の邪神");
    assert!(r.mention && r.keep_reply_id && !r.force_public);
    let r = resp.process_status(&acct, "キーマさん教えて", false, 0, None, None).unwrap();
    assert_eq!(r.text, "？");

    // A health check picks a canned response by the second.
    let r = resp.process_status(&acct, "キーマさん元気？", false, 1, None, None).unwrap();
    assert_eq!(r.text, "元気な場合がある。");

    // A permission question on a poll second becomes a public poll.
    let r = resp
        .process_status(&acct, "<p>キーマさん いいですか？</p>", false, 41, None, None)
        .unwrap();
    assert!(r.force_public && !r.mention && r.poll.is_some());
    assert_eq!(r.text, "\n いいですか？\n");

    // Anything else falls through to the banter reply.
    let r = resp.process_status(&acct, "しめさば", false, 0, None, Some("しめさばください！".to_string()));
    assert_eq!(r.unwrap().text, "しめさばください！");
    assert!(resp.process_status(&acct, "しめさば", false, 0, None, None).is_none());
}

#[test]
fn notification_processor_decides_follows() {
    let np = NotificationProcessor {
        config: NotificationConfig {
            follow_regex: "フォロー".to_string(),
            unfollow_regex: "解除".to_string(),
            followed_message: "フォローしました！".to_string(),
            unfollowed_message: "解除しました！".to_string(),
        },
    };
    assert!(matches!(np.process("フォローして"), FollowAction::Follow { .. }));
    assert!(matches!(np.process("解除して"), FollowAction::Unfollow { .. }));
    assert!(matches!(np.process("こんにちは"), FollowAction::NoAction));
}

#[test]
fn monsters_check_ids_reports_the_unknown_one() {
    let catalog = Monsters {
        information: String::new(),
        information_without_resistance: String::new(),
        area_names: vec![],
        ignore_categories: vec![],
        inner: vec![Monster {
            id: "known".to_string(),
            category: "c".to_string(),
            display: "d".to_string(),
            official_name: "o".to_string(),
            nickname_regex: "x^".to_string(),
            resistances: Resistances::from_areas(vec![vec![Resistance::Spell]]),
        }],
    };
    assert!(catalog.check_ids(&vec!["known".to_string()]).is_ok());
    assert!(matches!(
        catalog.check_ids(&vec!["known".to_string(), "missing".to_string()]),
        Err(Error::UnknownMonsterId(id)) if id == "missing"
    ));
}

#[test]
fn monsters_reaction_lists_matching_monsters() {
    let catalog = Monsters {
        information: "__NAME__ の耐性は __RESISTANCES__ です".to_string(),
        information_without_resistance: "__NAME__ に耐性はいりません".to_string(),
        area_names: vec![],
        ignore_categories: vec!["ignored".to_string()],
        inner: vec![
            Monster {
                id: "m1".to_string(),
                category: "normal".to_string(),
                display: "スライム".to_string(),
                official_name: "スライム".to_string(),
                nickname_regex: "すらいむ".to_string(),
                resistances: Resistances::from_areas(vec![vec![Resistance::Spell]]),
            },
            Monster {
                id: "m2".to_string(),
                category: "ignored".to_string(),
                display: "かくれんぼ".to_string(),
                official_name: "かくれんぼ".to_string(),
                nickname_regex: "すらいむ".to_string(),
                resistances: Resistances::from_areas(vec![vec![Resistance::Spell]]),
            },
        ],
    };
    let r = catalog.reaction("すらいむをさがしています").unwrap();
    assert_eq!(r, "スライム の耐性は 呪文 です");
    assert!(catalog.reaction("関係ない話").is_none());
}
