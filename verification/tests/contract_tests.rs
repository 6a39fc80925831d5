use chrono::TimeZone;
use picacg_app::local::first_image;
use picacg_app::nas::{NasRemoteEntry, NasState, UploadTally};
use picacg_app::reader::{handle_all_pictures_loaded, PageMeta};
use picacg_app::settings::FilterSettingsState;
use picacg_app::webdav::{
    parse_propfind_response, propfind_status_error, read_propfind_lowered,
    try_parse_propfind_response,
};
use picacg_app::cards::format_timestamp;
use picacg_app::login::{LoginEnter, LoginFormState};
use picacg_app::reader::{
    handle_pictures_loaded, history_chapter_title, Episode, Picture, PicturesLoaded, ReadMode,
    ReaderState,
};
use picacg_app::register::{Gender, RegisterFormState};
use picacg_app::settings::{proxy_host_display, proxy_port_display, MaxConcurrentDownloadsState};

fn reader() -> ReaderState {
    ReaderState {
        comic_id: "c".to_string(),
        comic_title: "T".to_string(),
        episodes: vec![Episode { order: 1, title: "序章".to_string() }],
        current_episode_idx: 0,
        episode_order: 1,
        current_page: 0,
        total_pages: 0,
        pictures: Vec::new(),
        page_metas: Vec::new(),
        is_loading: false,
        error: None,
        is_loading_next_chapter: false,
        next_chapter_pictures: Vec::new(),
        is_loading_all_chapters: false,
        read_mode: ReadMode::SinglePage,
        anchor_page: 0,
    }
}

fn pics(n: usize) -> Vec<Picture> {
    (0..n).map(|i| Picture { url: format!("u{i}"), original_name: format!("{i}.jpg") }).collect()
}

#[test]
fn history_title_falls_back_to_the_chapter_number() {
    let mut s = reader();
    assert_eq!(history_chapter_title(&s), "序章");
    s.current_episode_idx = 3;
    s.episode_order = 7;
    assert_eq!(history_chapter_title(&s), "第7章");
}

#[test]
fn preloading_keeps_the_shown_chapter() {
    let mut s = reader();
    handle_pictures_loaded(&mut s, pics(3));
    s.current_page = 2;
    s.is_loading_next_chapter = true;
    s.error = Some("e".to_string());
    let r = handle_pictures_loaded(&mut s, pics(5));
    assert_eq!(r, PicturesLoaded::StoredNextChapter);
    assert!(!s.is_loading_next_chapter);
    assert_eq!(s.next_chapter_pictures.len(), 5);
    assert_eq!((s.current_page, s.total_pages, s.pictures.len()), (2, 3, 3));
    assert_eq!(s.error.as_deref(), Some("e"));
    assert_eq!(s.page_metas.len(), 3);
}

#[test]
fn proxy_boxes_show_hints_or_values() {
    assert_eq!(proxy_host_display(""), ("127.0.0.1".to_string(), true));
    assert_eq!(proxy_host_display("10.0.0.2"), ("10.0.0.2".to_string(), false));
    assert_eq!(proxy_port_display(7890), ("7890".to_string(), false));
    assert_eq!(proxy_port_display(0), ("0".to_string(), false));
}

#[test]
fn download_limit_after_many_presses() {
    let mut m = MaxConcurrentDownloadsState { value: 7 };
    for _ in 0..5 {
        m.increase();
    }
    assert_eq!(m.value, 10);
    for _ in 0..20 {
        m.decrease();
    }
    assert_eq!(m.value, 1);
    assert_eq!(m.increase(), Some(2));
}

#[test]
fn enter_submits_the_form_as_typed() {
    let mut f = LoginFormState {
        email: "me@x".to_string(),
        password: "pw".to_string(),
        save_password: false,
        auto_login: false,
        auto_punch_in: true,
        error: Some("old".to_string()),
        is_loading: false,
    };
    match f.enter_pressed(false) {
        LoginEnter::Submitted(Some(req)) => {
            assert_eq!((req.email.as_str(), req.password.as_str()), ("me@x", "pw"))
        }
        _ => panic!("expected a request"),
    }
    assert!(f.is_loading && f.error.is_none() && f.auto_punch_in);
    let mut g = LoginFormState {
        email: "me@x".to_string(),
        password: String::new(),
        save_password: false,
        auto_login: false,
        auto_punch_in: false,
        error: None,
        is_loading: false,
    };
    match g.enter_pressed(false) {
        LoginEnter::Submitted(None) => {}
        _ => panic!("expected no request"),
    }
    assert_eq!(g.error.as_deref(), Some("请输入用户名和密码"));
    assert!(!g.is_loading);
}

#[test]
fn short_password_counts_characters() {
    let mut f = RegisterFormState::new();
    f.email = "a@b".to_string();
    f.password = "密码密码密".to_string();
    f.confirm_password = f.password.clone();
    f.name = "n".to_string();
    f.birthday = "2000-01-01".to_string();
    f.question1 = "q1".to_string();
    f.question2 = "q2".to_string();
    f.question3 = "q3".to_string();
    f.answer1 = "a1".to_string();
    f.answer2 = "a2".to_string();
    f.answer3 = "a3".to_string();
    f.gender = Gender::Female;
    assert!(f.trigger_register().is_none());
    assert_eq!(f.error.as_deref(), Some("密码至少需要8位字符"));
    assert!(!f.is_loading);
    f.birthday = "2000-1-5".to_string();
    f.password = "12345678".to_string();
    f.confirm_password = f.password.clone();
    assert!(f.trigger_register().is_none());
    assert_eq!(f.error.as_deref(), Some("生日格式错误，请使用 yyyy-MM-dd 格式"));
}

#[test]
fn timestamps_have_the_date_time_shape() {
    let t: Vec<char> = format_timestamp(1_700_000_000).chars().collect();
    assert_eq!(t.len(), 16);
    assert_eq!((t[4], t[7], t[10], t[13]), ('-', '-', ' ', ':'));
    assert!(t.iter().enumerate().all(|(i, c)| [4, 7, 10, 13].contains(&i) || c.is_ascii_digit()));
    assert_eq!(format_timestamp(-1_000_000_000).chars().count(), 16);
}

#[test]
fn upload_tally_skips_unreadable_comics() {
    let mut t = UploadTally::new();
    assert_eq!(t.record_comic_scan(None), None);
    assert_eq!((t.uploaded, t.errors), (0, 1));
    assert_eq!(t.record_comic_scan(Some(3)), Some(3));
    assert_eq!((t.uploaded, t.errors), (0, 1));
    let sent = t.record_file(0, true);
    let sent = t.record_file(sent, false);
    let sent = t.record_file(sent, true);
    assert_eq!(sent, 2);
    assert_eq!((t.uploaded, t.errors), (2, 2));
    assert_eq!(t.finish().1, false);
}

#[test]
fn cover_is_the_first_image_by_path() {
    let files = vec![
        ("/c/notes.txt".to_string(), "txt".to_string()),
        ("/c/b.PNG".to_string(), "PNG".to_string()),
        ("/c/a.jpg".to_string(), "jpg".to_string()),
        ("/c/0.doc".to_string(), "doc".to_string()),
    ];
    assert_eq!(first_image(&files), Some(2));
    assert_eq!(first_image(&vec![("/c/x".to_string(), String::new())]), None);
    assert_eq!(first_image(&Vec::new()), None);
}

#[test]
fn keyword_box_empties_after_a_keyword_is_added() {
    let mut f = FilterSettingsState {
        blocked_keywords: Vec::new(),
        filter_by_category: false,
        filter_by_tag: false,
        filter_by_title: false,
        new_keyword: String::new(),
        show_suggestions: false,
    };
    f.set_new_keyword(" 猎奇 ");
    assert_eq!(f.new_keyword, " 猎奇 ");
    assert!(f.add_keyword(" 猎奇 "));
    assert_eq!(f.new_keyword, "");
    assert_eq!(f.blocked_keywords, vec!["猎奇".to_string()]);
    f.set_new_keyword("猎奇");
    assert!(!f.add_keyword("猎奇"));
    assert_eq!(f.new_keyword, "猎奇");
}

#[test]
fn nas_handlers_leave_other_parts_alone() {
    let mut n = NasState::new();
    n.handle_nas_test_response(true, "ok".to_string());
    n.handle_nas_browse_request();
    n.handle_nas_browse_response(
        vec![NasRemoteEntry { name: "a".to_string(), path: "/a".to_string(), is_dir: true, size: 0 }],
        "/".to_string(),
    );
    assert!(n.handle_nas_upload_request(true));
    n.handle_nas_upload_progress("t".to_string(), 1, 2);
    n.handle_nas_upload_failed("x".to_string());
    assert!(n.is_connected && n.test_success);
    assert_eq!(n.test_message.as_deref(), Some("ok"));
    assert_eq!(n.remote_entries.len(), 1);
    assert_eq!(n.browse_path, "/");
    assert_eq!(n.upload_tasks.len(), 1);
}

#[test]
fn loading_pictures_keeps_the_comic() {
    let mut s = reader();
    s.current_episode_idx = 0;
    s.error = Some("old".to_string());
    handle_pictures_loaded(&mut s, pics(2));
    assert_eq!((s.comic_id.as_str(), s.comic_title.as_str(), s.current_episode_idx), ("c", "T", 0));
    assert_eq!(s.error.as_deref(), Some("old"));
    s.read_mode = ReadMode::Webtoon;
    s.current_page = 1;
    let metas = vec![
        PageMeta { episode_order: 1, page_in_chapter: 0 },
        PageMeta { episode_order: 1, page_in_chapter: 1 },
    ];
    assert_eq!(handle_all_pictures_loaded(&mut s, pics(2), metas), 1);
    assert_eq!((s.comic_id.as_str(), s.current_episode_idx, s.read_mode), ("c", 0, ReadMode::Webtoon));
    assert_eq!(s.error.as_deref(), Some("old"));
}

#[test]
fn listing_names_without_percent_are_kept() {
    let xml = "<d:response><d:href>/dav/a+b.jpg</d:href><d:displayname>a+b.jpg</d:displayname></d:response>";
    assert_eq!(parse_propfind_response(xml).expect("listing")[0].0, "a+b.jpg");
}

#[test]
fn listing_positions_come_from_the_lower_case_text() {
    // The Kelvin sign lower-cases to a one-byte `k`: the block would start
    // inside the sign, where a string cannot be cut.
    let kelvin = "\u{212A}<d:response><d:href>/a</d:href></d:response>";
    assert!(try_parse_propfind_response(kelvin).is_none());
    // Each `İ` grows by a byte in lower case, so the block read starts 20
    // bytes late, past the `<d:href>` tag: the entry has no name.
    let shifted = format!(
        "{}<d:response><d:href>/a</d:href></d:response>{}",
        "\u{130}".repeat(20),
        "z".repeat(30)
    );
    assert_eq!(try_parse_propfind_response(&shifted), Some(Ok(vec![])));
    let short = format!(
        "{}<d:response><d:href>/a/b</d:href></d:response>{}",
        "\u{130}".repeat(4),
        "z".repeat(30)
    );
    assert_eq!(
        try_parse_propfind_response(&short),
        Some(Ok(vec![("b".to_string(), "/a/b".to_string(), false, 0)]))
    );
    let plain = "<D:Response><D:HREF>/x/</D:HREF></D:Response>";
    assert_eq!(
        try_parse_propfind_response(plain),
        Some(Ok(vec![("x".to_string(), "/x/".to_string(), false, 0)]))
    );
}

#[test]
fn listing_with_a_given_lower_case() {
    let xml = "<D:RESPONSE><D:HREF>/A/</D:HREF></D:RESPONSE>";
    let lower = "<d:response><d:href>/a/</d:href></d:response>";
    assert_eq!(
        read_propfind_lowered(xml, lower),
        Some(vec![("A".to_string(), "/A/".to_string(), false, 0)])
    );
    // A closing tag found past the end of the text itself cannot cut it.
    assert_eq!(read_propfind_lowered("<d:response>", "<d:response>x</d:response>"), None);
    assert_eq!(propfind_status_error(401, "Unauthorized"), "服务器返回错误: 401 Unauthorized");
}

#[test]
fn timestamps_are_the_local_clock_time() {
    for ts in [1_700_000_000i64, -1_000_000_000, 951_782_400] {
        let off = chrono::Local
            .timestamp_opt(ts, 0)
            .single()
            .expect("in range")
            .offset()
            .local_minus_utc() as i64;
        let expected = chrono::DateTime::from_timestamp(ts + off, 0)
            .expect("in range")
            .format("%Y-%m-%d %H:%M")
            .to_string();
        assert_eq!(format_timestamp(ts), expected);
    }
}
