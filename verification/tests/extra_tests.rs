use picacg_app::proxy::port_digits_only;
use picacg_app::register::{register_tab_index, RegisterInputType};
use picacg_app::window::{ensure_primary_window, WindowAction, WINDOW_RETRY_FRAMES};
use picacg_app::nas::uploadable;
use picacg_app::reader::{chapter_folders, local_page_names};
use picacg_app::search::result_card_badges;
use picacg_app::settings::{
    timings_hint, FilterSettingsState, Language, LogLevel, SettingsChoices, ThemeMode,
};
use picacg_app::window::CloseBehavior;

#[test]
fn timings_and_suggestions() {
    assert_eq!(timings_hint(0), "本区间无数据（刚刷新过？让它跑一会儿再点）");
    assert_eq!(timings_hint(15), "上次刷新之后的累计（Top 15），已追加到日志");
    let f = FilterSettingsState {
        blocked_keywords: vec!["a".to_string()],
        filter_by_category: true,
        filter_by_tag: false,
        filter_by_title: false,
        new_keyword: String::new(),
        show_suggestions: false,
    };
    assert!(f.is_blocked("a"));
    assert!(!f.is_blocked("b"));
}

#[test]
fn choices_change_only_when_different() {
    let mut c = SettingsChoices {
        theme: ThemeMode::Dark,
        language: Language::ZhCN,
        close_behavior: CloseBehavior::Ask,
        log_level: LogLevel::Info,
        auto_resume: false,
        exit_after_all_done: false,
        auto_pack_cbz: false,
        delete_images_after_cbz: false,
        sni_pretend: false,
        prefer_ipv6: false,
    };
    assert!(!c.choose_theme(ThemeMode::Dark));
    assert!(c.choose_theme(ThemeMode::Light));
    assert!(c.choose_language(Language::En));
    assert!(!c.choose_close_behavior(CloseBehavior::Ask));
    assert!(c.choose_log_level(LogLevel::Trace));
    assert_eq!(c.log_level, LogLevel::Trace);
}

#[test]
fn result_cards_show_three_badges() {
    let cats: Vec<String> = ["a", "b", "c", "d"].iter().map(|s| s.to_string()).collect();
    let tags = vec!["t".to_string()];
    let (c, t) = result_card_badges(&cats, &tags);
    assert_eq!(c, vec!["a".to_string(), "b".to_string(), "c".to_string()]);
    assert_eq!(t, vec!["t".to_string()]);
}

#[test]
fn uploads_skip_downloads_without_a_folder() {
    let tasks = vec![
        ("A".to_string(), "/d/A".to_string()),
        ("B".to_string(), String::new()),
        ("C".to_string(), "/d/C".to_string()),
    ];
    let kept = uploadable(tasks);
    assert_eq!(kept, vec![("A".to_string(), "/d/A".to_string()), ("C".to_string(), "/d/C".to_string())]);
}

#[test]
fn local_page_files() {
    assert_eq!(chapter_folders("a/b", 3), ("a_b".to_string(), "第3章".to_string()));
    assert_eq!(local_page_names("x.png", 0), vec!["x.png".to_string(), "0001.jpg".to_string()]);
    assert_eq!(local_page_names("", 12344), vec!["12345.jpg".to_string()]);
    assert_eq!(local_page_names("", 98), vec!["0099.jpg".to_string()]);
}

#[test]
fn filtered_port_box_is_left_alone() {
    let (digits, cursor) = port_digits_only("8a0-8b0", 4).expect("filtered");
    assert_eq!((digits.as_str(), cursor), ("8080", 2));
    assert_eq!(port_digits_only(&digits, cursor), None);
}

#[test]
fn lost_window_is_retried_after_the_full_delay() {
    let (action, mut countdown) = ensure_primary_window(false, false, 0);
    assert_eq!(action, WindowAction::Recreate);
    let mut waits = 0;
    loop {
        let (a, c) = ensure_primary_window(false, false, countdown);
        countdown = c;
        if a == WindowAction::Recreate {
            break;
        }
        assert_eq!(a, WindowAction::Wait);
        waits += 1;
    }
    assert_eq!(waits, WINDOW_RETRY_FRAMES);
}

#[test]
fn tab_order_gives_each_box_its_own_place() {
    let all = [
        RegisterInputType::Email, RegisterInputType::Password, RegisterInputType::ConfirmPassword, RegisterInputType::Name, RegisterInputType::Birthday, RegisterInputType::Question1,
        RegisterInputType::Question2, RegisterInputType::Question3, RegisterInputType::Answer1, RegisterInputType::Answer2, RegisterInputType::Answer3,
    ];
    let mut seen: Vec<i32> = all.iter().map(|t| register_tab_index(*t)).collect();
    seen.sort();
    assert_eq!(seen, (0..11).collect::<Vec<i32>>());
}
