use picacg_app::cards::{
    block_title, card_badges, comic_time_lines, format_timestamp, rank_label, rank_medal,
    remote_episode_count, timestamp_text, RankMedal, TagColor,
};
use picacg_app::local::{
    card_path_text, chapter_label, folder_name_or_unknown, is_image_extension, local_entry,
    sort_by_name, LocalComicEntry, LocalReadState, LocalView,
};
use picacg_app::nas::{
    browse_failure_message, browse_root, comic_remote_folder, entries_from, password_display,
    progress_text, remote_file_path, test_outcome_message, upload_root, FileListView, NasState,
    NasStatusLine, UploadTally,
};
use picacg_app::pagination::Pagination;
use picacg_app::profile::{
    exp_for_level, field_text, gender_text, loading_field_text, ProfileField, ProfileScreen,
    ProfileUser, UserProfileState,
};
use picacg_app::rankings::{
    knight_initial, knight_texts, refresh_knight_rankings_ui, refresh_rankings_ui, KnightUser, KnightView, RankTime,
    RankingsLoad, RankingsState, RankingsTab, RankingsView,
};
use picacg_app::search::{filter_button_label, selected_count_text, sort_options, SearchContent, SearchState};
use picacg_app::settings::{
    auto_save_settings, needs_client_reload, update_network_diag_result, parse_port_or, profiling_hint_text,
    restart_notice, save_status_message, short_system_name, refresh_update_status, show_release_button,
    DiagTone, FilterSettingsState, MaxConcurrentDownloadsState, SETTINGS_DEFAULT_PORT,
};
use picacg_app::sidebar::{avatar_needs_load, count_badge, download_counts, preload_once, TaskPhase};
use picacg_app::webdav::{
    build_webdav_url, mkcol_status_ok, parse_propfind_response, propfind_status_ok, put_status_ok,
    sanitize_remote_name,
};
use picacg_app::window::{handle_window_close, ensure_primary_window, CloseAction, CloseBehavior, WindowAction};

fn filter_state() -> FilterSettingsState {
    FilterSettingsState {
        blocked_keywords: Vec::new(),
        filter_by_category: false,
        filter_by_tag: false,
        filter_by_title: false,
        new_keyword: String::new(),
        show_suggestions: false,
    }
}

#[test]
fn blocked_keywords_are_trimmed_and_unique() {
    let mut f = filter_state();
    assert!(f.add_keyword("  耽美 "));
    assert!(!f.add_keyword("耽美"));
    assert!(!f.add_keyword("   "));
    assert!(f.add_keyword("扶她"));
    assert_eq!(f.blocked_keywords, vec!["耽美".to_string(), "扶她".to_string()]);
    assert!(!f.add_suggestion("扶她".to_string()));
    assert!(f.add_suggestion(" x".to_string()));
    f.remove_keyword("耽美");
    assert_eq!(f.blocked_keywords, vec!["扶她".to_string(), " x".to_string()]);
}

#[test]
fn add_then_remove_restores_the_list() {
    let mut f = filter_state();
    f.blocked_keywords = vec!["a".to_string(), "b".to_string()];
    assert!(f.add_keyword(" c "));
    f.remove_keyword("c");
    assert_eq!(f.blocked_keywords, vec!["a".to_string(), "b".to_string()]);
    f.blocked_keywords = vec!["a".to_string(), "b".to_string(), "a".to_string()];
    f.remove_keyword("a");
    assert_eq!(f.blocked_keywords, vec!["b".to_string()]);
    assert!(f.toggle_suggestions());
    f.toggle_filter_by_tag();
    assert!(f.filter_by_tag);
}

#[test]
fn download_limit_stays_between_one_and_ten() {
    let mut m = MaxConcurrentDownloadsState { value: 1 };
    assert_eq!(m.decrease(), None);
    assert_eq!(m.increase(), Some(2));
    assert_eq!(m.decrease(), Some(1));
    m.value = 10;
    assert_eq!(m.increase(), None);
    assert_eq!(m.label(), "10");
}

#[test]
fn settings_messages() {
    assert_eq!(parse_port_or("8080", SETTINGS_DEFAULT_PORT), 8080);
    assert_eq!(parse_port_or("65536", SETTINGS_DEFAULT_PORT), 7890);
    assert_eq!(parse_port_or("abc", SETTINGS_DEFAULT_PORT), 7890);
    assert_eq!(save_status_message(Ok(())), ("设置已保存".to_string(), false));
    assert_eq!(save_status_message(Err("disk".to_string())), ("保存失败: disk".to_string(), true));
    assert_eq!(auto_save_settings(true, false), (false, true));
    assert_eq!(auto_save_settings(true, true), (true, true));
    assert_eq!(auto_save_settings(false, false), (false, false));
    assert!(needs_client_reload(false, true, false));
    assert!(!needs_client_reload(false, false, false));
    assert_eq!(restart_notice("主题", "深色"), "主题已切换为「深色」，重启应用后生效");
    assert_eq!(profiling_hint_text(false, true, true), "本次构建未编入耗时 span，需 --features profiling 重新构建");
    assert_eq!(profiling_hint_text(true, false, true), "已打开，重启后开始统计");
    assert_eq!(profiling_hint_text(true, false, false), "未启用");
}

#[test]
fn update_line() {
    assert_eq!(refresh_update_status(true, &None, None, &None).as_deref(), Some("正在检查更新..."));
    assert_eq!(refresh_update_status(false, &Some("x".to_string()), Some(true), &None).as_deref(), Some("检查失败: x"));
    assert_eq!(refresh_update_status(false, &None, Some(true), &Some("1.2.3".to_string())).as_deref(), Some("发现新版本 v1.2.3！"));
    assert_eq!(refresh_update_status(false, &None, Some(true), &None).as_deref(), Some("发现新版本 v未知！"));
    assert_eq!(refresh_update_status(false, &None, Some(false), &None).as_deref(), Some("已是最新版本"));
    assert_eq!(refresh_update_status(false, &None, None, &None), None);
    assert!(show_release_button(Some(true), true));
    assert!(!show_release_button(Some(true), false));
}

#[test]
fn network_test_line() {
    assert_eq!(update_network_diag_result(false, None, false, None, None), ("点击按钮开始测试".to_string(), DiagTone::Done));
    assert_eq!(
        update_network_diag_result(true, None, false, Some(35), Some("超时".to_string())),
        ("正在测速...  |  延迟: 35 ms  |  错误: 超时".to_string(), DiagTone::Error)
    );
    assert_eq!(
        update_network_diag_result(false, Some("下载速度: 1.5 KB/s".to_string()), true, None, None),
        ("下载速度: 1.5 KB/s  |  正在 Ping...".to_string(), DiagTone::Busy)
    );
}

#[test]
fn short_system_names_keep_two_segments() {
    assert_eq!(short_system_name("picacg_app::systems::reader::sync"), "reader::sync");
    assert_eq!(short_system_name("plain"), "plain");
    assert_eq!(short_system_name("a::b"), "a::b");
    assert_eq!(short_system_name("a:::b"), "a:::b");
    assert_eq!(short_system_name("x::y:::b"), "y:::b");
}

#[test]
fn webdav_urls_and_statuses() {
    assert_eq!(build_webdav_url("http://nas:5005///", "dav/a"), "http://nas:5005/dav/a");
    assert_eq!(build_webdav_url("http://nas", "/x/"), "http://nas/x/");
    assert_eq!(build_webdav_url("http://nas/", ""), "http://nas/");
    assert_eq!(sanitize_remote_name("a/b|c"), "a_b_c");
    assert!(propfind_status_ok(207) && propfind_status_ok(200) && !propfind_status_ok(404));
    assert!(mkcol_status_ok(405) && mkcol_status_ok(301) && !mkcol_status_ok(200));
    assert!(put_status_ok(204) && !put_status_ok(207));
}

#[test]
fn propfind_listing_is_parsed() {
    let xml = "<?xml version=\"1.0\"?><D:multistatus xmlns:D=\"DAV:\">\
<D:response><D:href>/dav/My%20Comic/</D:href><D:propstat><D:prop><D:displayname></D:displayname>\
<D:resourcetype><D:collection/></D:resourcetype></D:prop></D:propstat></D:response>\
<D:response><D:href>/dav/a.jpg</D:href><D:propstat><D:prop><D:displayname> a.jpg </D:displayname>\
<D:getcontentlength>1234</D:getcontentlength><D:resourcetype/></D:prop></D:propstat></D:response>\
</D:multistatus>";
    let entries = parse_propfind_response(xml).expect("listing");
    assert_eq!(entries.len(), 2);
    assert_eq!(entries[0], ("My Comic".to_string(), "/dav/My%20Comic/".to_string(), true, 0));
    assert_eq!(entries[1], ("a.jpg".to_string(), "/dav/a.jpg".to_string(), false, 1234));
    assert_eq!(parse_propfind_response("no xml here").expect("empty"), vec![]);
}

#[test]
fn propfind_directory_needs_a_collection_element() {
    let xml = "<d:multistatus><d:response><d:href>/dav/collection.jpg</d:href><d:resourcetype/>\
<d:getcontentlength>10</d:getcontentlength></d:response></d:multistatus>";
    assert_eq!(
        parse_propfind_response(xml).expect("listing"),
        vec![("collection.jpg".to_string(), "/dav/collection.jpg".to_string(), false, 10)]
    );
    let plain = "<multistatus><response><href>/dav/d/</href><resourcetype><collection/></resourcetype>\
</response></multistatus>";
    assert_eq!(
        parse_propfind_response(plain).expect("listing"),
        vec![("d".to_string(), "/dav/d/".to_string(), true, 0)]
    );
}

#[test]
fn nas_upload_bookkeeping() {
    assert_eq!(upload_root(""), "/picacg/");
    assert_eq!(upload_root("/comics"), "/comics/");
    assert_eq!(upload_root("/comics/"), "/comics/");
    assert_eq!(browse_root(""), "/");
    let folder = comic_remote_folder("/picacg/", "a:b");
    assert_eq!(folder, "/picacg/a_b/");
    assert_eq!(remote_file_path(&folder, "1.jpg"), "/picacg/a_b/1.jpg");
    let mut t = UploadTally::new();
    t.record_error();
    assert_eq!(t.finish(), ("上传完成: 0 个文件成功, 1 个错误".to_string(), true));
    t.record_sent();
    assert_eq!(t.finish(), ("上传完成: 1 个文件成功, 1 个错误".to_string(), false));
    assert_eq!(test_outcome_message(Ok(())), (true, "连接成功".to_string()));
    assert_eq!(test_outcome_message(Err("401".to_string())), (false, "连接失败: 401".to_string()));
    assert_eq!(browse_failure_message("x"), "浏览失败: x");
    assert_eq!(progress_text(3, 10), "上传进度: 3/10 文件");
    assert_eq!(password_display("abc"), ("***".to_string(), false));
}

#[test]
fn nas_state_follows_events() {
    let mut s = NasState::new();
    assert!(matches!(s.status_line(), NasStatusLine::NotConnected));
    assert!(s.handle_nas_test_connection());
    assert!(!s.handle_nas_test_connection());
    assert!(matches!(s.status_line(), NasStatusLine::Testing));
    s.handle_nas_test_response(true, "连接成功".to_string());
    assert!(matches!(s.status_line(), NasStatusLine::TestResult { ok: true, .. }));
    assert!(!s.handle_nas_upload_request(false));
    assert_eq!(s.error.as_deref(), Some("没有已完成的下载任务"));
    assert!(s.handle_nas_upload_request(true));
    s.handle_nas_upload_progress("A".to_string(), 1, 3);
    s.handle_nas_upload_progress("B".to_string(), 0, 2);
    s.handle_nas_upload_progress("A".to_string(), 2, 3);
    assert_eq!(s.upload_tasks.len(), 2);
    assert_eq!(s.upload_tasks[0].uploaded_files, 2);
    assert_eq!(s.upload_progress(), Some((2, 5)));
    s.handle_nas_upload_completed("done".to_string());
    assert_eq!(s.upload_progress(), None);
    assert!(matches!(s.status_line(), NasStatusLine::Done(ref m) if m == "done"));
    assert_eq!(s.file_list_view(), FileListView::Empty);
    assert!(s.handle_nas_browse_request());
    assert_eq!(s.file_list_view(), FileListView::Loading);
    let entries = entries_from(vec![("a".to_string(), "/a".to_string(), false, 1)]);
    s.handle_nas_browse_response(entries, "/".to_string());
    assert_eq!(s.file_list_view(), FileListView::Entries { show_path: true });
}

fn user() -> ProfileUser {
    ProfileUser {
        id: "u1".to_string(),
        name: "  ".to_string(),
        title: String::new(),
        slogan: Some("  ".to_string()),
        email: Some("a@b.c".to_string()),
        gender: "f".to_string(),
        level: 3,
        exp: 150,
        created_at: "2020-05-06T01:02:03Z".to_string(),
        verified: Some(false),
        characters: Some(vec!["x".to_string(), "y".to_string()]),
        is_punched: None,
    }
}

#[test]
fn profile_fields() {
    let u = user();
    assert_eq!(exp_for_level(4), 1600);
    assert_eq!(gender_text("bot"), "⚥ 扶她");
    assert_eq!(gender_text("?"), "未设置");
    assert_eq!(field_text(&u, false, ProfileField::Name), "未知用户");
    assert_eq!(field_text(&u, false, ProfileField::Title), "无称号");
    assert_eq!(field_text(&u, false, ProfileField::Slogan), "这个人很懒，什么都没写~");
    assert_eq!(field_text(&u, false, ProfileField::Level), "Lv.3");
    assert_eq!(field_text(&u, false, ProfileField::Exp), "150/1600");
    assert_eq!(field_text(&u, false, ProfileField::Gender), "♀ 女");
    assert_eq!(field_text(&u, false, ProfileField::Email), "a@b.c");
    assert_eq!(field_text(&u, false, ProfileField::CreatedAt), "2020-05-06");
    assert_eq!(field_text(&u, false, ProfileField::UserId), "u1");
    assert_eq!(field_text(&u, false, ProfileField::Verified), "✗ 未认证");
    assert_eq!(field_text(&u, false, ProfileField::Characters), "x、y");
    assert_eq!(field_text(&u, false, ProfileField::PunchIn), "签到");
    assert_eq!(field_text(&u, true, ProfileField::PunchIn), "✓ 今日已签到");
    assert_eq!(loading_field_text(ProfileField::Name), Some("加载中..."));
    assert_eq!(loading_field_text(ProfileField::PunchIn), None);
}

#[test]
fn profile_refresh_shows_each_state_once() {
    let mut s = UserProfileState { user: None, is_loading: false, error: None };
    assert!(s.begin_refresh());
    assert!(!s.begin_refresh());
    let (v, tag) = s.refresh_profile_ui(false, "");
    assert!(matches!(v, ProfileScreen::Loading));
    assert!(matches!(s.refresh_profile_ui(false, &tag).0, ProfileScreen::Loading));
    s.handle_profile_load_failed("net".to_string());
    let (v, tag) = s.refresh_profile_ui(false, &tag);
    assert!(matches!(v, ProfileScreen::Failed(ref m) if m == "加载失败: net"));
    assert!(matches!(s.refresh_profile_ui(false, &tag).0, ProfileScreen::Unchanged));
    s.handle_profile_loaded(user());
    let (v, tag) = s.refresh_profile_ui(false, &tag);
    assert!(matches!(v, ProfileScreen::User));
    assert_eq!(tag, "  _3_150_false");
    assert!(matches!(s.refresh_profile_ui(false, &tag).0, ProfileScreen::Unchanged));
    assert!(s.can_punch_in(false));
    assert!(!s.can_punch_in(true));
    s.is_loading = true;
    assert!(matches!(s.refresh_profile_ui(false, &tag).0, ProfileScreen::Unchanged));
}

fn entry(name: &str) -> LocalComicEntry {
    LocalComicEntry { name: name.to_string(), path: format!("/d/{name}"), cover_path: None, chapter_count: 1 }
}

#[test]
fn local_library() {
    assert!(is_image_extension("JPG"));
    assert!(is_image_extension("webp"));
    assert!(!is_image_extension("txt"));
    assert!(!is_image_extension(""));
    let e = local_entry("c".to_string(), "/c".to_string(), 0, None, Some("/c/1.jpg".to_string()), false).expect("entry");
    assert_eq!((e.chapter_count, e.cover_path.as_deref()), (1, Some("/c/1.jpg")));
    assert!(local_entry("c".to_string(), "/c".to_string(), 0, None, None, false).is_none());
    let e = local_entry("c".to_string(), "/c".to_string(), 0, None, None, true).expect("entry");
    assert_eq!(e.chapter_count, 0);
    let e = local_entry("c".to_string(), "/c".to_string(), 2, Some("/c/1/a.png".to_string()), None, false).expect("entry");
    assert_eq!(e.chapter_count, 2);
    assert_eq!(folder_name_or_unknown(None), "未知");
    let sorted = sort_by_name(vec![entry("b"), entry("漫画"), entry("B"), entry("a"), entry("b")]);
    let names: Vec<&str> = sorted.iter().map(|e| e.name.as_str()).collect();
    assert_eq!(names, vec!["B", "a", "b", "b", "漫画"]);
    assert_eq!(chapter_label(12), "12 个章节");
    assert_eq!(card_path_text("short"), "short");
    let mut s = LocalReadState::new();
    assert!(s.handle_scan_local_comics());
    assert!(!s.handle_scan_local_comics());
    assert!(matches!(s.refresh_local_read_ui(false, false, true), LocalView::Keep));
    s.handle_scan_completed(vec![]);
    assert!(matches!(s.refresh_local_read_ui(false, false, false), LocalView::ShowEmptyHint));
    s.handle_scan_failed("x".to_string());
    assert!(matches!(s.refresh_local_read_ui(false, false, false), LocalView::ShowError(ref m) if m == "扫描失败: x"));
}

#[test]
fn card_texts() {
    assert_eq!(rank_medal(1), RankMedal::Gold);
    assert_eq!(rank_medal(3), RankMedal::Bronze);
    assert_eq!(rank_medal(4), RankMedal::Plain);
    assert_eq!(rank_label(12), "#12");
    let cats = vec!["长篇漫画作品".to_string(), "b".to_string(), "c".to_string()];
    let tags = vec!["t".to_string()];
    let b = card_badges(&cats, &tags, 3);
    assert_eq!(b, vec![
        ("长篇漫...".to_string(), TagColor::Category),
        ("b".to_string(), TagColor::Category),
        ("t".to_string(), TagColor::Tag),
    ]);
    assert_eq!(comic_time_lines(Some("2020-01-01T00:00"), Some("2021-02-02T00:00")), vec!["更新 2021-02-02".to_string(), "创建 2020-01-01".to_string()]);
    assert_eq!(comic_time_lines(None, None), Vec::<String>::new());
    assert_eq!(remote_episode_count(0), None);
    assert_eq!(remote_episode_count(5), Some(5));
    let mut kws = vec!["a".to_string()];
    assert!(!block_title(&mut kws, ""));
    assert!(!block_title(&mut kws, "a"));
    assert!(block_title(&mut kws, "b"));
    assert_eq!(kws, vec!["a".to_string(), "b".to_string()]);
}

#[test]
fn timestamps_read_as_local_time() {
    assert_eq!(format_timestamp(0), "未知时间");
    let t = format_timestamp(1_700_000_000);
    assert_eq!(t.chars().count(), 16);
    assert!(t.starts_with("2023-11-1"));
    assert_eq!(timestamp_text(5, None), "未知时间");
    assert_eq!(timestamp_text(5, Some("x".to_string())), "x");
}

#[test]
fn rankings_tabs() {
    let mut s = RankingsState {
        current_tab: RankingsTab::Comics(RankTime::H24),
        current_type: RankTime::H24,
        loaded: (true, false, false),
        knight_loaded: false,
        is_loading: false,
        knight_loading: false,
    };
    assert_eq!(s.trigger_load_rankings(), None);
    assert_eq!(s.switch_tab(RankingsTab::Comics(RankTime::H24)), None);
    assert_eq!(s.switch_tab(RankingsTab::Comics(RankTime::D7)), Some(Some(RankingsLoad::Comics(RankTime::D7))));
    assert!(s.is_loading);
    assert_eq!(s.current_type, RankTime::D7);
    assert_eq!(s.switch_tab(RankingsTab::Knight), Some(Some(RankingsLoad::Knight)));
    assert!(s.knight_loading);
    assert_eq!(s.switch_tab(RankingsTab::Comics(RankTime::H24)), Some(None));
    assert_eq!(refresh_rankings_ui(false, true, false, true), RankingsView::Loading);
    assert_eq!(refresh_rankings_ui(false, true, false, false), RankingsView::Empty);
    assert_eq!(refresh_rankings_ui(true, true, false, false), RankingsView::Keep);
    assert!(matches!(refresh_knight_rankings_ui(true, false, true, false, &Some("e".to_string())), KnightView::Failed(ref m) if m == "加载失败: e"));
    assert!(matches!(refresh_knight_rankings_ui(true, false, false, false, &None), KnightView::List));
    assert_eq!(knight_initial(""), '?');
    assert_eq!(knight_initial("骑士"), '骑');
    let k = KnightUser { id: "1".to_string(), name: "n".to_string(), title: "很长很长很长很长的称号".to_string(), level: 7, comics_uploaded: 3 };
    let (name, level, title) = knight_texts(&k);
    assert_eq!((name.as_str(), level.as_str(), title.as_deref()), ("n", "Lv.7", Some("很长很长很长很长的称...")));
}

#[test]
fn search_page_texts() {
    let mut s: SearchState<u32> = SearchState::new();
    assert!(matches!(s.content(true), SearchContent::Start { show_hot_keywords: true }));
    let _ = s.hot_keyword("猫");
    assert!(matches!(s.content(false), SearchContent::Loading));
    s.is_loading = false;
    s.has_searched = true;
    assert!(matches!(s.content(false), SearchContent::NothingFound(ref m) if m == "未找到与 \"猫\" 相关的漫画"));
    s.results.push(1);
    s.total_pages = 5;
    assert!(matches!(s.content(false), SearchContent::Results(ref m) if m == "共找到 5 页结果（第 1 页）"));
    s.error = Some("e".to_string());
    assert!(matches!(s.content(false), SearchContent::Failed(ref m) if m == "搜索失败: e"));
    assert_eq!(filter_button_label(0), "分类过滤");
    assert_eq!(filter_button_label(2), "分类过滤 (2)");
    assert_eq!(selected_count_text(0), "未选择分类（搜索所有分类）");
    assert_eq!(selected_count_text(3), "已选 3 个分类");
    assert_eq!(sort_options()[2], ("ld", "点赞最多"));
}

#[test]
fn pagination_buttons() {
    let mut p = Pagination { current_page: 1, total_pages: 3 };
    assert!(!p.has_prev() && p.has_next());
    p.prev();
    assert_eq!(p.current_page, 1);
    p.next();
    p.next();
    p.next();
    assert_eq!(p.current_page, 3);
    assert_eq!(p.label(), "3 / 3");
    p.prev();
    assert_eq!(p.current_page, 2);
}

#[test]
fn window_keeper() {
    assert_eq!(ensure_primary_window(true, false, 5), (WindowAction::Nothing, 0));
    assert_eq!(ensure_primary_window(false, true, 5), (WindowAction::Exit, 5));
    assert_eq!(ensure_primary_window(false, false, 5), (WindowAction::Wait, 4));
    assert_eq!(ensure_primary_window(false, false, 0), (WindowAction::Recreate, 120));
    assert_eq!(handle_window_close(CloseBehavior::Ask), CloseAction::SaveAndClose);
    assert_eq!(handle_window_close(CloseBehavior::Minimize), CloseAction::Minimize);
}

#[test]
fn sidebar_counters() {
    let tasks = vec![TaskPhase::Downloading, TaskPhase::Queued, TaskPhase::Other, TaskPhase::Queued];
    assert_eq!(download_counts(&tasks), (1, 2));
    assert_eq!(count_badge(0), None);
    assert_eq!(count_badge(12).as_deref(), Some("12"));
    assert!(avatar_needs_load("", "http://a"));
    assert!(!avatar_needs_load("http://a", "http://a"));
    assert!(!avatar_needs_load("http://a", ""));
    assert_eq!(preload_once(false), (true, true));
    assert_eq!(preload_once(true), (false, true));
}
