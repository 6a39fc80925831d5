use picacg_app::history::{
    back_fallback, handle_back_navigation, navigate_back, navigate_forward, navigate_to,
    navigate_to_categories, return_to_login, NavigationHistory,
};
use picacg_app::reader::{
    detect_chapter_switch, episode_heading, follow_webtoon_anchor, mode_change, navigate_page,
    handle_pictures_loaded, open_comic, page_label, reader_keys, save_reading_history,
    resolve_last_page_marker, rotate_slot, slot_pages, sort_episodes, toggle_read_mode,
    trigger_load_pictures, webtoon_load_range, wheel_page_turn, Episode, HistoryPoint, PageTurn,
    Picture, PicturesLoaded, ReadMode, ReaderState, SlotType, LAST_PAGE_MARKER,
};
use picacg_app::routes::{get_default_route, get_sidebar_route, is_sidebar_route_active, AppRoute, SidebarRoute};

fn ep(order: i32, title: &str) -> Episode {
    Episode { order, title: title.to_string() }
}

fn pic(n: usize) -> Vec<Picture> {
    (0..n).map(|i| Picture { url: format!("u{i}"), original_name: format!("{i}.jpg") }).collect()
}

fn reader() -> ReaderState {
    ReaderState {
        comic_id: String::new(),
        comic_title: String::new(),
        episodes: Vec::new(),
        current_episode_idx: 0,
        episode_order: 0,
        current_page: 0,
        total_pages: 0,
        pictures: Vec::new(),
        page_metas: Vec::new(),
        is_loading: false,
        error: None,
        is_loading_next_chapter: false,
        next_chapter_pictures: Vec::new(),
        is_loading_all_chapters: false,
        read_mode: ReadMode::SinglePage,
        anchor_page: 0,
    }
}

#[test]
fn chapters_sort_stably_and_open_at_the_asked_one() {
    let sorted = sort_episodes(vec![ep(3, "c"), ep(1, "a"), ep(2, "b1"), ep(2, "b2")]);
    let titles: Vec<&str> = sorted.iter().map(|e| e.title.as_str()).collect();
    assert_eq!(titles, vec!["a", "b1", "b2", "c"]);
    let mut s = reader();
    open_comic(&mut s, "id".to_string(), "T".to_string(), vec![ep(3, "c"), ep(1, "a"), ep(2, "b")], 2);
    assert_eq!(s.current_episode_idx, 1);
    assert_eq!(trigger_load_pictures(&mut s), Some(2));
    assert_eq!(trigger_load_pictures(&mut s), None);
    let mut missing = reader();
    open_comic(&mut missing, "id".to_string(), "T".to_string(), vec![ep(5, "e")], 9);
    assert_eq!(missing.current_episode_idx, 0);
}

#[test]
fn paging_crosses_chapters() {
    let mut s = reader();
    open_comic(&mut s, "id".to_string(), "T".to_string(), vec![ep(1, "a"), ep(2, "b")], 1);
    assert_eq!(navigate_page(&mut s, true), PageTurn::Refused);
    assert_eq!(handle_pictures_loaded(&mut s, pic(2)), PicturesLoaded::ShowSinglePage);
    assert_eq!(navigate_page(&mut s, true), PageTurn::Turned);
    assert_eq!(s.current_page, 1);
    assert_eq!(navigate_page(&mut s, true), PageTurn::ChapterRequested { episode_order: 2 });
    assert!(s.is_loading && s.pictures.is_empty() && s.current_page == 0);
    handle_pictures_loaded(&mut s, pic(3));
    assert_eq!(navigate_page(&mut s, false), PageTurn::ChapterRequested { episode_order: 1 });
    assert_eq!(s.current_page, LAST_PAGE_MARKER);
    handle_pictures_loaded(&mut s, pic(4));
    assert_eq!(s.current_page, 3);
    s.current_page = LAST_PAGE_MARKER;
    assert!(resolve_last_page_marker(&mut s));
    assert_eq!(s.current_page, 3);
    assert_eq!(navigate_page(&mut s, false), PageTurn::Turned);
    assert_eq!(navigate_page(&mut s, true), PageTurn::Turned);
    assert_eq!(s.current_page, 3);
}

#[test]
fn next_then_previous_returns_to_the_page() {
    let mut s = reader();
    open_comic(&mut s, "id".to_string(), "T".to_string(), vec![ep(1, "a")], 1);
    handle_pictures_loaded(&mut s, pic(5));
    s.current_page = 2;
    navigate_page(&mut s, true);
    navigate_page(&mut s, false);
    assert_eq!(s.current_page, 2);
}

#[test]
fn slots_and_windows() {
    assert_eq!(slot_pages(0, 3), (None, 0, Some(1)));
    assert_eq!(slot_pages(2, 3), (Some(1), 2, None));
    assert_eq!(rotate_slot(SlotType::Prev, Some(0), 2, 5), (Some(1), false, true));
    assert_eq!(rotate_slot(SlotType::Current, Some(2), 2, 5), (Some(2), true, false));
    assert_eq!(rotate_slot(SlotType::Next, Some(3), 4, 5), (None, false, true));
    assert_eq!(webtoon_load_range(1, 100), (0, 5));
    assert_eq!(webtoon_load_range(10, 12), (7, 12));
    let mut s = reader();
    s.anchor_page = 6;
    s.total_pages = 20;
    assert_eq!(follow_webtoon_anchor(&mut s), (3, 10));
    assert_eq!(s.current_page, 6);
}

#[test]
fn modes_keys_and_labels() {
    let mut s = reader();
    assert_eq!(toggle_read_mode(&mut s), "条漫");
    assert_eq!(s.read_mode, ReadMode::Webtoon);
    assert_eq!(toggle_read_mode(&mut s), "单页");
    assert_eq!(mode_change(None, ReadMode::Webtoon, true), (false, Some(ReadMode::Webtoon)));
    assert_eq!(mode_change(Some(ReadMode::SinglePage), ReadMode::Webtoon, true), (true, Some(ReadMode::Webtoon)));
    assert_eq!(mode_change(Some(ReadMode::SinglePage), ReadMode::Webtoon, false).0, false);
    assert_eq!(reader_keys(false, true, false, false, true, false), (true, true, false));
    assert_eq!(wheel_page_turn(true, false), Some(true));
    assert_eq!(wheel_page_turn(false, true), Some(false));
    assert_eq!(wheel_page_turn(false, false), None);
    assert_eq!(page_label(0, 12), "1 / 12");
    s.episodes = vec![ep(1, "序章")];
    s.episode_order = 1;
    assert_eq!(episode_heading(&s), "第 1 章 - 序章");
    s.current_episode_idx = 5;
    assert_eq!(episode_heading(&s), "第 1 章 - 未知章节");
}

#[test]
fn reading_progress_is_saved_once_per_position() {
    let mut s = reader();
    assert_eq!(save_reading_history((0, 0), &s), ((0, 0), None));
    s.comic_id = "c".to_string();
    s.pictures = pic(3);
    s.episode_order = 2;
    s.current_page = 1;
    let (last, point) = save_reading_history((0, 0), &s);
    assert_eq!(last, (2, 1));
    assert_eq!(point, Some(HistoryPoint { episode_order: 2, last_page: 2 }));
    assert_eq!(save_reading_history(last, &s).1, None);
    assert_eq!(detect_chapter_switch(0, &s), (2, false));
    assert_eq!(detect_chapter_switch(1, &s), (2, true));
}

#[test]
fn back_and_forward() {
    let mut h = NavigationHistory::new();
    assert_eq!(navigate_back(&mut h, AppRoute::ComicDetail), Some(AppRoute::ComicsList));
    assert_eq!(navigate_back(&mut h, AppRoute::Home), None);
    assert_eq!(navigate_to(&mut h, AppRoute::Home, AppRoute::ComicDetail), AppRoute::ComicDetail);
    assert_eq!(navigate_back(&mut h, AppRoute::ComicDetail), Some(AppRoute::Home));
    assert_eq!(navigate_forward(&mut h, AppRoute::Home), Some(AppRoute::ComicDetail));
    assert_eq!(navigate_forward(&mut h, AppRoute::ComicDetail), None);
    assert_eq!(navigate_to_categories(&mut h, AppRoute::Categories), None);
    assert_eq!(navigate_to_categories(&mut h, AppRoute::Search), Some(AppRoute::Categories));
    assert_eq!(h.back_stack, vec![AppRoute::Home, AppRoute::Search]);
    assert_eq!(return_to_login(&mut h), AppRoute::Login);
    assert!(h.back_stack.is_empty() && h.forward_stack.is_empty());
    assert_eq!(back_fallback(AppRoute::GameDetail), Some(AppRoute::Games));
    assert_eq!(handle_back_navigation(true, true, true, true), (2, true));
    assert_eq!(handle_back_navigation(false, false, true, true), (0, false));
}

#[test]
fn sections_remember_their_last_page() {
    let mut h = NavigationHistory::new();
    assert_eq!(h.get_section_route(SidebarRoute::Categories), get_default_route(SidebarRoute::Categories));
    h.update_section_route(&AppRoute::ComicsList);
    assert_eq!(h.get_section_route(SidebarRoute::Categories), AppRoute::ComicsList);
    h.update_section_route(&AppRoute::ComicDetail);
    assert_eq!(h.get_section_route(SidebarRoute::Categories), AppRoute::ComicsList);
    assert_eq!(get_sidebar_route(&AppRoute::ChatRoom), Some(SidebarRoute::Chat));
    assert_eq!(get_sidebar_route(&AppRoute::ReadView), None);
    assert!(is_sidebar_route_active(SidebarRoute::Games, &AppRoute::GameDetail));
    assert!(!is_sidebar_route_active(SidebarRoute::Home, &AppRoute::ComicDetail));
}
