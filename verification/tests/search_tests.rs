use picacg_app::search::{SearchRequest, SearchState};

fn req_keyword(r: &Option<SearchRequest>) -> Option<String> {
    r.as_ref().map(|r| r.keyword.clone())
}

#[test]
fn blank_input_does_not_search() {
    let mut s: SearchState<u8> = SearchState::new();
    assert!(s.submit_input("   ").is_none());
    assert!(!s.is_loading);
    let r = s.submit_input("  猫娘 ");
    assert_eq!(req_keyword(&r), Some("猫娘".to_string()));
    assert_eq!(r.as_ref().map(|r| (r.page, r.sort.clone())), Some((1, "dd".to_string())));
    assert!(s.is_loading && s.page == 1);
}

#[test]
fn button_falls_back_to_the_keyword_and_waits_while_loading() {
    let mut s: SearchState<u8> = SearchState::new();
    assert!(s.search_button(None).is_none());
    s.keyword = "old".to_string();
    assert_eq!(req_keyword(&s.search_button(Some("  "))), Some("old".to_string()));
    assert!(s.search_button(Some("new")).is_none());
    s.is_loading = false;
    assert_eq!(req_keyword(&s.search_button(Some("new"))), Some("new".to_string()));
}

#[test]
fn categories_toggle_and_research() {
    let mut s: SearchState<u8> = SearchState::new();
    assert!(s.toggle_category("A".to_string()).is_none());
    assert_eq!(s.selected_categories, vec!["A".to_string()]);
    assert!(s.toggle_category("A".to_string()).is_none());
    assert!(s.selected_categories.is_empty());
    s.keyword = "k".to_string();
    s.has_searched = true;
    let r = s.toggle_category("B".to_string()).expect("research");
    assert_eq!(r.categories, vec!["B".to_string()]);
    assert!(s.choose_sort("dd").is_none());
    s.is_loading = false;
    let r = s.choose_sort("ld").expect("research");
    assert_eq!(r.sort, "ld");
    let r = s.clear_categories().expect("research");
    assert!(r.categories.is_empty());
    assert!(s.clear_categories().is_none());
    let r = s.select_all_categories(vec!["x".to_string(), "y".to_string()]).expect("research");
    assert_eq!(r.categories.len(), 2);
    s.toggle_category_filter();
    assert!(s.show_category_filter);
}

#[test]
fn pages_wait_for_the_running_search() {
    let mut s: SearchState<u8> = SearchState::new();
    s.keyword = "k".to_string();
    assert!(matches!(s.page_changed(1), (None, None)));
    let (r, back) = s.page_changed(3);
    assert!(back.is_none());
    assert_eq!(r.map(|r| r.page), Some(3));
    let (r, back) = s.page_changed(4);
    assert!(r.is_none());
    assert_eq!(back, Some(3));
    s.reset();
    assert!(s.keyword.is_empty() && s.page == 1 && s.sort == "dd" && !s.has_searched);
}
