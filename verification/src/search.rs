//! The search page: what each control does to the search state and which
//! search request it sends.
use vstd::prelude::*;

use crate::text::{chars_of, string_of, trim, trim_bounds};

verus! {

/// A search request for the server.
pub struct SearchRequest {
    pub keyword: String,
    /// 1-based page.
    pub page: i32,
    /// Sort key (`dd`, `da`, `ld`, `vd`).
    pub sort: String,
    pub categories: Vec<String>,
}

/// State of the search page; `C` is the type of a result.
pub struct SearchState<C> {
    pub keyword: String,
    pub results: Vec<C>,
    /// 1-based page of the shown results.
    pub page: i32,
    pub total_pages: i32,
    pub error: Option<String>,
    pub is_loading: bool,
    pub has_searched: bool,
    pub sort: String,
    pub selected_categories: Vec<String>,
    pub show_category_filter: bool,
    pub needs_rebuild: bool,
}

/// The sort key a fresh search page uses ("newest first").
pub open spec fn default_sort() -> Seq<char> {
    seq!['d', 'd']
}

fn default_sort_string() -> (s: String)
    ensures
        s@ == default_sort(),
{
    let s = String::from_str("dd");
    proof {
        reveal_strlit("dd");
    }
    s
}

/// `r` asks for page `page` of `keyword` with the state's sort and categories.
pub open spec fn request_for<C>(r: SearchRequest, state: SearchState<C>, keyword: Seq<char>, page: int) -> bool {
    &&& r.keyword@ == keyword
    &&& r.page == page
    &&& r.sort@ == state.sort@
    &&& r.categories@ == state.selected_categories@
}

/// The state's fields other than the ones a search start changes are kept.
pub open spec fn same_settings<C>(a: SearchState<C>, b: SearchState<C>) -> bool {
    &&& b.sort@ == a.sort@
    &&& b.selected_categories@ == a.selected_categories@
    &&& b.results@ == a.results@
    &&& b.has_searched == a.has_searched
    &&& b.show_category_filter == a.show_category_filter
    &&& b.total_pages == a.total_pages
    &&& b.error == a.error
}

fn clone_categories(v: &Vec<String>) -> (r: Vec<String>)
    ensures
        r@ == v@,
{
    let mut r: Vec<String> = Vec::new();
    let mut i: usize = 0;
    while i < v.len()
        invariant
            i <= v@.len(),
            r@ == v@.subrange(0, i as int),
        decreases v.len() - i,
    {
        r.push(v[i].clone());
        proof {
            assert(r@ =~= v@.subrange(0, i + 1));
        }
        i = i + 1;
    }
    proof {
        assert(v@.subrange(0, v@.len() as int) =~= v@);
    }
    r
}

impl<C> SearchState<C> {
    /// A page that has not searched yet.
    pub fn new() -> (s: Self)
        ensures
            s.keyword@.len() == 0,
            s.results@.len() == 0,
            s.page == 1,
            s.total_pages == 0,
            s.error is None,
            !s.is_loading,
            !s.has_searched,
            s.sort@ == default_sort(),
            s.selected_categories@.len() == 0,
            !s.show_category_filter,
            !s.needs_rebuild,
    {
        SearchState {
            keyword: String::new(),
            results: Vec::new(),
            page: 1,
            total_pages: 0,
            error: None,
            is_loading: false,
            has_searched: false,
            sort: default_sort_string(),
            selected_categories: Vec::new(),
            show_category_filter: false,
            needs_rebuild: false,
        }
    }

    /// Starts a search for `keyword` from page 1.
    fn start(&mut self, keyword: String) -> (r: SearchRequest)
        ensures
            final(self).keyword@ == keyword@,
            final(self).is_loading,
            final(self).needs_rebuild,
            final(self).page == 1,
            same_settings(*old(self), *final(self)),
            request_for(r, *final(self), keyword@, 1),
    {
        let request = SearchRequest {
            keyword: keyword.clone(),
            page: 1,
            sort: self.sort.clone(),
            categories: clone_categories(&self.selected_categories),
        };
        self.keyword = keyword;
        self.is_loading = true;
        self.needs_rebuild = true;
        self.page = 1;
        request
    }

    /// Enter in the search box: searches the trimmed input unless it is blank.
    pub fn submit_input(&mut self, input: &str) -> (r: Option<SearchRequest>)
        ensures
            trim(input@).len() == 0 ==> r is None && *final(self) == *old(self),
            trim(input@).len() > 0 ==> (r matches Some(req) && {
                &&& final(self).keyword@ == trim(input@)
                &&& final(self).is_loading
                &&& final(self).needs_rebuild
                &&& final(self).page == 1
                &&& same_settings(*old(self), *final(self))
                &&& request_for(req, *final(self), trim(input@), 1)
            }),
    {
        let cs = chars_of(input);
        let (a, b) = trim_bounds(cs.as_slice(), 0, cs.len());
        proof {
            assert(cs@.subrange(0, cs@.len() as int) =~= cs@);
        }
        if a == b {
            return None;
        }
        let keyword = string_of(cs.as_slice(), a, b);
        Some(self.start(keyword))
    }

    /// The search button: ignored while loading; searches the trimmed input,
    /// or the current keyword when the input is blank or missing.
    pub fn search_button(&mut self, input: Option<&str>) -> (r: Option<SearchRequest>)
        ensures
            ({
                let kw = match input {
                    Some(s) => if trim(s@).len() > 0 {
                        trim(s@)
                    } else {
                        old(self).keyword@
                    },
                    None => old(self).keyword@,
                };
                &&& old(self).is_loading || kw.len() == 0 ==> r is None && *final(self) == *old(self)
                &&& !old(self).is_loading && kw.len() > 0 ==> (r matches Some(req) && {
                    &&& final(self).keyword@ == kw
                    &&& final(self).is_loading
                    &&& final(self).needs_rebuild
                    &&& final(self).page == 1
                    &&& same_settings(*old(self), *final(self))
                    &&& request_for(req, *final(self), kw, 1)
                })
            }),
    {
        if self.is_loading {
            return None;
        }
        let keyword = match input {
            Some(s) => {
                let cs = chars_of(s);
                let (a, b) = trim_bounds(cs.as_slice(), 0, cs.len());
                proof {
                    assert(cs@.subrange(0, cs@.len() as int) =~= cs@);
                }
                if a < b {
                    string_of(cs.as_slice(), a, b)
                } else {
                    self.keyword.clone()
                }
            },
            None => self.keyword.clone(),
        };
        if keyword.unicode_len() == 0 {
            return None;
        }
        Some(self.start(keyword))
    }

    /// A hot keyword: searches it as given.
    pub fn hot_keyword(&mut self, keyword: &str) -> (r: SearchRequest)
        ensures
            final(self).keyword@ == keyword@,
            final(self).is_loading,
            final(self).needs_rebuild,
            final(self).page == 1,
            same_settings(*old(self), *final(self)),
            request_for(r, *final(self), keyword@, 1),
    {
        self.start(String::from_str(keyword))
    }

    /// The reset button: back to a page that has not searched.
    pub fn reset(&mut self)
        ensures
            final(self).keyword@.len() == 0,
            final(self).results@.len() == 0,
            final(self).page == 1,
            final(self).total_pages == 0,
            final(self).error is None,
            !final(self).is_loading,
            !final(self).has_searched,
            final(self).sort@ == default_sort(),
            final(self).selected_categories@.len() == 0,
            !final(self).show_category_filter,
            final(self).needs_rebuild,
    {
        self.keyword = String::new();
        self.results.clear();
        self.page = 1;
        self.total_pages = 0;
        self.error = None;
        self.is_loading = false;
        self.has_searched = false;
        self.sort = default_sort_string();
        self.selected_categories.clear();
        self.show_category_filter = false;
        self.needs_rebuild = true;
    }

    /// Searches again from page 1 when a search was already made; used after
    /// a change of sort or categories.
    fn research(&mut self) -> (r: Option<SearchRequest>)
        ensures
            old(self).has_searched && old(self).keyword@.len() > 0 ==> (r matches Some(req) && {
                &&& final(self).keyword@ == old(self).keyword@
                &&& final(self).is_loading
                &&& final(self).page == 1
                &&& final(self).needs_rebuild == old(self).needs_rebuild
                &&& same_settings(*old(self), *final(self))
                &&& request_for(req, *final(self), old(self).keyword@, 1)
            }),
            !(old(self).has_searched && old(self).keyword@.len() > 0) ==> r is None && *final(self)
                == *old(self),
    {
        if self.has_searched && self.keyword.unicode_len() > 0 {
            self.page = 1;
            self.is_loading = true;
            Some(
                SearchRequest {
                    keyword: self.keyword.clone(),
                    page: 1,
                    sort: self.sort.clone(),
                    categories: clone_categories(&self.selected_categories),
                },
            )
        } else {
            None
        }
    }

    /// A sort button: choosing a different sort re-runs a search already made.
    pub fn choose_sort(&mut self, sort: &str) -> (r: Option<SearchRequest>)
        ensures
            old(self).sort@ == sort@ ==> r is None && *final(self) == *old(self),
            old(self).sort@ != sort@ ==> {
                &&& final(self).sort@ == sort@
                &&& final(self).needs_rebuild
                &&& final(self).selected_categories@ == old(self).selected_categories@
                &&& final(self).keyword@ == old(self).keyword@
                &&& old(self).has_searched && old(self).keyword@.len() > 0 ==> (r matches Some(req)
                    && final(self).page == 1 && final(self).is_loading && request_for(
                    req,
                    *final(self),
                    old(self).keyword@,
                    1,
                ))
                &&& !(old(self).has_searched && old(self).keyword@.len() > 0) ==> r is None
                    && final(self).page == old(self).page && final(self).is_loading
                    == old(self).is_loading
            },
    {
        let new_sort = String::from_str(sort);
        if self.sort == new_sort {
            return None;
        }
        self.sort = new_sort;
        self.needs_rebuild = true;
        self.research()
    }

    /// A category check box: selects the category, or unselects its first
    /// occurrence, then re-runs a search already made.
    pub fn toggle_category(&mut self, category: String) -> (r: Option<SearchRequest>)
        ensures
            final(self).selected_categories@ == toggled(old(self).selected_categories@, category),
            final(self).needs_rebuild,
            final(self).sort@ == old(self).sort@,
            final(self).keyword@ == old(self).keyword@,
            old(self).has_searched && old(self).keyword@.len() > 0 ==> (r matches Some(req)
                && final(self).page == 1 && final(self).is_loading && request_for(
                req,
                *final(self),
                old(self).keyword@,
                1,
            )),
            !(old(self).has_searched && old(self).keyword@.len() > 0) ==> r is None
                && final(self).page == old(self).page && final(self).is_loading
                == old(self).is_loading,
    {
        let mut i: usize = 0;
        while i < self.selected_categories.len() && self.selected_categories[i] != category
            invariant
                i <= self.selected_categories@.len(),
                self.selected_categories@ == old(self).selected_categories@,
                forall|j: int| 0 <= j < i ==> (#[trigger] self.selected_categories@[j])@ != category@,
            decreases self.selected_categories.len() - i,
        {
            i = i + 1;
        }
        proof {
            lemma_first_index(self.selected_categories@, category@, i as int);
        }
        if i < self.selected_categories.len() {
            self.selected_categories.remove(i);
        } else {
            self.selected_categories.push(category);
        }
        self.needs_rebuild = true;
        self.research()
    }

    /// "Select all": selects every available category.
    pub fn select_all_categories(&mut self, all: Vec<String>) -> (r: Option<SearchRequest>)
        ensures
            final(self).selected_categories@ == all@,
            final(self).needs_rebuild,
            old(self).has_searched && old(self).keyword@.len() > 0 ==> (r matches Some(req)
                && final(self).page == 1 && final(self).is_loading && request_for(
                req,
                *final(self),
                old(self).keyword@,
                1,
            )),
            !(old(self).has_searched && old(self).keyword@.len() > 0) ==> r is None,
    {
        self.selected_categories = all;
        self.needs_rebuild = true;
        self.research()
    }

    /// "Clear": unselects every category; nothing happens when none is selected.
    pub fn clear_categories(&mut self) -> (r: Option<SearchRequest>)
        ensures
            old(self).selected_categories@.len() == 0 ==> r is None && *final(self) == *old(self),
            old(self).selected_categories@.len() > 0 ==> {
                &&& final(self).selected_categories@.len() == 0
                &&& final(self).needs_rebuild
                &&& old(self).has_searched && old(self).keyword@.len() > 0 ==> (r matches Some(req)
                    && final(self).page == 1 && request_for(req, *final(self), old(self).keyword@, 1))
                &&& !(old(self).has_searched && old(self).keyword@.len() > 0) ==> r is None
            },
    {
        if self.selected_categories.len() == 0 {
            return None;
        }
        self.selected_categories.clear();
        self.needs_rebuild = true;
        self.research()
    }

    /// Shows or hides the category panel.
    pub fn toggle_category_filter(&mut self)
        ensures
            final(self).show_category_filter == !old(self).show_category_filter,
            final(self).needs_rebuild,
            final(self).selected_categories@ == old(self).selected_categories@,
            final(self).keyword@ == old(self).keyword@,
    {
        self.show_category_filter = !self.show_category_filter;
        self.needs_rebuild = true;
    }

    /// The pagination control moved to `new_page`. A move to the page already
    /// shown does nothing; while loading, the control is sent back to the
    /// shown page (second result); otherwise that page is requested.
    pub fn page_changed(&mut self, new_page: u32) -> (r: (Option<SearchRequest>, Option<u32>))
        ensures
            ({
                let shown = if old(self).page >= 1 {
                    old(self).page as int
                } else {
                    1
                };
                &&& (new_page as i32) as int == shown ==> r.0 is None && r.1 is None && *final(self)
                    == *old(self)
                &&& (new_page as i32) as int != shown && old(self).is_loading ==> r.0 is None && r.1
                    == Some(shown as u32) && *final(self) == *old(self)
                &&& (new_page as i32) as int != shown && !old(self).is_loading ==> (r.0 matches Some(req)
                    && r.1 is None && {
                    &&& final(self).page == new_page as i32
                    &&& final(self).is_loading
                    &&& final(self).needs_rebuild
                    &&& final(self).keyword@ == old(self).keyword@
                    &&& same_settings(*old(self), *final(self))
                    &&& request_for(req, *final(self), old(self).keyword@, new_page as i32 as int)
                })
            }),
    {
        let p = new_page as i32;
        let shown = if self.page >= 1 {
            self.page
        } else {
            1
        };
        if p == shown {
            return (None, None);
        }
        if self.is_loading {
            return (None, Some(shown as u32));
        }
        self.page = p;
        self.is_loading = true;
        self.needs_rebuild = true;
        let req = SearchRequest {
            keyword: self.keyword.clone(),
            page: p,
            sort: self.sort.clone(),
            categories: clone_categories(&self.selected_categories),
        };
        (Some(req), None)
    }
}

/// The characters of each string of a list.
pub open spec fn strings_view(v: Seq<String>) -> Seq<Seq<char>> {
    v.map_values(|s: String| s@)
}

/// First index of `x` in `v`, if any.
pub open spec fn first_index(v: Seq<String>, x: Seq<char>) -> Option<int>
    decreases v.len(),
{
    if v.len() == 0 {
        None
    } else if v[0]@ == x {
        Some(0)
    } else {
        match first_index(v.drop_first(), x) {
            Some(i) => Some(i + 1),
            None => None,
        }
    }
}

proof fn lemma_first_index(v: Seq<String>, x: Seq<char>, i: int)
    requires
        0 <= i <= v.len(),
        forall|j: int| 0 <= j < i ==> (#[trigger] v[j])@ != x,
        i == v.len() || v[i]@ == x,
    ensures
        first_index(v, x) == if i < v.len() {
            Some(i)
        } else {
            None::<int>
        },
    decreases i,
{
    if i > 0 {
        let t = v.drop_first();
        assert forall|j: int| 0 <= j < i - 1 implies (#[trigger] t[j])@ != x by {
            assert(t[j] == v[j + 1]);
        }
        if i < v.len() {
            assert(t[i - 1] == v[i]);
        }
        lemma_first_index(t, x, i - 1);
    }
}

/// The selection after toggling `x`: its first occurrence removed, or `x`
/// added at the end when absent.
pub open spec fn toggled(v: Seq<String>, x: String) -> Seq<String> {
    match first_index(v, x@) {
        Some(i) => v.remove(i),
        None => v.push(x),
    }
}


/// Some string of `v` has the characters `x`.
pub open spec fn contains_view(v: Seq<String>, x: Seq<char>) -> bool {
    exists|j: int| 0 <= j < v.len() && (#[trigger] v[j])@ == x
}

/// No two strings of `v` have the same characters.
pub open spec fn distinct_views(v: Seq<String>) -> bool {
    forall|i: int, j: int| 0 <= i < j < v.len() ==> (#[trigger] v[i])@ != (#[trigger] v[j])@
}

/// Ticking a category box twice gives back the selection it was ticked on,
/// when that category was not selected.
pub proof fn lemma_toggle_twice_restores(v: Seq<String>, x: String)
    requires
        !contains_view(v, x@),
    ensures
        toggled(toggled(v, x), x) == v,
{
    lemma_first_index(v, x@, v.len() as int);
    let w = v.push(x);
    assert forall|j: int| 0 <= j < v.len() implies (#[trigger] w[j])@ != x@ by {
        assert(w[j] == v[j]);
    }
    lemma_first_index(w, x@, v.len() as int);
    assert(w.remove(v.len() as int) =~= v);
}

/// On a selection without repeats, ticking a category box flips whether the
/// category is selected and keeps the selection without repeats.
pub proof fn lemma_toggle_flips_membership(v: Seq<String>, x: String)
    requires
        distinct_views(v),
    ensures
        distinct_views(toggled(v, x)),
        contains_view(toggled(v, x), x@) == !contains_view(v, x@),
{
    if contains_view(v, x@) {
        let i = choose|i: int| 0 <= i < v.len() && (#[trigger] v[i])@ == x@;
        assert forall|j: int| 0 <= j < i implies (#[trigger] v[j])@ != x@ by {
            assert(v[j]@ != v[i]@);
        }
        lemma_first_index(v, x@, i);
        let w = v.remove(i);
        assert(toggled(v, x) == w);
        assert forall|a: int, b: int| 0 <= a < b < w.len() implies (#[trigger] w[a])@ != (#[trigger] w[b])@ by {
            let a2 = if a < i { a } else { a + 1 };
            let b2 = if b < i { b } else { b + 1 };
            assert(w[a] == v[a2]);
            assert(w[b] == v[b2]);
            assert(v[a2]@ != v[b2]@);
        }
        if contains_view(w, x@) {
            let k = choose|k: int| 0 <= k < w.len() && (#[trigger] w[k])@ == x@;
            let k2 = if k < i { k } else { k + 1 };
            assert(w[k] == v[k2]);
            if k2 < i {
                assert(v[k2]@ != v[i]@);
            } else {
                assert(v[i]@ != v[k2]@);
            }
        }
    } else {
        lemma_first_index(v, x@, v.len() as int);
        let w = v.push(x);
        assert(toggled(v, x) == w);
        assert(w[v.len() as int] == x);
        assert forall|a: int, b: int| 0 <= a < b < w.len() implies (#[trigger] w[a])@ != (#[trigger] w[b])@ by {
            assert(w[a] == v[a]);
            if b < v.len() {
                assert(w[b] == v[b]);
            } else {
                assert(!(0 <= a < v.len() && v[a]@ == x@));
            }
        }
    }
}


// ==================== what the page shows ====================

/// The sort keys of the page, with their button labels.
pub open spec fn sort_option_list() -> Seq<(Seq<char>, Seq<char>)> {
    seq![("dd"@, "新到旧"@), ("da"@, "旧到新"@), ("ld"@, "点赞最多"@), ("vd"@, "浏览最多"@)]
}

/// The sort keys of the page, with their button labels, in button order.
pub fn sort_options() -> (r: Vec<(&'static str, &'static str)>)
    ensures
        r@.len() == 4,
        forall|i: int| 0 <= i < 4 ==> (#[trigger] r@[i]).0@ == sort_option_list()[i].0 && r@[i].1@
            == sort_option_list()[i].1,
{
    let r = vec![("dd", "新到旧"), ("da", "旧到新"), ("ld", "点赞最多"), ("vd", "浏览最多")];
    r
}

/// The label of the category filter button: the count of chosen categories
/// in brackets when there are any.
pub fn filter_button_label(selected: usize) -> (r: String)
    ensures
        selected == 0 ==> r@ == "分类过滤"@,
        selected > 0 ==> r@ == "分类过滤 ("@ + crate::text::decimal_digits(selected as nat) + ")"@,
{
    if selected == 0 {
        String::from_str("分类过滤")
    } else {
        let a = crate::text::concat_str("分类过滤 (", crate::text::u64_to_string(selected as u64).as_str());
        crate::text::concat_str(a.as_str(), ")")
    }
}

/// The line over the category boxes.
pub fn selected_count_text(selected: usize) -> (r: String)
    ensures
        selected == 0 ==> r@ == "未选择分类（搜索所有分类）"@,
        selected > 0 ==> r@ == "已选 "@ + crate::text::decimal_digits(selected as nat) + " 个分类"@,
{
    if selected == 0 {
        String::from_str("未选择分类（搜索所有分类）")
    } else {
        let a = crate::text::concat_str("已选 ", crate::text::u64_to_string(selected as u64).as_str());
        crate::text::concat_str(a.as_str(), " 个分类")
    }
}

/// What the result area shows.
pub enum SearchContent {
    /// "searching…"
    Loading,
    /// The failure message.
    Failed(String),
    /// The "nothing found" message.
    NothingFound(String),
    /// The start hint, with the hot keywords when there are any.
    Start { show_hot_keywords: bool },
    /// The result cards under a summary line.
    Results(String),
}

impl<C> SearchState<C> {
    /// What the result area shows: loading first, then a failure, then
    /// "nothing found" after a search without results, the start hint before
    /// any search, and the results.
    pub fn content(&self, has_hot_keywords: bool) -> (r: SearchContent)
        ensures
            self.is_loading ==> r is Loading,
            !self.is_loading && self.error is Some ==> (r matches SearchContent::Failed(m) && m@
                == "搜索失败: "@ + self.error->0@),
            !self.is_loading && self.error is None && self.has_searched && self.results@.len() == 0
                ==> (r matches SearchContent::NothingFound(m) && m@ == "未找到与 \""@ + self.keyword@
                + "\" 相关的漫画"@),
            !self.is_loading && self.error is None && !self.has_searched ==> r == (
            SearchContent::Start { show_hot_keywords: has_hot_keywords }),
            !self.is_loading && self.error is None && self.has_searched && self.results@.len() > 0
                ==> (r matches SearchContent::Results(m) && m@ == "共找到 "@
                + crate::text::signed_decimal(self.total_pages as int) + " 页结果（第 "@
                + crate::text::signed_decimal(self.page as int) + " 页）"@),
    {
        if self.is_loading {
            return SearchContent::Loading;
        }
        match &self.error {
            Some(e) => {
                return SearchContent::Failed(crate::text::concat_str("搜索失败: ", e.as_str()));
            },
            None => {},
        }
        if self.has_searched && self.results.len() == 0 {
            let a = crate::text::concat_str("未找到与 \"", self.keyword.as_str());
            return SearchContent::NothingFound(crate::text::concat_str(a.as_str(), "\" 相关的漫画"));
        }
        if !self.has_searched {
            return SearchContent::Start { show_hot_keywords: has_hot_keywords };
        }
        let a = crate::text::concat_str("共找到 ", crate::text::i64_to_string(self.total_pages as i64).as_str());
        let b = crate::text::concat_str(a.as_str(), " 页结果（第 ");
        let c = crate::text::concat_str(b.as_str(), crate::text::i64_to_string(self.page as i64).as_str());
        SearchContent::Results(crate::text::concat_str(c.as_str(), " 页）"))
    }
}


/// The first three of a list (all of it when shorter).
pub open spec fn first_three(v: Seq<String>) -> Seq<String> {
    if v.len() <= 3 {
        v
    } else {
        v.take(3)
    }
}

/// The category and tag badges of a result card: the first three of each.
pub fn result_card_badges(categories: &Vec<String>, tags: &Vec<String>) -> (r: (Vec<String>, Vec<String>))
    ensures
        strings_view(r.0@) == strings_view(first_three(categories@)),
        strings_view(r.1@) == strings_view(first_three(tags@)),
{
    (first_strings(categories, 3), first_strings(tags, 3))
}

fn first_strings(v: &Vec<String>, n: usize) -> (r: Vec<String>)
    requires
        n == 3,
    ensures
        strings_view(r@) == strings_view(first_three(v@)),
{
    let k = if v.len() < n {
        v.len()
    } else {
        n
    };
    let mut r: Vec<String> = Vec::new();
    let mut i: usize = 0;
    while i < k
        invariant
            i <= k <= v@.len(),
            k == if v@.len() < 3 { v@.len() } else { 3 },
            strings_view(r@) == strings_view(v@.take(i as int)),
        decreases k - i,
    {
        let ghost before = r@;
        let x = String::from_str(v[i].as_str());
        r.push(x);
        proof {
            assert(r@ =~= before.push(x));
            assert(v@.take(i + 1) =~= v@.take(i as int).push(v@[i as int]));
            assert(strings_view(r@) =~= strings_view(before).push(x@));
            assert(strings_view(v@.take(i + 1)) =~= strings_view(v@.take(i as int)).push(v@[i as int]@));
        }
        i = i + 1;
    }
    proof {
        if v@.len() <= 3 {
            assert(v@.take(k as int) =~= v@);
        }
    }
    r
}

} // verus!
