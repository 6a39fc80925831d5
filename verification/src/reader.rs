//! The comic reader: paging within a chapter, switching chapters, the
//! pre-loaded pages of single-page mode and the loading window of webtoon
//! mode, and when reading progress is saved.
use vstd::prelude::*;

use crate::text::{decimal_digits, push_char, u64_to_string};

verus! {

/// How pages are shown.
#[derive(Clone, Copy, Debug, PartialEq, Eq, Structural)]
pub enum ReadMode {
    /// One page at a time.
    SinglePage,
    /// All pages in one vertical strip.
    Webtoon,
}

/// A chapter of a comic.
pub struct Episode {
    /// Position of the chapter in the comic (1 for the first).
    pub order: i32,
    pub title: String,
}

/// One page image of a chapter.
pub struct Picture {
    pub url: String,
    pub original_name: String,
}

/// Where a page of the webtoon strip comes from.
#[derive(Clone, Copy, Debug, PartialEq, Eq, Structural)]
pub struct PageMeta {
    /// Order of the chapter the page belongs to.
    pub episode_order: i32,
    /// Index of the page within its chapter.
    pub page_in_chapter: usize,
}

/// Marker for "show the last page once the chapter is loaded".
pub const LAST_PAGE_MARKER: usize = usize::MAX;

/// How many pages around the current one webtoon mode loads on each side.
pub const WEBTOON_PRELOAD_RANGE: usize = 3;

/// The paging state of the reader.
pub struct ReaderState {
    pub comic_id: String,
    pub comic_title: String,
    /// Chapters sorted by order.
    pub episodes: Vec<Episode>,
    pub current_episode_idx: usize,
    pub episode_order: i32,
    /// Page shown (0-based); `LAST_PAGE_MARKER` while a previous chapter loads.
    pub current_page: usize,
    pub total_pages: usize,
    pub pictures: Vec<Picture>,
    pub page_metas: Vec<PageMeta>,
    pub is_loading: bool,
    pub error: Option<String>,
    pub is_loading_next_chapter: bool,
    pub next_chapter_pictures: Vec<Picture>,
    pub is_loading_all_chapters: bool,
    pub read_mode: ReadMode,
    /// Page the webtoon strip is anchored on.
    pub anchor_page: usize,
}

/// The result of a page turn.
#[derive(Clone, Copy, Debug, PartialEq, Eq, Structural)]
pub enum PageTurn {
    /// Nothing happened (no pictures, loading, or no chapter in that direction).
    Refused,
    /// The page changed within the chapter.
    Turned,
    /// Another chapter was selected; its pictures must be loaded.
    ChapterRequested { episode_order: i32 },
}

/// The reader state after the chapter at `idx` has been selected: pictures
/// dropped, loading started, and the page set to the first one (going
/// forward) or to the last-page marker (going back).
pub open spec fn chapter_selected(
    before: ReaderState,
    after: ReaderState,
    idx: int,
    forward: bool,
) -> bool {
    &&& after.current_episode_idx == idx
    &&& after.episode_order == before.episodes@[idx].order
    &&& after.pictures@.len() == 0
    &&& after.page_metas@.len() == 0
    &&& after.total_pages == 0
    &&& after.current_page == if forward {
        0
    } else {
        LAST_PAGE_MARKER
    }
    &&& after.is_loading
    &&& after.error is None
    &&& after.next_chapter_pictures@.len() == 0
    &&& after.episodes@ == before.episodes@
    &&& after.comic_id@ == before.comic_id@
    &&& after.comic_title@ == before.comic_title@
    &&& after.read_mode == before.read_mode
    &&& after.is_loading_next_chapter == before.is_loading_next_chapter
    &&& after.is_loading_all_chapters == before.is_loading_all_chapters
    &&& after.anchor_page == before.anchor_page
}

/// The reader state is unchanged in every field a page turn can touch.
pub open spec fn unchanged(before: ReaderState, after: ReaderState) -> bool {
    &&& after.current_episode_idx == before.current_episode_idx
    &&& after.episode_order == before.episode_order
    &&& after.current_page == before.current_page
    &&& after.total_pages == before.total_pages
    &&& after.pictures@ == before.pictures@
    &&& after.page_metas@ == before.page_metas@
    &&& after.is_loading == before.is_loading
    &&& after.error == before.error
    &&& after.next_chapter_pictures@ == before.next_chapter_pictures@
    &&& after.episodes@ == before.episodes@
    &&& after.comic_id@ == before.comic_id@
    &&& after.comic_title@ == before.comic_title@
    &&& after.read_mode == before.read_mode
    &&& after.is_loading_next_chapter == before.is_loading_next_chapter
    &&& after.is_loading_all_chapters == before.is_loading_all_chapters
    &&& after.anchor_page == before.anchor_page
}

/// The comic, its chapter list, the chapter shown, the error, the stored
/// next chapter and the reading mode are the same in both.
pub open spec fn same_comic(before: ReaderState, after: ReaderState) -> bool {
    &&& after.comic_id@ == before.comic_id@
    &&& after.comic_title@ == before.comic_title@
    &&& after.episodes@ == before.episodes@
    &&& after.current_episode_idx == before.current_episode_idx
    &&& after.episode_order == before.episode_order
    &&& after.error == before.error
    &&& after.next_chapter_pictures@ == before.next_chapter_pictures@
    &&& after.is_loading_next_chapter == before.is_loading_next_chapter
    &&& after.read_mode == before.read_mode
}

/// Only the current page differs.
pub open spec fn page_moved(before: ReaderState, after: ReaderState, page: int) -> bool {
    &&& after.current_page == page
    &&& after.current_episode_idx == before.current_episode_idx
    &&& after.episode_order == before.episode_order
    &&& after.total_pages == before.total_pages
    &&& after.pictures@ == before.pictures@
    &&& after.page_metas@ == before.page_metas@
    &&& after.is_loading == before.is_loading
    &&& after.error == before.error
    &&& after.next_chapter_pictures@ == before.next_chapter_pictures@
    &&& after.episodes@ == before.episodes@
    &&& after.comic_id@ == before.comic_id@
    &&& after.comic_title@ == before.comic_title@
    &&& after.read_mode == before.read_mode
    &&& after.is_loading_next_chapter == before.is_loading_next_chapter
    &&& after.is_loading_all_chapters == before.is_loading_all_chapters
    &&& after.anchor_page == before.anchor_page
}

/// Selects the next (`is_next`) or previous chapter. Returns the order of
/// the chapter to load, or `None` (state unchanged) at either end.
pub fn try_switch_chapter(state: &mut ReaderState, is_next: bool) -> (r: Option<i32>)
    ensures
        is_next && old(state).current_episode_idx + 1 >= old(state).episodes@.len() ==> r is None
            && unchanged(*old(state), *final(state)),
        !is_next && old(state).current_episode_idx == 0 ==> r is None && unchanged(
            *old(state),
            *final(state),
        ),
        is_next && old(state).current_episode_idx + 1 < old(state).episodes@.len() ==> {
            let idx = old(state).current_episode_idx + 1;
            &&& r == Some(old(state).episodes@[idx].order)
            &&& chapter_selected(*old(state), *final(state), idx, true)
        },
        !is_next && old(state).current_episode_idx > 0 ==> {
            let idx = old(state).current_episode_idx - 1;
            &&& idx < old(state).episodes@.len() ==> r == Some(old(state).episodes@[idx].order)
                && chapter_selected(*old(state), *final(state), idx, false)
            &&& idx >= old(state).episodes@.len() ==> r is None && unchanged(
                *old(state),
                *final(state),
            )
        },
{
    let target_idx = if is_next {
        if state.current_episode_idx >= state.episodes.len() || state.current_episode_idx + 1
            >= state.episodes.len() {
            return None;
        }
        state.current_episode_idx + 1
    } else {
        if state.current_episode_idx == 0 {
            return None;
        }
        state.current_episode_idx - 1
    };
    if target_idx >= state.episodes.len() {
        return None;
    }
    let order = state.episodes[target_idx].order;
    state.current_episode_idx = target_idx;
    state.episode_order = order;
    state.pictures.clear();
    state.page_metas.clear();
    state.total_pages = 0;
    state.current_page = if is_next {
        0
    } else {
        LAST_PAGE_MARKER
    };
    state.is_loading = true;
    state.error = None;
    state.next_chapter_pictures.clear();
    Some(order)
}

/// Turns the page forward (`next`) or back. Within the chapter only the
/// page changes; at its end the adjacent chapter is selected. Nothing
/// happens while there are no pictures or a chapter is loading.
pub fn navigate_page(state: &mut ReaderState, next: bool) -> (r: PageTurn)
    ensures
        old(state).pictures@.len() == 0 || old(state).is_loading ==> r == PageTurn::Refused
            && unchanged(*old(state), *final(state)),
        old(state).pictures@.len() > 0 && !old(state).is_loading ==> {
            if next && old(state).current_page + 1 < old(state).total_pages {
                r == PageTurn::Turned && page_moved(
                    *old(state),
                    *final(state),
                    old(state).current_page + 1,
                )
            } else if !next && old(state).current_page > 0 {
                r == PageTurn::Turned && page_moved(
                    *old(state),
                    *final(state),
                    old(state).current_page - 1,
                )
            } else {
                let idx = if next {
                    old(state).current_episode_idx + 1
                } else {
                    old(state).current_episode_idx - 1
                };
                if (next && old(state).current_episode_idx + 1 < old(state).episodes@.len()) || (
                !next && old(state).current_episode_idx > 0 && idx < old(state).episodes@.len()) {
                    r == PageTurn::ChapterRequested { episode_order: old(state).episodes@[idx].order }
                        && chapter_selected(*old(state), *final(state), idx, next)
                } else {
                    r == PageTurn::Refused && unchanged(*old(state), *final(state))
                }
            }
        },
{
    if state.pictures.len() == 0 || state.is_loading {
        return PageTurn::Refused;
    }
    if next {
        if state.current_page < state.total_pages && state.current_page + 1 < state.total_pages {
            state.current_page = state.current_page + 1;
            PageTurn::Turned
        } else {
            match try_switch_chapter(state, true) {
                Some(order) => PageTurn::ChapterRequested { episode_order: order },
                None => PageTurn::Refused,
            }
        }
    } else {
        if state.current_page > 0 {
            state.current_page = state.current_page - 1;
            PageTurn::Turned
        } else {
            match try_switch_chapter(state, false) {
                Some(order) => PageTurn::ChapterRequested { episode_order: order },
                None => PageTurn::Refused,
            }
        }
    }
}

/// Pages held by the three single-page slots: the previous one (if any),
/// the current one, and the next one (if any).
pub fn slot_pages(current_page: usize, total: usize) -> (r: (Option<usize>, usize, Option<usize>))
    ensures
        r.0 == if current_page > 0 {
            Some((current_page - 1) as usize)
        } else {
            None::<usize>
        },
        r.1 == current_page,
        r.2 == if current_page + 1 < total {
            Some((current_page + 1) as usize)
        } else {
            None::<usize>
        },
{
    let prev = if current_page > 0 {
        Some(current_page - 1)
    } else {
        None
    };
    let next = if current_page < total && current_page + 1 < total {
        Some(current_page + 1)
    } else {
        None
    };
    (prev, current_page, next)
}

/// The pages webtoon mode keeps loaded: `start..end`, the current page and
/// `WEBTOON_PRELOAD_RANGE` pages on each side, within the chapter list.
pub fn webtoon_load_range(current_page: usize, total: usize) -> (r: (usize, usize))
    requires
        current_page + WEBTOON_PRELOAD_RANGE + 1 <= usize::MAX,
    ensures
        r.0 == if current_page >= WEBTOON_PRELOAD_RANGE {
            current_page - WEBTOON_PRELOAD_RANGE
        } else {
            0
        },
        r.1 == if current_page + WEBTOON_PRELOAD_RANGE + 1 <= total {
            current_page + WEBTOON_PRELOAD_RANGE + 1
        } else {
            total as int
        },
{
    let start = if current_page >= WEBTOON_PRELOAD_RANGE {
        current_page - WEBTOON_PRELOAD_RANGE
    } else {
        0
    };
    let wanted = current_page + WEBTOON_PRELOAD_RANGE + 1;
    let end = if wanted <= total {
        wanted
    } else {
        total
    };
    (start, end)
}

/// Chapter order and in-chapter index of a page of the webtoon strip; pages
/// without a recorded origin belong to the current chapter at their own index.
pub fn page_origin(metas: &Vec<PageMeta>, page: usize, episode_order: i32) -> (r: (i32, usize))
    ensures
        r == if page < metas@.len() {
            (metas@[page as int].episode_order, metas@[page as int].page_in_chapter)
        } else {
            (episode_order, page)
        },
{
    if page < metas.len() {
        (metas[page].episode_order, metas[page].page_in_chapter)
    } else {
        (episode_order, page)
    }
}

/// The last page of a chapter with `total` pages (0 when it has none).
pub open spec fn last_page_of(total: int) -> int {
    if total > 0 {
        total - 1
    } else {
        0
    }
}

/// Replaces the last-page marker by the chapter's last page once pictures
/// are there; returns whether it did.
pub fn resolve_last_page_marker(state: &mut ReaderState) -> (r: bool)
    ensures
        r == (old(state).current_page == LAST_PAGE_MARKER && old(state).pictures@.len() > 0),
        r ==> page_moved(*old(state), *final(state), last_page_of(old(state).total_pages as int)),
        !r ==> unchanged(*old(state), *final(state)),
{
    if state.current_page == LAST_PAGE_MARKER && state.pictures.len() > 0 {
        state.current_page = if state.total_pages > 0 {
            state.total_pages - 1
        } else {
            0
        };
        true
    } else {
        false
    }
}

/// Starts loading the current chapter's pictures when the reader opens:
/// returns the chapter order to load, or `None` (nothing changes) when there
/// is no comic, pictures are already there, or a load is under way.
pub fn trigger_load_pictures(state: &mut ReaderState) -> (r: Option<i32>)
    ensures
        ({
            let go = old(state).comic_id@.len() > 0 && old(state).pictures@.len() == 0
                && !old(state).is_loading && !old(state).is_loading_all_chapters;
            &&& go ==> r == Some(old(state).episode_order) && final(state).is_loading
            &&& !go ==> r is None && final(state).is_loading == old(state).is_loading
        }),
        final(state).current_page == old(state).current_page,
        final(state).pictures@ == old(state).pictures@,
        final(state).episode_order == old(state).episode_order,
        final(state).is_loading_all_chapters == old(state).is_loading_all_chapters,
{
    if state.comic_id.unicode_len() == 0 || state.pictures.len() > 0 || state.is_loading
        || state.is_loading_all_chapters {
        return None;
    }
    state.is_loading = true;
    Some(state.episode_order)
}

/// What to do once a chapter's picture list has arrived.
#[derive(Clone, Copy, Debug, PartialEq, Eq, Structural)]
pub enum PicturesLoaded {
    /// The list was the next chapter, kept for later.
    StoredNextChapter,
    /// The list is ignored (the whole comic is being loaded).
    Ignored,
    /// Show the chapter page by page.
    ShowSinglePage,
    /// Show the chapter as a strip; `load_all` asks for every chapter's list.
    ShowWebtoon { load_all: bool },
}

/// Page origins of a single chapter: every page belongs to chapter `order`.
pub open spec fn chapter_metas(order: i32, n: int) -> Seq<PageMeta> {
    Seq::new(n as nat, |i: int| PageMeta { episode_order: order, page_in_chapter: i as usize })
}

/// A preloaded next chapter is only stored: everything else of the reader
/// stays as it was.
pub open spec fn preload_kept(before: ReaderState, after: ReaderState) -> bool {
    &&& after.current_episode_idx == before.current_episode_idx
    &&& after.episode_order == before.episode_order
    &&& after.current_page == before.current_page
    &&& after.total_pages == before.total_pages
    &&& after.pictures@ == before.pictures@
    &&& after.page_metas@ == before.page_metas@
    &&& after.is_loading == before.is_loading
    &&& after.error == before.error
    &&& after.episodes@ == before.episodes@
    &&& after.comic_id@ == before.comic_id@
    &&& after.comic_title@ == before.comic_title@
    &&& after.read_mode == before.read_mode
    &&& after.is_loading_all_chapters == before.is_loading_all_chapters
    &&& after.anchor_page == before.anchor_page
}

/// Takes in the picture list of a chapter. A chapter reached by stepping
/// back (the last-page marker is set) opens on its last page, any other on
/// its first.
pub fn handle_pictures_loaded(state: &mut ReaderState, pictures: Vec<Picture>) -> (r: PicturesLoaded)
    ensures
        old(state).is_loading_next_chapter ==> {
            &&& r == PicturesLoaded::StoredNextChapter
            &&& !final(state).is_loading_next_chapter
            &&& final(state).next_chapter_pictures@ == pictures@
            &&& preload_kept(*old(state), *final(state))
        },
        !old(state).is_loading_next_chapter && old(state).is_loading_all_chapters ==> r
            == PicturesLoaded::Ignored && unchanged(*old(state), *final(state)),
        !old(state).is_loading_next_chapter && !old(state).is_loading_all_chapters ==> {
            &&& !final(state).is_loading
            &&& final(state).pictures@ == pictures@
            &&& final(state).page_metas@ == chapter_metas(old(state).episode_order, pictures@.len() as int)
            &&& final(state).total_pages == pictures@.len()
            &&& final(state).current_page == if old(state).current_page == LAST_PAGE_MARKER {
                last_page_of(pictures@.len() as int)
            } else {
                0
            }
            &&& same_comic(*old(state), *final(state))
            &&& old(state).read_mode == ReadMode::SinglePage ==> r == PicturesLoaded::ShowSinglePage
                && !final(state).is_loading_all_chapters && final(state).anchor_page == old(
                state,
            ).anchor_page
            &&& old(state).read_mode == ReadMode::Webtoon ==> {
                let load_all = old(state).episodes@.len() > 1;
                &&& r == PicturesLoaded::ShowWebtoon { load_all }
                &&& final(state).anchor_page == final(state).current_page
                &&& final(state).is_loading_all_chapters == load_all
            }
        },
{
    if state.is_loading_next_chapter {
        state.is_loading_next_chapter = false;
        state.next_chapter_pictures = pictures;
        return PicturesLoaded::StoredNextChapter;
    }
    if state.is_loading_all_chapters {
        return PicturesLoaded::Ignored;
    }
    state.is_loading = false;
    let order = state.episode_order;
    let n = pictures.len();
    let mut metas: Vec<PageMeta> = Vec::new();
    let mut i: usize = 0;
    while i < n
        invariant
            i <= n,
            metas@ == chapter_metas(order, i as int),
        decreases n - i,
    {
        metas.push(PageMeta { episode_order: order, page_in_chapter: i });
        proof {
            assert(metas@ =~= chapter_metas(order, i + 1));
        }
        i = i + 1;
    }
    let back_to_last = state.current_page == LAST_PAGE_MARKER;
    state.pictures = pictures;
    state.page_metas = metas;
    state.total_pages = n;
    state.current_page = if back_to_last && n > 0 {
        n - 1
    } else {
        0
    };
    match state.read_mode {
        ReadMode::SinglePage => PicturesLoaded::ShowSinglePage,
        ReadMode::Webtoon => {
            state.anchor_page = state.current_page;
            let load_all = state.episodes.len() > 1;
            if load_all {
                state.is_loading_all_chapters = true;
            }
            PicturesLoaded::ShowWebtoon { load_all }
        },
    }
}

/// First index of a page of chapter `order`, if any.
pub open spec fn first_of_order(metas: Seq<PageMeta>, order: i32) -> Option<int>
    decreases metas.len(),
{
    if metas.len() == 0 {
        None
    } else {
        match first_of_order(metas.drop_last(), order) {
            Some(i) => Some(i),
            None => if metas.last().episode_order == order {
                Some(metas.len() - 1)
            } else {
                None
            },
        }
    }
}

/// Position of the first page of chapter `order`, or 0.
pub open spec fn start_of_chapter(metas: Seq<PageMeta>, order: i32) -> int {
    match first_of_order(metas, order) {
        Some(i) => i,
        None => 0,
    }
}

proof fn lemma_first_of_order(metas: Seq<PageMeta>, order: i32, i: int)
    requires
        0 <= i <= metas.len(),
        forall|j: int| 0 <= j < i ==> metas[j].episode_order != order,
        i == metas.len() || metas[i].episode_order == order,
    ensures
        first_of_order(metas, order) == if i < metas.len() {
            Some(i)
        } else {
            None::<int>
        },
    decreases metas.len(),
{
    if metas.len() > 0 {
        if i < metas.len() {
            if i < metas.len() - 1 {
                lemma_first_of_order(metas.drop_last(), order, i);
            } else {
                lemma_first_of_order(metas.drop_last(), order, i);
            }
        } else {
            lemma_first_of_order(metas.drop_last(), order, i - 1);
        }
    }
}

/// Takes in the picture lists of all chapters (webtoon mode): the reader
/// keeps its place, now counted from the start of the whole comic.
pub fn handle_all_pictures_loaded(
    state: &mut ReaderState,
    pictures: Vec<Picture>,
    metas: Vec<PageMeta>,
) -> (r: usize)
    requires
        start_of_chapter(metas@, old(state).episode_order) + old(state).current_page <= usize::MAX,
    ensures
        ({
            let global = start_of_chapter(metas@, old(state).episode_order) + old(state).current_page;
            let last = last_page_of(pictures@.len() as int);
            &&& r == final(state).current_page
            &&& final(state).current_page == if global <= last {
                global
            } else {
                last
            }
        }),
        !final(state).is_loading_all_chapters,
        final(state).pictures@ == pictures@,
        final(state).page_metas@ == metas@,
        final(state).total_pages == pictures@.len(),
        final(state).anchor_page == final(state).current_page,
        final(state).is_loading == old(state).is_loading,
        same_comic(*old(state), *final(state)),
{
    state.is_loading_all_chapters = false;
    let target = state.episode_order;
    let mut i: usize = 0;
    while i < metas.len() && metas[i].episode_order != target
        invariant
            i <= metas@.len(),
            forall|j: int| 0 <= j < i ==> metas@[j].episode_order != target,
        decreases metas.len() - i,
    {
        i = i + 1;
    }
    proof {
        lemma_first_of_order(metas@, target, i as int);
    }
    let start = if i < metas.len() {
        i
    } else {
        0
    };
    let global = start + state.current_page;
    let n = pictures.len();
    state.pictures = pictures;
    state.page_metas = metas;
    state.total_pages = n;
    let last = if n > 0 {
        n - 1
    } else {
        0
    };
    state.current_page = if global <= last {
        global
    } else {
        last
    };
    state.anchor_page = state.current_page;
    state.current_page
}

/// Records a failed picture load.
pub fn handle_pictures_load_failed(state: &mut ReaderState, error: String)
    ensures
        !final(state).is_loading,
        !final(state).is_loading_next_chapter,
        final(state).error == Some(error),
        final(state).pictures@ == old(state).pictures@,
        final(state).current_page == old(state).current_page,
        final(state).total_pages == old(state).total_pages,
        final(state).page_metas@ == old(state).page_metas@,
        final(state).episodes@ == old(state).episodes@,
        final(state).current_episode_idx == old(state).current_episode_idx,
        final(state).episode_order == old(state).episode_order,
        final(state).read_mode == old(state).read_mode,
        final(state).comic_id@ == old(state).comic_id@,
        final(state).comic_title@ == old(state).comic_title@,
        final(state).is_loading_all_chapters == old(state).is_loading_all_chapters,
        final(state).next_chapter_pictures@ == old(state).next_chapter_pictures@,
        final(state).anchor_page == old(state).anchor_page,
{
    state.is_loading = false;
    state.is_loading_next_chapter = false;
    state.error = Some(error);
}

/// Decides whether the chapter has just been switched (its order changed
/// since the last check, and its pictures are loaded). Returns the order to
/// remember for the next check and the decision.
pub fn detect_chapter_switch(last_order: i32, state: &ReaderState) -> (r: (i32, bool))
    ensures
        r.0 == state.episode_order,
        r.1 == (last_order != 0 && last_order != state.episode_order && state.pictures@.len() > 0
            && !state.is_loading),
{
    let changed = last_order != 0 && last_order != state.episode_order && state.pictures.len() > 0
        && !state.is_loading;
    (state.episode_order, changed)
}

/// The page label of the bottom bar: `"{page} / {total}"`, 1-based.
pub fn page_label(current_page: usize, total_pages: usize) -> (r: String)
    requires
        current_page < usize::MAX,
    ensures
        r@ == decimal_digits((current_page + 1) as nat) + seq![' ', '/', ' '] + decimal_digits(
            total_pages as nat,
        ),
{
    let mut r = u64_to_string((current_page + 1) as u64);
    push_char(&mut r, ' ');
    push_char(&mut r, '/');
    push_char(&mut r, ' ');
    let t = u64_to_string(total_pages as u64);
    r.append(t.as_str());
    proof {
        assert(r@ =~= decimal_digits((current_page + 1) as nat) + seq![' ', '/', ' '] + decimal_digits(
            total_pages as nat,
        ));
    }
    r
}

/// Reading progress worth saving: which chapter, which page (1-based).
#[derive(Clone, Copy, Debug, PartialEq, Eq, Structural)]
pub struct HistoryPoint {
    pub episode_order: i32,
    pub last_page: i32,
}

/// Whether the reading position should be saved, given the last saved
/// position `(chapter order, page)`: only a real, new position of a loaded
/// comic is. Returns the position to remember and what to save.
pub fn save_reading_history(last_saved: (i32, usize), state: &ReaderState) -> (r: (
    (i32, usize),
    Option<HistoryPoint>,
))
    ensures
        ({
            let skip = state.comic_id@.len() == 0 || state.pictures@.len() == 0
                || state.current_page == LAST_PAGE_MARKER;
            let current = (state.episode_order, state.current_page);
            &&& skip ==> r == (last_saved, None::<HistoryPoint>)
            &&& !skip && last_saved == current ==> r == (last_saved, None::<HistoryPoint>)
            &&& !skip && last_saved != current ==> r == (
                current,
                Some(
                    HistoryPoint {
                        episode_order: state.episode_order,
                        last_page: (state.current_page + 1) as i32,
                    },
                ),
            )
        }),
{
    if state.comic_id.unicode_len() == 0 || state.pictures.len() == 0 || state.current_page
        == LAST_PAGE_MARKER {
        return (last_saved, None);
    }
    let current = (state.episode_order, state.current_page);
    if last_saved.0 == current.0 && last_saved.1 == current.1 {
        return (last_saved, None);
    }
    let page = state.current_page + 1;
    (current, Some(HistoryPoint { episode_order: state.episode_order, last_page: page as i32 }))
}

/// Turning the page forward and then back within a chapter returns to the
/// page one started from.
pub proof fn lemma_next_then_prev_returns(
    s0: ReaderState,
    s1: ReaderState,
    s2: ReaderState,
)
    requires
        page_moved(s0, s1, s0.current_page + 1),
        page_moved(s1, s2, s1.current_page - 1),
    ensures
        s2.current_page == s0.current_page,
        unchanged(s0, s2),
{
}

// ==================== opening a comic ====================

/// `s` with `e` inserted after the last element whose order is not greater
/// than `e.order` (one step of a stable sort by order).
pub open spec fn insert_by_order(s: Seq<Episode>, e: Episode) -> Seq<Episode>
    decreases s.len(),
{
    if s.len() == 0 {
        seq![e]
    } else if s.last().order <= e.order {
        s.push(e)
    } else {
        insert_by_order(s.drop_last(), e).push(s.last())
    }
}

/// `s` sorted by chapter order, chapters of equal order keeping their
/// relative position (what a stable sort by order gives).
pub open spec fn sorted_by_order(s: Seq<Episode>) -> Seq<Episode>
    decreases s.len(),
{
    if s.len() == 0 {
        s
    } else {
        insert_by_order(sorted_by_order(s.drop_last()), s.last())
    }
}

/// Orders never decrease along `s`.
pub open spec fn is_sorted_by_order(s: Seq<Episode>) -> bool {
    forall|i: int, j: int| 0 <= i <= j < s.len() ==> s[i].order <= s[j].order
}

proof fn lemma_insert_at(s: Seq<Episode>, e: Episode, p: int)
    requires
        0 <= p <= s.len(),
        forall|j: int| p <= j < s.len() ==> s[j].order > e.order,
        p == 0 || s[p - 1].order <= e.order,
    ensures
        insert_by_order(s, e) == s.insert(p, e),
    decreases s.len(),
{
    if s.len() == 0 {
        assert(s.insert(p, e) =~= seq![e]);
    } else if p == s.len() {
        assert(s.insert(p, e) =~= s.push(e));
    } else {
        lemma_insert_at(s.drop_last(), e, p);
        assert(s.drop_last().insert(p, e).push(s.last()) =~= s.insert(p, e));
    }
}

proof fn lemma_insert_keeps_sorted(s: Seq<Episode>, e: Episode)
    requires
        is_sorted_by_order(s),
    ensures
        is_sorted_by_order(insert_by_order(s, e)),
        insert_by_order(s, e).len() == s.len() + 1,
        forall|k: int| 0 <= k < insert_by_order(s, e).len() ==> (#[trigger] insert_by_order(s, e)[k]
            == e || s.contains(insert_by_order(s, e)[k])),
    decreases s.len(),
{
    if s.len() == 0 {
    } else if s.last().order <= e.order {
        let r = s.push(e);
        assert forall|k: int| 0 <= k < r.len() implies (#[trigger] r[k] == e || s.contains(r[k])) by {
            if k < s.len() {
                assert(r[k] == s[k]);
            }
        }
    } else {
        let t = s.drop_last();
        assert(is_sorted_by_order(t));
        lemma_insert_keeps_sorted(t, e);
        let u = insert_by_order(t, e);
        let r = u.push(s.last());
        assert forall|k: int| 0 <= k < r.len() implies (#[trigger] r[k] == e || s.contains(r[k])) by {
            if k < u.len() {
                assert(r[k] == u[k]);
                if u[k] != e {
                    let w = choose|w: int| 0 <= w < t.len() && t[w] == u[k];
                    assert(s[w] == u[k]);
                }
            } else {
                assert(s[s.len() - 1] == r[k]);
            }
        }
        assert forall|i: int, j: int| 0 <= i <= j < r.len() implies r[i].order <= r[j].order by {
            if j == r.len() - 1 && i < j {
                assert(r[i] == u[i]);
                if u[i] == e {
                } else {
                    let w = choose|w: int| 0 <= w < t.len() && t[w] == u[i];
                    assert(s[w] == t[w]);
                }
            }
        }
    }
}

/// Sorting by order gives chapters whose order never decreases, and keeps
/// their number.
pub proof fn lemma_sorted_by_order_is_sorted(s: Seq<Episode>)
    ensures
        is_sorted_by_order(sorted_by_order(s)),
        sorted_by_order(s).len() == s.len(),
    decreases s.len(),
{
    if s.len() > 0 {
        lemma_sorted_by_order_is_sorted(s.drop_last());
        lemma_insert_keeps_sorted(sorted_by_order(s.drop_last()), s.last());
    }
}

/// Sorts chapters by order, keeping chapters of equal order in their
/// original relative position.
pub fn sort_episodes(episodes: Vec<Episode>) -> (r: Vec<Episode>)
    ensures
        r@ == sorted_by_order(episodes@),
{
    let mut input = episodes;
    let ghost all = input@;
    let total = input.len();
    let mut r: Vec<Episode> = Vec::new();
    let mut taken: usize = 0;
    while input.len() > 0
        invariant
            taken + input@.len() == all.len(),
            all.len() == total,
            input@ == all.subrange(taken as int, all.len() as int),
            r@ == sorted_by_order(all.subrange(0, taken as int)),
        decreases input@.len(),
    {
        let e = input.remove(0);
        let mut p = r.len();
        while p > 0 && r[p - 1].order > e.order
            invariant
                p <= r@.len(),
                forall|j: int| p <= j < r@.len() ==> r@[j].order > e.order,
            decreases p,
        {
            p = p - 1;
        }
        proof {
            lemma_insert_at(r@, e, p as int);
            let next = all.subrange(0, taken + 1);
            assert(next.drop_last() =~= all.subrange(0, taken as int));
            assert(next.last() == e);
        }
        r.insert(p, e);
        taken = taken + 1;
        proof {
            assert(input@ =~= all.subrange(taken as int, all.len() as int));
        }
    }
    proof {
        assert(all.subrange(0, taken as int) =~= all);
    }
    r
}

/// Index of the first chapter of order `order`, or 0 when there is none.
pub open spec fn index_of_order(s: Seq<Episode>, order: i32) -> int
    decreases s.len(),
{
    if s.len() == 0 {
        0
    } else if s[0].order == order {
        0
    } else if exists|k: int| 1 <= k < s.len() && s[k].order == order {
        1 + index_of_order(s.drop_first(), order)
    } else {
        0
    }
}

proof fn lemma_index_of_order(s: Seq<Episode>, order: i32, i: int)
    requires
        0 <= i <= s.len(),
        forall|j: int| 0 <= j < i ==> s[j].order != order,
        i == s.len() || s[i].order == order,
    ensures
        index_of_order(s, order) == if i < s.len() {
            i
        } else {
            0
        },
    decreases i,
{
    if i > 0 {
        let t = s.drop_first();
        lemma_index_of_order(t, order, i - 1);
        if i < s.len() {
            assert(s[i] == t[i - 1]);
        } else {
            assert forall|k: int| 1 <= k < s.len() implies s[k].order != order by {}
        }
    }
}

/// Opens a comic in the reader at chapter `episode_order`: the chapters are
/// sorted by order, the current chapter is the first one of that order
/// (the first chapter when none has it), and nothing is loaded yet.
pub fn open_comic(
    state: &mut ReaderState,
    comic_id: String,
    comic_title: String,
    episodes: Vec<Episode>,
    episode_order: i32,
)
    ensures
        final(state).comic_id == comic_id,
        final(state).comic_title == comic_title,
        final(state).episodes@ == sorted_by_order(episodes@),
        final(state).current_episode_idx == index_of_order(sorted_by_order(episodes@), episode_order),
        final(state).episode_order == episode_order,
        final(state).current_page == 0,
        final(state).total_pages == 0,
        final(state).pictures@.len() == 0,
        final(state).page_metas@.len() == 0,
        !final(state).is_loading,
        final(state).error is None,
        !final(state).is_loading_next_chapter,
        final(state).next_chapter_pictures@.len() == 0,
        !final(state).is_loading_all_chapters,
        final(state).read_mode == old(state).read_mode,
{
    let sorted = sort_episodes(episodes);
    let mut i: usize = 0;
    while i < sorted.len() && sorted[i].order != episode_order
        invariant
            i <= sorted@.len(),
            forall|j: int| 0 <= j < i ==> sorted@[j].order != episode_order,
        decreases sorted.len() - i,
    {
        i = i + 1;
    }
    proof {
        lemma_index_of_order(sorted@, episode_order, i as int);
    }
    let idx = if i < sorted.len() {
        i
    } else {
        0
    };
    state.comic_id = comic_id;
    state.comic_title = comic_title;
    state.episodes = sorted;
    state.current_episode_idx = idx;
    state.episode_order = episode_order;
    state.current_page = 0;
    state.total_pages = 0;
    state.pictures.clear();
    state.page_metas.clear();
    state.is_loading = false;
    state.error = None;
    state.is_loading_next_chapter = false;
    state.next_chapter_pictures.clear();
    state.is_loading_all_chapters = false;
}


// ==================== slots, modes and keys ====================

/// The three image slots of single-page mode.
#[derive(Clone, Copy, Debug, PartialEq, Eq, Structural)]
pub enum SlotType {
    Prev,
    Current,
    Next,
}

/// The page a slot holds around `current_page` of `total`.
pub open spec fn slot_page_of(t: SlotType, current_page: int, total: int) -> Option<int> {
    match t {
        SlotType::Prev => if current_page > 0 {
            Some(current_page - 1)
        } else {
            None
        },
        SlotType::Current => Some(current_page),
        SlotType::Next => if current_page + 1 < total {
            Some(current_page + 1)
        } else {
            None
        },
    }
}

/// The optional page of a slot as an optional integer.
pub open spec fn opt_page(p: Option<usize>) -> Option<int> {
    match p {
        Some(v) => Some(v as int),
        None => None,
    }
}

/// What a page turn does to a slot: the page it now holds, whether it is the
/// one shown, and whether its image must be replaced (its page changed).
pub fn rotate_slot(t: SlotType, old_page: Option<usize>, current_page: usize, total: usize) -> (r: (
    Option<usize>,
    bool,
    bool,
))
    ensures
        opt_page(r.0) == slot_page_of(t, current_page as int, total as int),
        r.1 == (t == SlotType::Current),
        r.2 == (r.0 != old_page),
{
    let (prev, cur, next) = slot_pages(current_page, total);
    let page = match t {
        SlotType::Prev => prev,
        SlotType::Current => Some(cur),
        SlotType::Next => next,
    };
    let changed = match (page, old_page) {
        (Some(a), Some(b)) => a != b,
        (None, None) => false,
        _ => true,
    };
    (page, t == SlotType::Current, changed)
}

/// The label of the mode button for a mode.
pub open spec fn mode_label_of(m: ReadMode) -> Seq<char> {
    match m {
        ReadMode::SinglePage => "单页"@,
        ReadMode::Webtoon => "条漫"@,
    }
}

/// The mode button: single page and webtoon swap; gives the button's new
/// label.
pub fn toggle_read_mode(state: &mut ReaderState) -> (r: &'static str)
    ensures
        final(state).read_mode == if old(state).read_mode == ReadMode::SinglePage {
            ReadMode::Webtoon
        } else {
            ReadMode::SinglePage
        },
        r@ == mode_label_of(final(state).read_mode),
        final(state).current_page == old(state).current_page,
        final(state).episode_order == old(state).episode_order,
        final(state).total_pages == old(state).total_pages,
        final(state).pictures@ == old(state).pictures@,
{
    state.read_mode = match state.read_mode {
        ReadMode::SinglePage => ReadMode::Webtoon,
        ReadMode::Webtoon => ReadMode::SinglePage,
    };
    match state.read_mode {
        ReadMode::SinglePage => "单页",
        ReadMode::Webtoon => "条漫",
    }
}

/// Whether the page view is rebuilt for a mode change: the mode differs from
/// the one seen on the last frame (none on the first) and there are
/// pictures. Gives the mode to remember.
pub fn mode_change(previous: Option<ReadMode>, current: ReadMode, has_pictures: bool) -> (r: (
    bool,
    Option<ReadMode>,
))
    ensures
        r.0 == (previous matches Some(p) && p != current && has_pictures),
        r.1 == Some(current),
{
    let changed = match previous {
        Some(p) => p != current,
        None => false,
    };
    (changed && has_pictures, Some(current))
}

/// What the reader's keys ask on a frame: a page back (Left or A), a page on
/// (Right, D or Space), and leaving the reader (Escape).
pub fn reader_keys(left: bool, key_a: bool, right: bool, key_d: bool, space: bool, escape: bool) -> (r: (
    bool,
    bool,
    bool,
))
    ensures
        r == (left || key_a, right || key_d || space, escape),
{
    (left || key_a, right || key_d || space, escape)
}

/// The page turn a wheel step asks in single-page mode: down (negative) is
/// the next page, up the previous one; `None` for no movement.
pub fn wheel_page_turn(scrolled_down: bool, scrolled_up: bool) -> (r: Option<bool>)
    ensures
        scrolled_down ==> r == Some(true),
        !scrolled_down && scrolled_up ==> r == Some(false),
        !scrolled_down && !scrolled_up ==> r is None,
{
    if scrolled_down {
        Some(true)
    } else if scrolled_up {
        Some(false)
    } else {
        None
    }
}

/// Webtoon mode follows its anchor: the current page becomes the anchored
/// one; gives the pages to keep loaded.
pub fn follow_webtoon_anchor(state: &mut ReaderState) -> (r: (usize, usize))
    requires
        old(state).anchor_page + WEBTOON_PRELOAD_RANGE + 1 <= usize::MAX,
    ensures
        final(state).current_page == old(state).anchor_page,
        final(state).anchor_page == old(state).anchor_page,
        final(state).total_pages == old(state).total_pages,
        final(state).episode_order == old(state).episode_order,
        final(state).pictures@ == old(state).pictures@,
        r.0 == if old(state).anchor_page >= WEBTOON_PRELOAD_RANGE {
            old(state).anchor_page - WEBTOON_PRELOAD_RANGE
        } else {
            0
        },
        r.1 == if old(state).anchor_page + WEBTOON_PRELOAD_RANGE + 1 <= old(state).total_pages {
            old(state).anchor_page + WEBTOON_PRELOAD_RANGE + 1
        } else {
            old(state).total_pages as int
        },
{
    state.current_page = state.anchor_page;
    webtoon_load_range(state.anchor_page, state.total_pages)
}

/// The heading of the shown chapter: `第 N 章 - title`, with "unknown
/// chapter" when the chapter is not in the list.
pub fn episode_heading(state: &ReaderState) -> (r: String)
    ensures
        r@ == "第 "@ + crate::text::signed_decimal(state.episode_order as int) + " 章 - "@ + (
        if state.current_episode_idx < state.episodes@.len() {
            state.episodes@[state.current_episode_idx as int].title@
        } else {
            "未知章节"@
        }),
{
    let title = if state.current_episode_idx < state.episodes.len() {
        state.episodes[state.current_episode_idx].title.as_str()
    } else {
        "未知章节"
    };
    let a = crate::text::concat_str("第 ", crate::text::i64_to_string(state.episode_order as i64).as_str());
    let b = crate::text::concat_str(a.as_str(), " 章 - ");
    crate::text::concat_str(b.as_str(), title)
}


// ==================== local copies of pages ====================

/// `digits` padded with leading zeros to at least `width` characters (what
/// `{:0width$}` prints for a natural number).
pub open spec fn zero_padded(digits: Seq<char>, width: int) -> Seq<char> {
    if digits.len() >= width {
        digits
    } else {
        Seq::new((width - digits.len()) as nat, |i: int| '0') + digits
    }
}

/// The folders a downloaded chapter lies in, below the download folder: the
/// comic's title made safe for a file name, then `第N章`.
pub fn chapter_folders(comic_title: &str, episode_order: i32) -> (r: (String, String))
    ensures
        r.0@ == crate::text::safe_name(comic_title@),
        r.1@ == "第"@ + crate::text::signed_decimal(episode_order as int) + "章"@,
{
    let t = crate::text::sanitize_filename(comic_title);
    let a = crate::text::concat_str("第", crate::text::i64_to_string(episode_order as i64).as_str());
    (t, crate::text::concat_str(a.as_str(), "章"))
}

/// The file names a downloaded page may have, tried in turn: its original
/// name (when it has one), then its 1-based number on four digits with
/// `.jpg`.
pub fn local_page_names(original_name: &str, page_index: usize) -> (r: Vec<String>)
    requires
        page_index < usize::MAX,
    ensures
        ({
            let numbered = zero_padded(decimal_digits((page_index + 1) as nat), 4) + ".jpg"@;
            crate::search::strings_view(r@) == if original_name@.len() > 0 {
                seq![original_name@, numbered]
            } else {
                seq![numbered]
            }
        }),
{
    let digits = u64_to_string((page_index + 1) as u64);
    let n = digits.unicode_len();
    let mut padded = String::new();
    let mut k: usize = n;
    while k < 4
        invariant
            n <= k <= 4 || (n > 4 && k == n),
            padded@ == Seq::new((k - n) as nat, |i: int| '0'),
        decreases 4 - k,
    {
        push_char(&mut padded, '0');
        proof {
            assert(padded@ =~= Seq::new((k + 1 - n) as nat, |i: int| '0'));
        }
        k = k + 1;
    }
    let with_digits = crate::text::concat_str(padded.as_str(), digits.as_str());
    let numbered = crate::text::concat_str(with_digits.as_str(), ".jpg");
    proof {
        if n >= 4 {
            assert(padded@ =~= Seq::<char>::empty());
            assert(with_digits@ =~= digits@);
        }
    }
    let mut r: Vec<String> = Vec::new();
    if original_name.unicode_len() > 0 {
        r.push(String::from_str(original_name));
    }
    r.push(numbered);
    proof {
        let v = crate::search::strings_view(r@);
        if original_name@.len() > 0 {
            assert(v =~= seq![original_name@, numbered@]);
        } else {
            assert(v =~= seq![numbered@]);
        }
    }
    r
}


/// The chapter title kept in the reading history: the title of the shown
/// chapter, or `第N章` when the chapter is not in the list.
pub fn history_chapter_title(state: &ReaderState) -> (r: String)
    ensures
        r@ == if state.current_episode_idx < state.episodes@.len() {
            state.episodes@[state.current_episode_idx as int].title@
        } else {
            "第"@ + crate::text::signed_decimal(state.episode_order as int) + "章"@
        },
{
    if state.current_episode_idx < state.episodes.len() {
        String::from_str(state.episodes[state.current_episode_idx].title.as_str())
    } else {
        let a = crate::text::concat_str("第", crate::text::i64_to_string(state.episode_order as i64).as_str());
        crate::text::concat_str(a.as_str(), "章")
    }
}

} // verus!
