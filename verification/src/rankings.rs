//! The rankings page: its tabs (comics over three periods, and the knights),
//! which list a tab switch loads, and what the page shows.
use vstd::prelude::*;

use crate::text::{chars_of, concat_str, i64_to_string, signed_decimal, truncate_text, truncated};

verus! {

/// The periods of the comic rankings.
#[derive(Clone, Copy, PartialEq, Eq, Structural, Debug)]
pub enum RankTime {
    H24,
    D7,
    D30,
}

/// The tabs of the rankings page.
#[derive(Clone, Copy, PartialEq, Eq, Structural, Debug)]
pub enum RankingsTab {
    Comics(RankTime),
    Knight,
}

/// A list to load.
#[derive(Clone, Copy, PartialEq, Eq, Structural, Debug)]
pub enum RankingsLoad {
    Comics(RankTime),
    Knight,
}

/// What the rankings page knows.
pub struct RankingsState {
    pub current_tab: RankingsTab,
    pub current_type: RankTime,
    /// Whether the list of each period is loaded (24 hours, 7 days, 30 days).
    pub loaded: (bool, bool, bool),
    pub knight_loaded: bool,
    pub is_loading: bool,
    pub knight_loading: bool,
}

/// Whether the list of a period is loaded.
pub open spec fn loaded_of(l: (bool, bool, bool), t: RankTime) -> bool {
    match t {
        RankTime::H24 => l.0,
        RankTime::D7 => l.1,
        RankTime::D30 => l.2,
    }
}

impl RankingsState {
    /// Whether the list of a period is loaded.
    pub fn is_loaded(&self, t: RankTime) -> (r: bool)
        ensures
            r == loaded_of(self.loaded, t),
    {
        match t {
            RankTime::H24 => self.loaded.0,
            RankTime::D7 => self.loaded.1,
            RankTime::D30 => self.loaded.2,
        }
    }

    /// A tab was pressed. Pressing the shown tab does nothing (`None`).
    /// Otherwise the tab is shown and, when its list is not loaded yet, it
    /// starts loading and the load to send is given.
    pub fn switch_tab(&mut self, tab: RankingsTab) -> (r: Option<Option<RankingsLoad>>)
        ensures
            tab == old(self).current_tab ==> r is None && *final(self) == *old(self),
            tab != old(self).current_tab ==> {
                &&& final(self).current_tab == tab
                &&& final(self).loaded == old(self).loaded
                &&& final(self).knight_loaded == old(self).knight_loaded
                &&& match tab {
                    RankingsTab::Comics(t) => {
                        &&& final(self).current_type == t
                        &&& final(self).knight_loading == old(self).knight_loading
                        &&& if loaded_of(old(self).loaded, t) {
                            r == Some(None::<RankingsLoad>) && final(self).is_loading
                                == old(self).is_loading
                        } else {
                            r == Some(Some(RankingsLoad::Comics(t))) && final(self).is_loading
                        }
                    },
                    RankingsTab::Knight => {
                        &&& final(self).current_type == old(self).current_type
                        &&& final(self).is_loading == old(self).is_loading
                        &&& if old(self).knight_loaded {
                            r == Some(None::<RankingsLoad>) && final(self).knight_loading
                                == old(self).knight_loading
                        } else {
                            r == Some(Some(RankingsLoad::Knight)) && final(self).knight_loading
                        }
                    },
                }
            },
    {
        if self.current_tab == tab {
            return None;
        }
        self.current_tab = tab;
        match tab {
            RankingsTab::Comics(t) => {
                self.current_type = t;
                if !self.is_loaded(t) {
                    self.is_loading = true;
                    Some(Some(RankingsLoad::Comics(t)))
                } else {
                    Some(None)
                }
            },
            RankingsTab::Knight => {
                if !self.knight_loaded {
                    self.knight_loading = true;
                    Some(Some(RankingsLoad::Knight))
                } else {
                    Some(None)
                }
            },
        }
    }

    /// On entering the page: the shown tab's list is loaded when it is not
    /// loaded and not loading.
    pub fn trigger_load_rankings(&self) -> (r: Option<RankingsLoad>)
        ensures
            r == match self.current_tab {
                RankingsTab::Comics(t) => if !loaded_of(self.loaded, t) && !self.is_loading {
                    Some(RankingsLoad::Comics(t))
                } else {
                    None
                },
                RankingsTab::Knight => if !self.knight_loaded && !self.knight_loading {
                    Some(RankingsLoad::Knight)
                } else {
                    None
                },
            },
    {
        match self.current_tab {
            RankingsTab::Comics(t) => if !self.is_loaded(t) && !self.is_loading {
                Some(RankingsLoad::Comics(t))
            } else {
                None
            },
            RankingsTab::Knight => if !self.knight_loaded && !self.knight_loading {
                Some(RankingsLoad::Knight)
            } else {
                None
            },
        }
    }
}

/// What the comic tabs show while there are no cards.
#[derive(Clone, Copy, PartialEq, Eq, Structural, Debug)]
pub enum RankingsView {
    /// Leave the page as it is (the knights tab, or cards on the way).
    Keep,
    Loading,
    /// The hint to pick a tab.
    Empty,
}

/// What a comic tab shows: nothing new on the knights tab or when there are
/// comics or cards; otherwise "loading" or the hint.
pub fn refresh_rankings_ui(on_knight_tab: bool, comics_empty: bool, has_cards: bool, is_loading: bool) -> (r: RankingsView)
    ensures
        r == if on_knight_tab || !comics_empty || has_cards {
            RankingsView::Keep
        } else if is_loading {
            RankingsView::Loading
        } else {
            RankingsView::Empty
        },
{
    if on_knight_tab || !comics_empty || has_cards {
        RankingsView::Keep
    } else if is_loading {
        RankingsView::Loading
    } else {
        RankingsView::Empty
    }
}

/// What the knights tab shows.
pub enum KnightView {
    Keep,
    Loading,
    Failed(String),
    Empty,
    List,
}

/// What the knights tab shows: nothing new off the tab or when the list is
/// already shown; then loading, the failure, the empty hint or the list.
pub fn refresh_knight_rankings_ui(
    on_knight_tab: bool,
    has_list: bool,
    users_empty: bool,
    knight_loading: bool,
    knight_error: &Option<String>,
) -> (r: KnightView)
    ensures
        !on_knight_tab || (has_list && !users_empty) ==> r is Keep,
        on_knight_tab && !(has_list && !users_empty) ==> if knight_loading {
            r is Loading
        } else if knight_error is Some {
            r matches KnightView::Failed(m) && m@ == "加载失败: "@ + knight_error->0@
        } else if users_empty {
            r is Empty
        } else {
            r is List
        },
{
    if !on_knight_tab || (has_list && !users_empty) {
        return KnightView::Keep;
    }
    if knight_loading {
        KnightView::Loading
    } else {
        match knight_error {
            Some(e) => KnightView::Failed(concat_str("加载失败: ", e.as_str())),
            None => if users_empty {
                KnightView::Empty
            } else {
                KnightView::List
            },
        }
    }
}

/// A knight of the knights list, as plain values.
pub struct KnightUser {
    pub id: String,
    pub name: String,
    pub title: String,
    pub level: i32,
    pub comics_uploaded: i64,
}

/// The letter on a knight's avatar: the first character of the name, or
/// `?` for an empty name.
pub fn knight_initial(name: &str) -> (r: char)
    ensures
        r == if name@.len() > 0 {
            name@[0]
        } else {
            '?'
        },
{
    if name.unicode_len() > 0 {
        name.get_char(0)
    } else {
        '?'
    }
}

/// The texts of a knight's card: the name cut to 20 characters, the level,
/// and the title cut to 10 characters when there is one.
pub fn knight_texts(user: &KnightUser) -> (r: (String, String, Option<String>))
    ensures
        r.0@ == truncated(user.name@, 20),
        r.1@ == "Lv."@ + signed_decimal(user.level as int),
        user.title@.len() == 0 ==> r.2 is None,
        user.title@.len() > 0 ==> (r.2 matches Some(t) && t@ == truncated(user.title@, 10)),
{
    let name = truncate_text(user.name.as_str(), 20);
    let level = concat_str("Lv.", i64_to_string(user.level as i64).as_str());
    let title = if user.title.unicode_len() == 0 {
        None
    } else {
        Some(truncate_text(user.title.as_str(), 10))
    };
    (name, level, title)
}

/// The title and author lines of a ranked comic's card.
pub fn ranked_comic_texts(title: &str, author: &str) -> (r: (String, String))
    ensures
        r.0@ == truncated(title@, 12),
        r.1@ == truncated(author@, 10),
{
    (truncate_text(title, 12), truncate_text(author, 10))
}

} // verus!
