//! Browser-style navigation history: a back stack, a forward stack, and the
//! last page visited in every sidebar section.
use vstd::prelude::*;

use crate::routes::{default_route_of, section_of, AppRoute, SidebarRoute};

verus! {

/// Number of sidebar sections.
pub const SECTION_COUNT: usize = 17;

/// Slot of a section in the table of last visited pages.
pub open spec fn section_slot(section: SidebarRoute) -> int {
    match section {
        SidebarRoute::Home => 0,
        SidebarRoute::Categories => 1,
        SidebarRoute::Search => 2,
        SidebarRoute::Rankings => 3,
        SidebarRoute::Games => 4,
        SidebarRoute::Favorites => 5,
        SidebarRoute::History => 6,
        SidebarRoute::Profile => 7,
        SidebarRoute::LocalRead => 8,
        SidebarRoute::LikeRecords => 9,
        SidebarRoute::Downloads => 10,
        SidebarRoute::Settings => 11,
        SidebarRoute::Fried => 12,
        SidebarRoute::ImageConvert => 13,
        SidebarRoute::Waifu2x => 14,
        SidebarRoute::Chat => 15,
        SidebarRoute::Nas => 16,
    }
}

fn slot_of(section: SidebarRoute) -> (i: usize)
    ensures
        i == section_slot(section),
        i < SECTION_COUNT,
{
    match section {
        SidebarRoute::Home => 0,
        SidebarRoute::Categories => 1,
        SidebarRoute::Search => 2,
        SidebarRoute::Rankings => 3,
        SidebarRoute::Games => 4,
        SidebarRoute::Favorites => 5,
        SidebarRoute::History => 6,
        SidebarRoute::Profile => 7,
        SidebarRoute::LocalRead => 8,
        SidebarRoute::LikeRecords => 9,
        SidebarRoute::Downloads => 10,
        SidebarRoute::Settings => 11,
        SidebarRoute::Fried => 12,
        SidebarRoute::ImageConvert => 13,
        SidebarRoute::Waifu2x => 14,
        SidebarRoute::Chat => 15,
        SidebarRoute::Nas => 16,
    }
}

proof fn lemma_slot_injective(a: SidebarRoute, b: SidebarRoute)
    requires
        section_slot(a) == section_slot(b),
    ensures
        a == b,
{
}

/// Navigation history (back / forward stacks and the last page of each section).
pub struct NavigationHistory {
    /// Pages visited before the current one, most recent last.
    pub back_stack: Vec<AppRoute>,
    /// Pages left by going back, most recent last.
    pub forward_stack: Vec<AppRoute>,
    /// Last visited page of each section, indexed by `section_slot`.
    pub section_last_routes: Vec<Option<AppRoute>>,
}

impl NavigationHistory {
    /// The last page recorded for a section, if any.
    pub closed spec fn last_route(self, section: SidebarRoute) -> Option<AppRoute> {
        self.section_last_routes@[section_slot(section)]
    }

    /// The table of last pages has one slot per section, and each slot holds
    /// a page of that section.
    pub closed spec fn wf(self) -> bool {
        &&& self.section_last_routes@.len() == SECTION_COUNT
        &&& forall|s: SidebarRoute|
            (#[trigger] self.last_route(s)) matches Some(r) ==> section_of(r) == Some(s)
    }

    proof fn lemma_same_table(a: Self, b: Self)
        requires
            a.wf(),
            b.section_last_routes@ == a.section_last_routes@,
        ensures
            b.wf(),
            forall|s: SidebarRoute| #[trigger] b.last_route(s) == a.last_route(s),
    {
        assert forall|s: SidebarRoute| #[trigger] b.last_route(s) == a.last_route(s) by {}
        assert forall|s: SidebarRoute|
            #[trigger] b.last_route(s) is Some implies section_of(b.last_route(s)->0) == Some(s) by {
            assert(b.last_route(s) == a.last_route(s));
        }
    }

    /// An empty history.
    pub fn new() -> (h: Self)
        ensures
            h.wf(),
            h.back_stack@ == Seq::<AppRoute>::empty(),
            h.forward_stack@ == Seq::<AppRoute>::empty(),
            forall|s: SidebarRoute| #[trigger] h.last_route(s) == None::<AppRoute>,
    {
        let mut table: Vec<Option<AppRoute>> = Vec::new();
        let mut i: usize = 0;
        while i < SECTION_COUNT
            invariant
                i <= SECTION_COUNT,
                table@.len() == i,
                forall|j: int| 0 <= j < i ==> table@[j] == None::<AppRoute>,
            decreases SECTION_COUNT - i,
        {
            table.push(None);
            i = i + 1;
        }
        NavigationHistory { back_stack: Vec::new(), forward_stack: Vec::new(), section_last_routes: table }
    }

    /// Navigates to a new page: the current one goes on the back stack and the
    /// forward stack is emptied.
    pub fn push(&mut self, route: AppRoute)
        requires
            old(self).wf(),
        ensures
            final(self).wf(),
            final(self).back_stack@ == old(self).back_stack@.push(route),
            final(self).forward_stack@ == Seq::<AppRoute>::empty(),
            forall|s: SidebarRoute| #[trigger] final(self).last_route(s) == old(self).last_route(s),
    {
        self.back_stack.push(route);
        self.forward_stack.clear();
        proof { Self::lemma_same_table(*old(self), *self); }
    }

    /// Records `route` as the last visited page of its section (pages that
    /// belong to no section are not recorded).
    pub fn update_section_route(&mut self, route: &AppRoute)
        requires
            old(self).wf(),
        ensures
            final(self).wf(),
            final(self).back_stack@ == old(self).back_stack@,
            final(self).forward_stack@ == old(self).forward_stack@,
            forall|s: SidebarRoute|
                #[trigger] final(self).last_route(s) == if section_of(*route) == Some(s) {
                    Some(*route)
                } else {
                    old(self).last_route(s)
                },
    {
        match crate::routes::get_sidebar_route(route) {
            Some(section) => {
                let i = slot_of(section);
                self.section_last_routes.set(i, Some(*route));
                assert forall|s: SidebarRoute|
                    #[trigger] self.last_route(s) == if section_of(*route) == Some(s) {
                        Some(*route)
                    } else {
                        old(self).last_route(s)
                    } by {
                    if section_slot(s) == section_slot(section) {
                        lemma_slot_injective(s, section);
                    } else {
                        assert(self.last_route(s) == old(self).last_route(s));
                    }
                }
                assert forall|s: SidebarRoute|
                    #[trigger] self.last_route(s) is Some implies section_of(
                        self.last_route(s)->0,
                    ) == Some(s) by {
                    if section_slot(s) == section_slot(section) {
                        lemma_slot_injective(s, section);
                    } else {
                        assert(self.last_route(s) == old(self).last_route(s));
                    }
                }
            },
            None => {},
        }
    }

    /// The page a sidebar button opens: the last page visited in its section,
    /// or the section's default page.
    pub fn get_section_route(&self, sidebar_route: SidebarRoute) -> (r: AppRoute)
        requires
            self.wf(),
        ensures
            r == match self.last_route(sidebar_route) {
                Some(last) => last,
                None => default_route_of(sidebar_route),
            },
            section_of(r) == Some(sidebar_route),
    {
        let i = slot_of(sidebar_route);
        assert(self.last_route(sidebar_route) == self.section_last_routes@[i as int]);
        match self.section_last_routes[i] {
            Some(last) => last,
            None => crate::routes::get_default_route(sidebar_route),
        }
    }

    /// Goes back: returns the previous page and pushes `current` on the
    /// forward stack; `None` (and no change) when there is nothing to go back to.
    pub fn go_back(&mut self, current: AppRoute) -> (r: Option<AppRoute>)
        requires
            old(self).wf(),
        ensures
            final(self).wf(),
            went_back(*old(self), current, *final(self), r),
    {
        let r = match self.back_stack.pop() {
            Some(prev) => {
                self.forward_stack.push(current);
                Some(prev)
            },
            None => None,
        };
        proof { Self::lemma_same_table(*old(self), *self); }
        r
    }

    /// Goes forward: returns the next page and pushes `current` on the back
    /// stack; `None` (and no change) when there is nothing to go forward to.
    pub fn go_forward(&mut self, current: AppRoute) -> (r: Option<AppRoute>)
        requires
            old(self).wf(),
        ensures
            final(self).wf(),
            went_forward(*old(self), current, *final(self), r),
    {
        let r = match self.forward_stack.pop() {
            Some(next) => {
                self.back_stack.push(current);
                Some(next)
            },
            None => None,
        };
        proof { Self::lemma_same_table(*old(self), *self); }
        r
    }

    /// Forgets both stacks (used when returning to the login page).
    pub fn clear_stacks(&mut self)
        requires
            old(self).wf(),
        ensures
            final(self).wf(),
            final(self).back_stack@ == Seq::<AppRoute>::empty(),
            final(self).forward_stack@ == Seq::<AppRoute>::empty(),
            forall|s: SidebarRoute| #[trigger] final(self).last_route(s) == old(self).last_route(s),
    {
        self.back_stack.clear();
        self.forward_stack.clear();
        proof { Self::lemma_same_table(*old(self), *self); }
    }
}

/// `after` and `r` are what going back from `current` makes of `before`:
/// the previous page is popped and `current` is pushed on the forward stack;
/// with an empty back stack nothing changes and the answer is `None`.
pub open spec fn went_back(
    before: NavigationHistory,
    current: AppRoute,
    after: NavigationHistory,
    r: Option<AppRoute>,
) -> bool {
    &&& forall|s: SidebarRoute| #[trigger] after.last_route(s) == before.last_route(s)
    &&& if before.back_stack@.len() == 0 {
        &&& r == None::<AppRoute>
        &&& after.back_stack@ == before.back_stack@
        &&& after.forward_stack@ == before.forward_stack@
    } else {
        &&& r == Some(before.back_stack@.last())
        &&& after.back_stack@ == before.back_stack@.drop_last()
        &&& after.forward_stack@ == before.forward_stack@.push(current)
    }
}

/// `after` and `r` are what going forward from `current` makes of `before`.
pub open spec fn went_forward(
    before: NavigationHistory,
    current: AppRoute,
    after: NavigationHistory,
    r: Option<AppRoute>,
) -> bool {
    &&& forall|s: SidebarRoute| #[trigger] after.last_route(s) == before.last_route(s)
    &&& if before.forward_stack@.len() == 0 {
        &&& r == None::<AppRoute>
        &&& after.back_stack@ == before.back_stack@
        &&& after.forward_stack@ == before.forward_stack@
    } else {
        &&& r == Some(before.forward_stack@.last())
        &&& after.forward_stack@ == before.forward_stack@.drop_last()
        &&& after.back_stack@ == before.back_stack@.push(current)
    }
}

/// Where "back" leads from a page when the back stack is empty.
pub open spec fn back_fallback_of(current: AppRoute) -> Option<AppRoute> {
    match current {
        AppRoute::ComicDetail => Some(AppRoute::ComicsList),
        AppRoute::ComicsList => Some(AppRoute::Categories),
        AppRoute::ReadView => Some(AppRoute::ComicDetail),
        AppRoute::ProxySettings => Some(AppRoute::Login),
        AppRoute::GameDetail => Some(AppRoute::Games),
        _ => None,
    }
}

/// Where "back" leads from a page when the back stack is empty.
pub fn back_fallback(current: AppRoute) -> (r: Option<AppRoute>)
    ensures
        r == back_fallback_of(current),
{
    match current {
        AppRoute::ComicDetail => Some(AppRoute::ComicsList),
        AppRoute::ComicsList => Some(AppRoute::Categories),
        AppRoute::ReadView => Some(AppRoute::ComicDetail),
        AppRoute::ProxySettings => Some(AppRoute::Login),
        AppRoute::GameDetail => Some(AppRoute::Games),
        _ => None,
    }
}

/// With nothing to go back to, "back" leads from a page to the page it is
/// opened from: the proxy settings (opened from the login page) to the
/// login page, a comic to the comic list, the comic list to the categories,
/// the reader to its comic, a game to the game list; from any other page it
/// is ignored. Following it repeatedly always ends, at most three steps on.
pub proof fn lemma_back_fallback_parents(r: AppRoute)
    ensures
        back_fallback_of(AppRoute::ProxySettings) == Some(AppRoute::Login),
        back_fallback_of(AppRoute::ComicDetail) == Some(AppRoute::ComicsList),
        back_fallback_of(AppRoute::ComicsList) == Some(AppRoute::Categories),
        back_fallback_of(AppRoute::ReadView) == Some(AppRoute::ComicDetail),
        back_fallback_of(AppRoute::GameDetail) == Some(AppRoute::Games),
        back_fallback_of(r) is Some <==> (r == AppRoute::ProxySettings || r == AppRoute::ComicDetail
            || r == AppRoute::ComicsList || r == AppRoute::ReadView || r == AppRoute::GameDetail),
        back_fallback_of(r) != Some(r),
        back_fallback_of(r) matches Some(p) ==> (back_fallback_of(p) matches Some(q) ==> (
        back_fallback_of(q) matches Some(u) ==> back_fallback_of(u) is None)),
{
}

/// Handles a "back" request: the previous page from the history, or else the
/// page's fixed parent; `None` means the request is ignored.
pub fn navigate_back(history: &mut NavigationHistory, current: AppRoute) -> (r: Option<AppRoute>)
    requires
        old(history).wf(),
    ensures
        final(history).wf(),
        forall|s: SidebarRoute| #[trigger] final(history).last_route(s) == old(history).last_route(s),
        old(history).back_stack@.len() > 0 ==> {
            &&& r == Some(old(history).back_stack@.last())
            &&& final(history).back_stack@ == old(history).back_stack@.drop_last()
            &&& final(history).forward_stack@ == old(history).forward_stack@.push(current)
        },
        old(history).back_stack@.len() == 0 ==> {
            &&& r == back_fallback_of(current)
            &&& final(history).back_stack@ == old(history).back_stack@
            &&& final(history).forward_stack@ == old(history).forward_stack@
        },
{
    match history.go_back(current) {
        Some(prev) => Some(prev),
        None => back_fallback(current),
    }
}

/// Handles a request to open the category page: the current page is pushed
/// on the history unless the category page is already shown.
pub fn navigate_to_categories(history: &mut NavigationHistory, current: AppRoute) -> (r: Option<AppRoute>)
    requires
        old(history).wf(),
    ensures
        final(history).wf(),
        forall|s: SidebarRoute| #[trigger] final(history).last_route(s) == old(history).last_route(s),
        current == AppRoute::Categories ==> r == None::<AppRoute> && *final(history) == *old(history),
        current != AppRoute::Categories ==> {
            &&& r == Some(AppRoute::Categories)
            &&& final(history).back_stack@ == old(history).back_stack@.push(current)
            &&& final(history).forward_stack@ == Seq::<AppRoute>::empty()
        },
{
    if current != AppRoute::Categories {
        history.push(current);
        Some(AppRoute::Categories)
    } else {
        None
    }
}

/// Going back and then forward returns to the page one started from and
/// leaves both stacks and the section table as they were.
pub proof fn lemma_back_then_forward_restores(
    h0: NavigationHistory,
    h1: NavigationHistory,
    h2: NavigationHistory,
    current: AppRoute,
    prev: AppRoute,
    r2: Option<AppRoute>,
)
    requires
        went_back(h0, current, h1, Some(prev)),
        went_forward(h1, prev, h2, r2),
    ensures
        r2 == Some(current),
        h2.back_stack@ == h0.back_stack@,
        h2.forward_stack@ == h0.forward_stack@,
        forall|s: SidebarRoute| #[trigger] h2.last_route(s) == h0.last_route(s),
{
    assert(h0.back_stack@.drop_last().push(h0.back_stack@.last()) =~= h0.back_stack@);
    assert(h0.forward_stack@.push(current).drop_last() =~= h0.forward_stack@);
    assert forall|s: SidebarRoute| #[trigger] h2.last_route(s) == h0.last_route(s) by {
        assert(h2.last_route(s) == h1.last_route(s));
    }
}

/// After visiting a page of a section, that section's sidebar button opens
/// that page.
pub proof fn lemma_section_remembers_last_page(
    h0: NavigationHistory,
    h1: NavigationHistory,
    route: AppRoute,
    section: SidebarRoute,
)
    requires
        h0.wf(),
        section_of(route) == Some(section),
        forall|s: SidebarRoute|
            #[trigger] h1.last_route(s) == if section_of(route) == Some(s) {
                Some(route)
            } else {
                h0.last_route(s)
            },
    ensures
        h1.last_route(section) == Some(route),
{
}


/// Handles a request to open a page reached from the current one (a comic
/// list, a comic, the reader, the proxy page, a game): the current page is
/// pushed on the history and the forward stack is emptied.
pub fn navigate_to(history: &mut NavigationHistory, current: AppRoute, target: AppRoute) -> (r: AppRoute)
    requires
        old(history).wf(),
    ensures
        final(history).wf(),
        r == target,
        final(history).back_stack@ == old(history).back_stack@.push(current),
        final(history).forward_stack@ == Seq::<AppRoute>::empty(),
        forall|s: SidebarRoute| #[trigger] final(history).last_route(s) == old(history).last_route(s),
{
    history.push(current);
    target
}

/// Handles a "forward" request; `None` means it is ignored.
pub fn navigate_forward(history: &mut NavigationHistory, current: AppRoute) -> (r: Option<AppRoute>)
    requires
        old(history).wf(),
    ensures
        final(history).wf(),
        went_forward(*old(history), current, *final(history), r),
{
    history.go_forward(current)
}

/// Handles a return to the login page: both stacks are forgotten.
pub fn return_to_login(history: &mut NavigationHistory) -> (r: AppRoute)
    requires
        old(history).wf(),
    ensures
        final(history).wf(),
        r == AppRoute::Login,
        final(history).back_stack@.len() == 0,
        final(history).forward_stack@.len() == 0,
        forall|s: SidebarRoute| #[trigger] final(history).last_route(s) == old(history).last_route(s),
{
    history.clear_stacks();
    AppRoute::Login
}

/// The navigation requests of the keyboard on one frame: Escape goes back,
/// and with Alt held, Left goes back and Right goes forward. Gives how many
/// "back" requests and whether a "forward" request are sent.
pub fn handle_back_navigation(escape: bool, alt_held: bool, left: bool, right: bool) -> (r: (u8, bool))
    ensures
        r.0 as int == (if escape { 1int } else { 0int }) + (if alt_held && left { 1int } else { 0int }),
        r.1 == (alt_held && right),
{
    let mut back: u8 = 0;
    if escape {
        back = back + 1;
    }
    if alt_held && left {
        back = back + 1;
    }
    (back, alt_held && right)
}

/// Opening a page and then going back returns to the page one came from,
/// with the back stack as it was.
pub proof fn lemma_open_then_back_returns(
    h0: NavigationHistory,
    h1: NavigationHistory,
    h2: NavigationHistory,
    current: AppRoute,
    target: AppRoute,
    r: Option<AppRoute>,
)
    requires
        h1.back_stack@ == h0.back_stack@.push(current),
        h1.forward_stack@ == Seq::<AppRoute>::empty(),
        went_back(h1, target, h2, r),
    ensures
        r == Some(current),
        h2.back_stack@ == h0.back_stack@,
        h2.forward_stack@ == seq![target],
{
    assert(h0.back_stack@.push(current).drop_last() =~= h0.back_stack@);
    assert(Seq::<AppRoute>::empty().push(target) =~= seq![target]);
}

} // verus!
