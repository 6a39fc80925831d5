//! Application routes and the sidebar sections they belong to.
use vstd::prelude::*;

verus! {

/// Every page the application can show.
#[derive(Clone, Copy, Debug, PartialEq, Eq, Structural, Hash)]
pub enum AppRoute {
    Login,
    Register,
    ForgotPassword,
    ProxySettings,
    Home,
    Categories,
    ComicsList,
    ComicDetail,
    ReadView,
    Comments,
    Search,
    Rankings,
    Games,
    GameDetail,
    Fried,
    Favorites,
    History,
    LikeRecords,
    Profile,
    LocalRead,
    Downloads,
    Settings,
    ImageConvert,
    Waifu2x,
    Chat,
    ChatRoom,
    Nas,
}

/// The sections of the sidebar.
#[derive(Clone, Copy, Debug, PartialEq, Eq, Structural, Hash)]
pub enum SidebarRoute {
    Home,
    Categories,
    Search,
    Rankings,
    Games,
    Favorites,
    History,
    Profile,
    LocalRead,
    LikeRecords,
    Downloads,
    Settings,
    Fried,
    ImageConvert,
    Waifu2x,
    Chat,
    Nas,
}

/// The section a route belongs to; pages reachable from several places
/// (comic detail, reader) and the pages outside the main layout belong to none.
pub open spec fn section_of(route: AppRoute) -> Option<SidebarRoute> {
    match route {
        AppRoute::Home => Some(SidebarRoute::Home),
        AppRoute::Categories | AppRoute::ComicsList => Some(SidebarRoute::Categories),
        AppRoute::Search => Some(SidebarRoute::Search),
        AppRoute::Rankings => Some(SidebarRoute::Rankings),
        AppRoute::Games | AppRoute::GameDetail => Some(SidebarRoute::Games),
        AppRoute::Fried => Some(SidebarRoute::Fried),
        AppRoute::Favorites => Some(SidebarRoute::Favorites),
        AppRoute::History => Some(SidebarRoute::History),
        AppRoute::LikeRecords => Some(SidebarRoute::LikeRecords),
        AppRoute::Profile => Some(SidebarRoute::Profile),
        AppRoute::LocalRead => Some(SidebarRoute::LocalRead),
        AppRoute::Downloads => Some(SidebarRoute::Downloads),
        AppRoute::Settings => Some(SidebarRoute::Settings),
        AppRoute::ImageConvert => Some(SidebarRoute::ImageConvert),
        AppRoute::Waifu2x => Some(SidebarRoute::Waifu2x),
        AppRoute::Chat | AppRoute::ChatRoom => Some(SidebarRoute::Chat),
        AppRoute::Nas => Some(SidebarRoute::Nas),
        AppRoute::ComicDetail | AppRoute::ReadView | AppRoute::Login | AppRoute::Register
        | AppRoute::ProxySettings | AppRoute::Comments | AppRoute::ForgotPassword => None,
    }
}

/// The page a section opens on when it has not been visited yet.
pub open spec fn default_route_of(section: SidebarRoute) -> AppRoute {
    match section {
        SidebarRoute::Home => AppRoute::Home,
        SidebarRoute::Categories => AppRoute::Categories,
        SidebarRoute::Search => AppRoute::Search,
        SidebarRoute::Rankings => AppRoute::Rankings,
        SidebarRoute::Games => AppRoute::Games,
        SidebarRoute::Favorites => AppRoute::Favorites,
        SidebarRoute::History => AppRoute::History,
        SidebarRoute::Profile => AppRoute::Profile,
        SidebarRoute::LocalRead => AppRoute::LocalRead,
        SidebarRoute::LikeRecords => AppRoute::LikeRecords,
        SidebarRoute::Downloads => AppRoute::Downloads,
        SidebarRoute::Settings => AppRoute::Settings,
        SidebarRoute::Fried => AppRoute::Fried,
        SidebarRoute::ImageConvert => AppRoute::ImageConvert,
        SidebarRoute::Waifu2x => AppRoute::Waifu2x,
        SidebarRoute::Chat => AppRoute::Chat,
        SidebarRoute::Nas => AppRoute::Nas,
    }
}

/// The sidebar section a route belongs to.
pub fn get_sidebar_route(route: &AppRoute) -> (r: Option<SidebarRoute>)
    ensures
        r == section_of(*route),
{
    match route {
        AppRoute::Home => Some(SidebarRoute::Home),
        AppRoute::Categories | AppRoute::ComicsList => Some(SidebarRoute::Categories),
        AppRoute::Search => Some(SidebarRoute::Search),
        AppRoute::Rankings => Some(SidebarRoute::Rankings),
        AppRoute::Games | AppRoute::GameDetail => Some(SidebarRoute::Games),
        AppRoute::Fried => Some(SidebarRoute::Fried),
        AppRoute::Favorites => Some(SidebarRoute::Favorites),
        AppRoute::History => Some(SidebarRoute::History),
        AppRoute::LikeRecords => Some(SidebarRoute::LikeRecords),
        AppRoute::Profile => Some(SidebarRoute::Profile),
        AppRoute::LocalRead => Some(SidebarRoute::LocalRead),
        AppRoute::Downloads => Some(SidebarRoute::Downloads),
        AppRoute::Settings => Some(SidebarRoute::Settings),
        AppRoute::ImageConvert => Some(SidebarRoute::ImageConvert),
        AppRoute::Waifu2x => Some(SidebarRoute::Waifu2x),
        AppRoute::Chat | AppRoute::ChatRoom => Some(SidebarRoute::Chat),
        AppRoute::Nas => Some(SidebarRoute::Nas),
        AppRoute::ComicDetail | AppRoute::ReadView | AppRoute::Login | AppRoute::Register
        | AppRoute::ProxySettings | AppRoute::Comments | AppRoute::ForgotPassword => None,
    }
}

/// The page a sidebar section opens on by default.
pub fn get_default_route(sidebar_route: SidebarRoute) -> (r: AppRoute)
    ensures
        r == default_route_of(sidebar_route),
{
    match sidebar_route {
        SidebarRoute::Home => AppRoute::Home,
        SidebarRoute::Categories => AppRoute::Categories,
        SidebarRoute::Search => AppRoute::Search,
        SidebarRoute::Rankings => AppRoute::Rankings,
        SidebarRoute::Games => AppRoute::Games,
        SidebarRoute::Favorites => AppRoute::Favorites,
        SidebarRoute::History => AppRoute::History,
        SidebarRoute::Profile => AppRoute::Profile,
        SidebarRoute::LocalRead => AppRoute::LocalRead,
        SidebarRoute::LikeRecords => AppRoute::LikeRecords,
        SidebarRoute::Downloads => AppRoute::Downloads,
        SidebarRoute::Settings => AppRoute::Settings,
        SidebarRoute::Fried => AppRoute::Fried,
        SidebarRoute::ImageConvert => AppRoute::ImageConvert,
        SidebarRoute::Waifu2x => AppRoute::Waifu2x,
        SidebarRoute::Chat => AppRoute::Chat,
        SidebarRoute::Nas => AppRoute::Nas,
    }
}

/// Whether the sidebar button of `sidebar_route` is highlighted while
/// `app_route` is shown.
pub fn is_sidebar_route_active(sidebar_route: SidebarRoute, app_route: &AppRoute) -> (r: bool)
    ensures
        r == (section_of(*app_route) == Some(sidebar_route)),
{
    match (sidebar_route, app_route) {
        (SidebarRoute::Home, AppRoute::Home) => true,
        (SidebarRoute::Categories, AppRoute::Categories) => true,
        (SidebarRoute::Categories, AppRoute::ComicsList) => true,
        (SidebarRoute::Search, AppRoute::Search) => true,
        (SidebarRoute::Rankings, AppRoute::Rankings) => true,
        (SidebarRoute::Games, AppRoute::Games) => true,
        (SidebarRoute::Games, AppRoute::GameDetail) => true,
        (SidebarRoute::Fried, AppRoute::Fried) => true,
        (SidebarRoute::Favorites, AppRoute::Favorites) => true,
        (SidebarRoute::History, AppRoute::History) => true,
        (SidebarRoute::LikeRecords, AppRoute::LikeRecords) => true,
        (SidebarRoute::Profile, AppRoute::Profile) => true,
        (SidebarRoute::LocalRead, AppRoute::LocalRead) => true,
        (SidebarRoute::Downloads, AppRoute::Downloads) => true,
        (SidebarRoute::Settings, AppRoute::Settings) => true,
        (SidebarRoute::ImageConvert, AppRoute::ImageConvert) => true,
        (SidebarRoute::Waifu2x, AppRoute::Waifu2x) => true,
        (SidebarRoute::Nas, AppRoute::Nas) => true,
        (SidebarRoute::Chat, AppRoute::Chat) => true,
        (SidebarRoute::Chat, AppRoute::ChatRoom) => true,
        _ => false,
    }
}

/// A section's default page belongs to that section.
pub proof fn lemma_default_route_in_its_section(section: SidebarRoute)
    ensures
        section_of(default_route_of(section)) == Some(section),
{
}


/// The comic page and the reader, reachable from many places, light no
/// sidebar button; every other page of the main layout lights exactly one.
pub proof fn lemma_shared_pages_light_no_button(route: AppRoute, a: SidebarRoute, b: SidebarRoute)
    ensures
        route == AppRoute::ComicDetail || route == AppRoute::ReadView ==> section_of(route) is None,
        section_of(route) == Some(a) && section_of(route) == Some(b) ==> a == b,
{
}

} // verus!
