//! Verified logic of the PicACG desktop client: routing and navigation
//! history, reader paging, search, the login, registration, proxy, settings,
//! profile, rankings, local library and NAS pages, WebDAV response parsing,
//! and the text helpers they share. Each page is modelled as plain state with
//! operations that say exactly what every button, key and reply does to it.
#![allow(unused_imports)]

pub mod history;
pub mod routes;
pub mod text;
pub mod scan;
pub mod webdav;
pub mod reader;
pub mod search;
pub mod register;
pub mod settings;
pub mod proxy;
pub mod nas;
pub mod profile;
pub mod login;
pub mod local;
pub mod cards;
pub mod rankings;
pub mod pagination;
pub mod window;
pub mod sidebar;
