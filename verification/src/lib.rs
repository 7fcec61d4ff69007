//! Core application logic for a Bluesky-style social client: rich text and its editor, feeds,
//! embeds, link previews, notifications, direct messages, search ranking, threads, and the
//! parameters of the network queries, with their behaviour stated as contracts.
use vstd::prelude::*;

pub mod auth;
pub mod autocomplete;
pub mod bookmarks;
pub mod branding;
pub mod editor;
pub mod embeds;
pub mod feeds;
pub mod interactions;
pub mod json;
pub mod keyed_map;
pub mod link_preview;
pub mod lists;
pub mod media;
pub mod messages;
pub mod notifications;
pub mod posts;
pub mod profiles;
pub mod search;
pub mod sorting;
pub mod text;
pub mod threads;
pub mod time;

verus! {
}
