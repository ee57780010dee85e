//! Track catalog and Discord webhook planning for a SoundCloud archiver.
//!
//! The archiver watches SoundCloud users and posts every track that it has
//! not seen before to a Discord webhook. This crate holds its decisions: the
//! catalog of tracks that were seen, the format of the catalog file and the
//! steps by which it is saved and loaded, what a polling cycle has to do, and
//! the request that posts a track.
//!
//! Nothing here reads or writes a file, talks to a server or starts a task.
//! Where such work is needed the crate hands out an action; the caller
//! performs it and reports what came of it.
//!
//! - [`db`]: the catalog.
//! - [`document`]: the catalog file as a JSON document, in both its formats.
//! - [`store`]: saving and loading the catalog file, action by action.
//! - [`poll`]: a polling cycle for one user.
//! - [`bulk`]: the first filling of the catalog from a list of users.
//! - [`discord`]: the webhook request and the answer to it.
//! - [`embed`]: the embed that presents a track.
//! - [`attach`]: the files that go with a message.
//! - [`tags`]: the tag list of a track.
//! - [`json`]: JSON documents, read and written by `serde_json`.
//! - [`text`]: small helpers for strings.

pub mod attach;
pub mod bulk;
pub mod db;
pub mod discord;
pub mod document;
pub mod embed;
pub mod json;
pub mod poll;
pub mod store;
pub mod tags;
pub mod text;
