//! A blog engine's core: posts, categories, tags, static pages and
//! moderated comments kept in flat stores, and a one-time-password login
//! for the single administrator.

pub mod text;
pub mod api;
pub mod records;
pub mod auth;
pub mod posts;
pub mod categories;
pub mod tags;
pub mod pages;
pub mod comments;
pub mod files;
