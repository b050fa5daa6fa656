//! Text handling, archive building and the parsing rules of a command-line
//! download manager for imageboards, manga readers and Patreon.
#![allow(unused_imports)]

pub mod text;
pub mod epub;
pub mod version;
pub mod i18n;
pub mod browser;
pub mod service;
pub mod cli;
pub mod config;
pub mod http;
pub mod desu;
pub mod json;
pub mod pattern;
pub mod order;
pub mod ranobe;
pub mod listing;
pub mod account;
pub mod pages;
pub mod gelbooru;
pub mod mangadex;
pub mod patreon;
pub mod kodik;
pub mod release;
pub mod usage;
pub mod commands;
pub mod shell;
pub mod xhtml;
pub mod laws;
