use vstd::prelude::*;

pub mod text;
pub mod types;
pub mod volume;
pub mod browse;
pub mod client;
pub mod store;
pub mod admin;
pub mod login;
pub mod ws;
pub mod cookie;
pub mod prefs;
pub mod links;
pub mod pages;

