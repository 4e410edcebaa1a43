//! Verified core of a self-hosted feed aggregator with a Nextcloud News compatible API.

pub mod config;
pub mod text;
pub mod ssrf;
pub mod schedule;
pub mod errors;
pub mod items;
pub mod article;
pub mod content;
pub mod llm;
pub mod auth;
pub mod folders;
pub mod feeds;
pub mod normal_form;
