//! A knowledge-graph engine for web crawling projects: nodes carry labelled
//! payloads (links, domains, page fragments, settings), edges connect them,
//! and the engine decides which nodes to process and what to fetch next.

pub mod config;
pub mod crawl_config;
pub mod crawl_log;
pub mod engine;
pub mod entity;
pub mod error;
pub mod fetch;
pub mod llm_models;
pub mod notifier;
pub mod projects;
pub mod robots;
pub mod services;
pub mod text;
pub mod web_url;
pub mod workspace;
