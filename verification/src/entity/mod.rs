pub mod classifier;
pub mod conclusion;
pub mod crawler;
pub mod email;
pub mod named_entity;
pub mod objective;
pub mod people;
pub mod pixlie;
pub mod project_settings;
pub mod search;
pub mod text;
pub mod topic;
pub mod web;
pub mod workflow;
