pub mod saved_search;
pub mod web_search;
