pub mod domain;
pub mod html;
pub mod link;
pub mod metadata;
pub mod web_page;
pub mod scraper;
