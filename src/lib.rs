pub mod lang;
pub mod text;
pub mod date;
pub mod cache;
pub mod posts;
pub mod markup;
pub mod post_provider;
pub mod news;
pub mod blog;
pub mod event;
pub mod order;
pub mod peers;
pub mod looking_glass;
pub mod stats;
pub mod lists;
pub mod text_blocks;
pub mod team;
pub mod documents;
pub mod mirrors;
pub mod static_content;
pub mod bird;
