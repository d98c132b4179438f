//! Crawl planning and download scheduling for archiving one creator's posts.

pub mod crawl;
pub mod creator;
pub mod dedup;
pub mod dispatch;
pub mod html;
pub mod layout;
pub mod listing;
pub mod pool;
pub mod post;
pub mod run;
pub mod text;
pub mod transfer;
pub mod url;
