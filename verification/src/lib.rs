pub mod cache;
pub mod error;
pub mod etag;
pub mod precondition;
pub mod range;
pub mod request;
pub mod resolver;
pub mod response;
pub mod text;
pub mod time;
pub mod web_content;
