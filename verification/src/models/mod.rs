pub mod blog;
pub mod markdown;
pub mod response;
pub mod user;
