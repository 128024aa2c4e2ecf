//! The rows of the store, the requests the server makes of it, and what the
//! server makes of the replies.
pub mod model;
pub mod request;
pub mod store;
pub mod task;
pub mod tasklists;
