//! Integration with the Genius Platform API: the client's requests and
//! replies, the bridge that keeps the latest results, and the feed's key
//! handling.

pub mod genius_api;
pub mod genius_api_bridge;
pub mod genius_keyhandler;
