//! The terminal front end's layout and text: what is drawn where, as plain
//! strings and styles.

pub mod rendering;
