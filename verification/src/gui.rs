//! The graphical front end's decisions: keyboard handling and the Genius
//! feed's state.

pub mod keyhandler;
pub mod task_list;
pub mod genius_feed;
