//! Verified core of a graphical front end for the Scoop package manager:
//! reading the tables that `scoop` prints, the command lines it is given,
//! and the state that the window shows.

pub mod gui;
pub mod laws;
pub mod listing;
pub mod model;
pub mod scoop;
pub mod table_laws;
pub mod text;
pub mod window_laws;
pub mod word_laws;
