//! Naming rules of a music organiser: turning ID3 tag values into clean
//! artist, album and title names, laying out where an organised file goes,
//! and counting what a run did.

pub mod matching;
pub mod names;
pub mod paths;
pub mod run;
pub mod text;
