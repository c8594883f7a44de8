//! State and decisions of the interactive terminal interface. Drawing and
//! terminal input stay with the program; this is what they drive.
pub mod app;
pub mod view;
pub mod voice_picker;
