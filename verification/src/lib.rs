pub mod cli;
pub mod cmd;
pub mod download;
pub mod edition;
pub mod logging;
pub mod text;
pub mod tui;
pub mod voice;
