pub mod text;
pub mod hexconversion;
pub mod monitor;
pub mod cassette;
pub mod bus;
pub mod keys;
pub mod keyboard;
pub mod host_keyboard;
pub mod machine;
pub mod keyboard_panel;
pub mod config;
pub mod display;
pub mod console;
pub mod video;
pub mod frontend;
