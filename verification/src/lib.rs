//! Verified core of a small system monitor for 320x480 USB serial LCD panels:
//! the panel's command protocol, pixel encoding, theme/layout logic, sensor
//! selection and the text formatting shown on the screen.

pub mod frame;
pub mod lcd_comm;
pub mod protocol;
pub mod text;
pub mod color;
pub mod cache;
pub mod weather;
pub mod lhm;
pub mod sensors;
pub mod stats;
pub mod render;
pub mod line;
pub mod yaml;
pub mod config;
pub mod preview;
pub mod monitor;
pub mod layout;
pub mod settings;
pub mod paths;
pub mod encode;
