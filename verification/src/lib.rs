//! Bridge between a CI-V terminal and an Icom IC-705 reached over Wi-Fi.

pub mod api;
pub mod commands;
pub mod error;
pub mod rsba1;
pub mod session;
pub mod state;
pub mod text;
pub mod util;
