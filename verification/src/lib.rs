//! Verified core of a terminal browser for open-access museum art.

pub mod text;
pub mod catalog;
pub mod museums;
pub mod gallery;
pub mod browse;
pub mod layout;
pub mod kitty;
pub mod esrgan;
pub mod gac;
pub mod screen;
pub mod picture;
