//! Values computed for the operating-system interfaces.

pub mod linux;
pub mod windows;
