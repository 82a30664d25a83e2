pub mod config;
pub mod patch;
pub mod registry;
pub mod stm32;
