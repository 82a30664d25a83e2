pub mod bits;
pub mod board;
pub mod machine;
pub mod memory;
pub mod pacer;
pub mod peripherals;
pub mod prefs;
pub mod run;
pub mod sim;
pub mod svd;
pub mod bus;
pub mod cli;
pub mod console;
pub mod clock;
pub mod cpu;
pub mod execution;
pub mod image;
pub mod laws;
pub mod target;
pub mod targets;
pub mod text;
