//! omavcam turns an Android phone into a webcam. This crate is the engine's
//! logic: what adb and scrcpy print, which phone is selected, what the camera
//! may be set to, what a client is answered, and every step of every operation
//! as a function from state and event to next state and action. Running the
//! commands, the sockets and the files belongs to the program around it.

pub mod capture;
pub mod cli;
pub mod command;
pub mod conduct;
pub mod daemon;
pub mod divisors;
pub mod invariants;
pub mod json;
pub mod laws;
pub mod lists;
pub mod number;
pub mod operations;
pub mod outside;
pub mod phones;
pub mod plain;
pub mod protocol;
pub mod readings;
pub mod requests;
pub mod settings;
pub mod table;
pub mod text;
