//! Plans and rules of a tool that provisions encrypted raid systems.
pub mod badblocks;
pub mod benchmark;
pub mod checkpoint;
pub mod cli;
pub mod command;
pub mod config;
pub mod doctor;
pub mod efi;
pub mod laws;
pub mod layout;
pub mod manifest;
pub mod ops;
pub mod pipeline;
pub mod prompt;
pub mod recover;
pub mod sorted;
pub mod stack;
pub mod state;
pub mod step;
pub mod sync;
pub mod text;
