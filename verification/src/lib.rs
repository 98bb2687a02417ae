pub mod categorize;
pub mod cli;
pub mod daemon;
pub mod gui;
pub mod instance_lock;
pub mod ipc;
pub mod paths;
pub mod persistence;
pub mod protocol;
pub mod stack;
pub mod stack_laws;
pub mod symbols;
pub mod text;
pub mod views;
pub mod watcher;
