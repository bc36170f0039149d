pub mod config;
pub mod display;
pub mod maps;
pub mod patterns;
pub mod text;
pub mod env_spec;
pub mod slug;
pub mod workdir;
pub mod docker;
pub mod cli;
pub mod trust;
pub mod order;
pub mod list;
pub mod steps;
pub mod generate;
pub mod git;
pub mod logfile;
