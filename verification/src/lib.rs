pub mod cargo;
pub mod commands;
pub mod detect;
pub mod flang;
pub mod fpm;
pub mod project;
pub mod tasks;
pub mod text;
pub mod uv;
