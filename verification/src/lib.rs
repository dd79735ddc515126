pub mod config;
pub mod input;
pub mod terminal;
pub mod text;
pub mod theme;

pub mod i18n;
pub mod suggestions;
pub mod shell;
pub mod cli;
pub mod workspace;
pub mod view;
pub mod smoke;
