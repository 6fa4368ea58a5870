//! Decision logic of the DeepSeek Harness desktop shell.

pub mod calendar;
pub mod check_run;
pub mod digits;
pub mod install;
pub mod install_run;
pub mod json;
pub mod locale;
pub mod logging;
pub mod nav;
pub mod order;
pub mod paths;
pub mod repo;
pub mod rollback_run;
pub mod server;
pub mod settings;
pub mod shell;
pub mod steps;
pub mod text;
pub mod theme;
pub mod unicode;
pub mod update;
pub mod update_laws;
pub mod update_run;
pub mod window;
pub mod yaml;
