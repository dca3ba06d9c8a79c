//! Verified core of the claw browser desktop shell.

pub mod text;
pub mod wizard;
pub mod agents;
pub mod configure;
pub mod json;
pub mod gateway;
pub mod skills;
pub mod order;
pub mod flows;
pub mod openclaw_http;
pub mod api;
pub mod webview;
pub mod installer;
pub mod git_setup;
pub mod path_link;
pub mod openclaw_process;
