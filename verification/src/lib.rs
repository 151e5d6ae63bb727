use vstd::prelude::*;

pub mod text;
pub mod markdown;
pub mod numbers;
pub mod keyed;
pub mod terminal;
pub mod profile;
pub mod panels;
pub mod skills;
pub mod tool;
pub mod provider;
pub mod mcp;
pub mod session;
pub mod memory;
pub mod system;
pub mod setting;
pub mod terminal_palette;
pub mod observability;
pub mod json_tokens;
