//! Core logic of a TeamSpeak 3 support bot: permission rules, parsing of
//! model replies into bot actions, ticket and identity bookkeeping, profile
//! learning, prompt assembly and text utilities, each with a contract.

pub mod text;
pub mod config;
pub mod actions;
pub mod permissions;
pub mod audit;
pub mod tickets;
pub mod identity;
pub mod audio;
pub mod prompts;
pub mod strmap;
pub mod learning;
pub mod ai;
pub mod prompt_workspace;
pub mod context;
pub mod commands;
pub mod lookup;
pub mod ticket_commands;
pub mod delivery;
pub mod roster;
pub mod dispatch;
pub mod notices;
pub mod server_state;
