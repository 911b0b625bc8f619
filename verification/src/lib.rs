//! A remote terminal that outlives its connections: the logic of its client,
//! its server and the terminals next to it.
//!
//! Everything here computes on plain values. What reads, writes, waits or
//! starts a process stands around this library: it performs the step that a
//! state machine of the library names, and hands back what came of it.
//!
//! - The client: [`client`], [`client_args`], [`client_session`],
//!   [`bootstrap`], [`ssh_config`], [`ssh_process`], [`forward`],
//!   [`forward_config`], [`client_environment`].
//! - Its connection: [`initial_connect`], [`resolver`], [`deadline`],
//!   [`ip_address`].
//! - Its terminal: [`client_terminal`], [`client_terminal_loop`],
//!   [`client_terminal_windows`], [`client_output`], [`client_hangup`],
//!   [`client_console_mode`], [`terminal_modes`], [`key_input`].
//! - Remote sessions: [`terminal`], [`terminal_credentials`],
//!   [`terminal_daemon`], [`terminal_protocol`], [`terminal_pty`],
//!   [`terminal_pipe`], [`terminal_jump`], [`terminal_motd`],
//!   [`terminal_last_login`].
//! - The other roles: [`roles`], [`server`], [`server_daemon`], [`htm`],
//!   [`detach`].
//! - What they share: [`error`], [`text`], [`bytes`], [`name_map`].

pub mod bootstrap;
pub mod bytes;
pub mod client;
pub mod client_args;
pub mod client_console_mode;
pub mod client_environment;
pub mod client_hangup;
pub mod client_output;
pub mod client_session;
pub mod client_terminal;
pub mod client_terminal_loop;
pub mod client_terminal_windows;
pub mod deadline;
pub mod detach;
pub mod error;
pub mod forward;
pub mod forward_config;
pub mod htm;
pub mod initial_connect;
pub mod ip_address;
pub mod key_input;
pub mod name_map;
pub mod resolver;
pub mod roles;
pub mod server;
pub mod server_daemon;
pub mod ssh_config;
pub mod ssh_config_rows;
pub mod ssh_process;
pub mod terminal;
pub mod terminal_credentials;
pub mod terminal_daemon;
pub mod terminal_jump;
pub mod terminal_last_login;
pub mod terminal_modes;
pub mod terminal_motd;
pub mod terminal_pipe;
pub mod terminal_protocol;
pub mod terminal_pty;
pub mod text;
