//! What the command line asks of the client.
use vstd::prelude::*;

use crate::client_terminal::RemoteShellKind;
use crate::forward::{copy_requests, copy_text, PortForwardSourceRequest, RequestModel};
use crate::terminal_protocol::FlowControlMode;
use crate::text::copy_texts;

verus! {

/// The client's options, with tunnels as the forwarding requests that they
/// stand for.
#[derive(Debug)]
pub struct ClientArgs {
    /// The user that an option names.
    pub username: Option<String>,
    pub jumphost: Option<String>,
    pub jserverfifo: Option<String>,
    /// The session port of the jumphost.
    pub jport: u16,
    pub serverfifo: Option<String>,
    pub terminal_path: Option<String>,
    pub kill_other_sessions: bool,
    pub verbose: u8,
    pub ssh_option: Vec<String>,
    pub ssh_config: Option<String>,
    pub no_ssh_config: bool,
    pub tunnel: Vec<PortForwardSourceRequest>,
    pub reverse_tunnel: Vec<PortForwardSourceRequest>,
    pub forward_ssh_agent: bool,
    pub ssh_socket: Option<String>,
    pub command: Option<String>,
    pub no_exit: bool,
    pub keepalive: u32,
    pub flow_control: FlowControlMode,
    pub no_terminal: bool,
    pub close_on_hangup: bool,
    /// The shell that the command line names.
    pub remote_shell: Option<RemoteShellKind>,
    pub winserver: bool,
    /// The remote is known to be no POSIX host.
    pub remote_is_windows: bool,
    /// The shell that the options stand for together.
    pub effective_remote_shell: RemoteShellKind,
    /// The terminal program that the options stand for together.
    pub effective_terminal_path: Option<String>,
}

/// The contents of [`ClientArgs`].
pub struct ArgsModel {
    pub username: Option<Seq<char>>,
    pub jumphost: Option<Seq<char>>,
    pub jserverfifo: Option<Seq<char>>,
    pub jport: u16,
    pub serverfifo: Option<Seq<char>>,
    pub terminal_path: Option<Seq<char>>,
    pub kill_other_sessions: bool,
    pub verbose: u8,
    pub ssh_option: Seq<Seq<char>>,
    pub ssh_config: Option<Seq<char>>,
    pub no_ssh_config: bool,
    pub tunnel: Seq<RequestModel>,
    pub reverse_tunnel: Seq<RequestModel>,
    pub forward_ssh_agent: bool,
    pub ssh_socket: Option<Seq<char>>,
    pub command: Option<Seq<char>>,
    pub no_exit: bool,
    pub keepalive: u32,
    pub flow_control: FlowControlMode,
    pub no_terminal: bool,
    pub close_on_hangup: bool,
    pub remote_shell: Option<RemoteShellKind>,
    pub winserver: bool,
    pub remote_is_windows: bool,
    pub effective_remote_shell: RemoteShellKind,
    pub effective_terminal_path: Option<Seq<char>>,
}

impl DeepView for ClientArgs {
    type V = ArgsModel;

    open spec fn deep_view(&self) -> ArgsModel {
        ArgsModel {
            username: self.username.deep_view(),
            jumphost: self.jumphost.deep_view(),
            jserverfifo: self.jserverfifo.deep_view(),
            jport: self.jport,
            serverfifo: self.serverfifo.deep_view(),
            terminal_path: self.terminal_path.deep_view(),
            kill_other_sessions: self.kill_other_sessions,
            verbose: self.verbose,
            ssh_option: self.ssh_option.deep_view(),
            ssh_config: self.ssh_config.deep_view(),
            no_ssh_config: self.no_ssh_config,
            tunnel: self.tunnel.deep_view(),
            reverse_tunnel: self.reverse_tunnel.deep_view(),
            forward_ssh_agent: self.forward_ssh_agent,
            ssh_socket: self.ssh_socket.deep_view(),
            command: self.command.deep_view(),
            no_exit: self.no_exit,
            keepalive: self.keepalive,
            flow_control: self.flow_control,
            no_terminal: self.no_terminal,
            close_on_hangup: self.close_on_hangup,
            remote_shell: self.remote_shell,
            winserver: self.winserver,
            remote_is_windows: self.remote_is_windows,
            effective_remote_shell: self.effective_remote_shell,
            effective_terminal_path: self.effective_terminal_path.deep_view(),
        }
    }
}

impl Clone for ClientArgs {
    fn clone(&self) -> (copy: Self)
        ensures
            copy.deep_view() == self.deep_view(),
    {
        ClientArgs {
            username: copy_text(&self.username),
            jumphost: copy_text(&self.jumphost),
            jserverfifo: copy_text(&self.jserverfifo),
            jport: self.jport,
            serverfifo: copy_text(&self.serverfifo),
            terminal_path: copy_text(&self.terminal_path),
            kill_other_sessions: self.kill_other_sessions,
            verbose: self.verbose,
            ssh_option: copy_texts(&self.ssh_option),
            ssh_config: copy_text(&self.ssh_config),
            no_ssh_config: self.no_ssh_config,
            tunnel: copy_requests(&self.tunnel),
            reverse_tunnel: copy_requests(&self.reverse_tunnel),
            forward_ssh_agent: self.forward_ssh_agent,
            ssh_socket: copy_text(&self.ssh_socket),
            command: copy_text(&self.command),
            no_exit: self.no_exit,
            keepalive: self.keepalive,
            flow_control: self.flow_control,
            no_terminal: self.no_terminal,
            close_on_hangup: self.close_on_hangup,
            remote_shell: self.remote_shell,
            winserver: self.winserver,
            remote_is_windows: self.remote_is_windows,
            effective_remote_shell: self.effective_remote_shell,
            effective_terminal_path: copy_text(&self.effective_terminal_path),
        }
    }
}

} // verus!
