//! The client: what it asks of `ssh`, and what it makes of the answers.
use vstd::prelude::*;
use vstd::slice::slice_subrange;

use crate::bootstrap::{
    is_option_like, looks_like_option, BootstrapRequest, ParsedHost, RemoteShell,
};
use crate::client_args::{ArgsModel, ClientArgs};
use crate::client_terminal::RemoteShellKind;
use crate::error::{joined, ClientError};
use crate::forward::copy_text;
use crate::ip_address::{is_ipv6, is_ipv6_address};
use crate::ssh_config::{
    absolute_path, safe_path, validate_ssh_config_file, ConfigFileState, ConfigModel,
    ResolvedSshConfig,
};
use crate::text::{
    char_is_alphanumeric, chars_of, decimal, decimal_string, find_char, first_index,
    is_alphanumeric, is_space, lemma_first_index, lemma_first_index_bounds, lemma_ink_is_text,
    parse_number, parsed_number, same_text, string_of, trim, trim_chars,
};

verus! {

/// How long one attempt to reconnect may take.
pub const RECONNECT_TIMEOUT_SECONDS: u64 = 10;

/// How long to wait between two attempts.
pub const RECONNECT_RETRY_DELAY_SECONDS: u64 = 1;

/// The byte that Ctrl-C sends in raw mode.
pub const CTRL_C: u8 = 0x03;

// Users.

/// The user of the command line: a positional one wins, and an empty one
/// asks for none.
pub open spec fn asked_user(positional: Option<Seq<char>>, option: Option<Seq<char>>) -> Option<
    Seq<char>,
> {
    match positional {
        Some(user) => if user.len() == 0 {
            None
        } else {
            Some(user)
        },
        None => option,
    }
}

/// What stands in for a missing value.
pub open spec fn or_else(first: Option<Seq<char>>, second: Option<Seq<char>>) -> Option<Seq<char>> {
    match first {
        Some(value) => Some(value),
        None => second,
    }
}

pub fn is_empty_text(text: &str) -> (r: bool)
    ensures
        r == (text@.len() == 0),
{
    let chars = chars_of(text);
    chars.len() == 0
}

pub fn command_user(positional: Option<String>, option: Option<String>) -> (r: Option<String>)
    ensures
        r.deep_view() == asked_user(positional.deep_view(), option.deep_view()),
{
    match positional {
        Some(user) => {
            if is_empty_text(user.as_str()) {
                None
            } else {
                Some(user)
            }
        },
        None => option,
    }
}

/// The user of the session, with the configured one as the last resort.
pub fn effective_user(
    positional: Option<String>,
    option: Option<String>,
    ssh_config: Option<String>,
) -> (r: Option<String>)
    ensures
        r.deep_view() == or_else(
            asked_user(positional.deep_view(), option.deep_view()),
            ssh_config.deep_view(),
        ),
{
    match command_user(positional, option) {
        Some(user) => Some(user),
        None => ssh_config,
    }
}

// The remote shell.

/// How the remote is started and spoken to.
#[derive(Debug)]
pub struct RemoteMode {
    pub bootstrap_shell: RemoteShell,
    pub terminal_shell: RemoteShellKind,
    pub terminal_path: Option<String>,
}

/// The shell that takes the bootstrap command.
pub open spec fn bootstrap_shell(args: ArgsModel, detected: Option<RemoteShell>) -> RemoteShell {
    if args.remote_is_windows {
        RemoteShell::Cmd
    } else {
        match detected {
            Some(shell) => shell,
            None => RemoteShell::Posix,
        }
    }
}

/// Whether the command line fixes the shell of the session.
pub open spec fn shell_given(args: ArgsModel) -> bool {
    args.remote_shell is Some || args.winserver
}

pub open spec fn terminal_shell(args: ArgsModel, detected: Option<RemoteShell>) -> RemoteShellKind {
    if shell_given(args) {
        args.effective_remote_shell
    } else {
        match bootstrap_shell(args, detected) {
            RemoteShell::Posix => RemoteShellKind::Posix,
            RemoteShell::Cmd => RemoteShellKind::Cmd,
        }
    }
}

/// The program to start: the one that was asked for, or `et.exe` where a
/// Windows host has no other.
pub open spec fn remote_program(args: ArgsModel, detected: Option<RemoteShell>) -> Option<Seq<char>> {
    match args.effective_terminal_path {
        Some(path) => Some(path),
        None => match bootstrap_shell(args, detected) {
            RemoteShell::Cmd => Some("et.exe"@),
            RemoteShell::Posix => None,
        },
    }
}

pub fn resolve_remote_mode(args: &ClientArgs, detected_shell: Option<RemoteShell>) -> (mode:
    RemoteMode)
    ensures
        mode.bootstrap_shell == bootstrap_shell(args.deep_view(), detected_shell),
        mode.terminal_shell == terminal_shell(args.deep_view(), detected_shell),
        mode.terminal_path.deep_view() == remote_program(args.deep_view(), detected_shell),
{
    let bootstrap = if args.remote_is_windows {
        RemoteShell::Cmd
    } else {
        match detected_shell {
            Some(shell) => shell,
            None => RemoteShell::Posix,
        }
    };
    let terminal = if args.remote_shell.is_some() || args.winserver {
        args.effective_remote_shell
    } else {
        match bootstrap {
            RemoteShell::Posix => RemoteShellKind::Posix,
            RemoteShell::Cmd => RemoteShellKind::Cmd,
        }
    };
    let terminal_path = match &args.effective_terminal_path {
        Some(path) => Some(path.clone()),
        None => match bootstrap {
            RemoteShell::Cmd => Some("et.exe".to_owned()),
            RemoteShell::Posix => None,
        },
    };
    RemoteMode { bootstrap_shell: bootstrap, terminal_shell: terminal, terminal_path }
}

// The configuration file.

/// The configuration that `ssh` is told to use, where the choice is allowed.
pub open spec fn config_choice(args: ArgsModel, state: Option<ConfigFileState>) -> Result<
    Option<Seq<char>>,
    ClientError,
> {
    if args.no_ssh_config {
        Ok(Some("none"@))
    } else {
        match args.ssh_config {
            None => Ok(None),
            Some(path) => if path == "none"@ {
                Ok(Some("none"@))
            } else if !absolute_path(path) {
                Err(ClientError::InvalidSshConfig("must be an absolute path or 'none'"))
            } else if !safe_path(path) {
                Err(
                    ClientError::InvalidSshConfig(
                        "must contain only ASCII letters, digits, '/', '.', '_', and '-' (Windows also allows ':' and '\\')",
                    ),
                )
            } else if state matches Some(state) && state.regular && state.readable {
                Ok(Some(path))
            } else {
                Err(ClientError::InvalidSshConfig("must name a readable, non-symlink regular file"))
            },
        }
    }
}

/// Whether `r` is a result, up to how its text is held.
pub open spec fn gives(
    r: Result<Option<String>, ClientError>,
    wanted: Result<Option<Seq<char>>, ClientError>,
) -> bool {
    match (r, wanted) {
        (Ok(value), Ok(text)) => value.deep_view() == text,
        (Err(error), Err(fault)) => error == fault,
        _ => false,
    }
}

/// The configuration to use. `state` is what the file system says about the
/// file that the command line names.
pub fn selected_ssh_config(args: &ClientArgs, state: Option<ConfigFileState>) -> (r: Result<
    Option<String>,
    ClientError,
>)
    ensures
        gives(r, config_choice(args.deep_view(), state)),
{
    if args.no_ssh_config {
        return Ok(Some("none".to_owned()));
    }
    match &args.ssh_config {
        None => Ok(None),
        Some(path) => {
            if same_text(path.as_str(), "none") {
                return Ok(Some("none".to_owned()));
            }
            match validate_ssh_config_file(path.as_str(), state) {
                Ok(()) => Ok(Some(path.clone())),
                Err(error) => Err(error),
            }
        },
    }
}

// The jumphost.

/// A character that a jumphost may hold.
pub open spec fn jumphost_char(c: char) -> bool {
    is_alphanumeric(c) || c == '.' || c == '_' || c == '-' || c == '@' || c == '[' || c == ']' || c
        == ':' || c == '%'
}

/// A character of a host name.
pub open spec fn host_char(c: char) -> bool {
    is_alphanumeric(c) || c == '.' || c == '_' || c == '-'
}

pub open spec fn all_host_chars(s: Seq<char>) -> bool {
    forall|i: int| 0 <= i < s.len() ==> host_char(#[trigger] s[i])
}

/// A host without the brackets around it, where it has both.
pub open spec fn unbracketed(host: Seq<char>) -> Seq<char> {
    if host.len() >= 2 && host[0] == '[' && host.last() == ']' {
        host.subrange(1, host.len() - 1)
    } else {
        host
    }
}

/// An IPv6 address, with the name of a zone behind a percent sign where
/// there is one.
pub open spec fn zoned_address(host: Seq<char>) -> bool {
    let k = first_index(host, '%');
    if k >= host.len() {
        is_ipv6(host)
    } else {
        is_ipv6(host.take(k)) && k + 1 < host.len() && all_host_chars(host.skip(k + 1))
    }
}

/// A host name, or an address in brackets.
pub open spec fn valid_host(host: Seq<char>) -> bool {
    if host.len() > 0 && host[0] == '[' {
        zoned_address(unbracketed(host))
    } else {
        all_host_chars(unbracketed(host))
    }
}

/// A user without characters that separate the parts of a destination.
pub open spec fn plain_user(user: Seq<char>) -> bool {
    !user.contains('[') && !user.contains(']') && !user.contains(':') && !user.contains('%')
}

/// A port with a colon in front of it. No port is none at all.
pub open spec fn valid_port_suffix(suffix: Seq<char>) -> bool {
    suffix.len() == 0 || (parsed_number(suffix.skip(1), 65535) is Some && parsed_number(
        suffix.skip(1),
        65535,
    )->0 != 0)
}

/// The parts of a destination put together again.
pub open spec fn rebuilt(parsed: ParsedHost) -> Seq<char> {
    parsed.user@ + (if parsed.user@.len() == 0 {
        ""@
    } else {
        "@"@
    }) + parsed.host@ + parsed.port_suffix@
}

/// What is wrong with a jumphost whose parts are given.
pub open spec fn jumphost_fault(jumphost: Seq<char>, parsed: ParsedHost) -> Option<ClientError> {
    if trim(jumphost).len() == 0 {
        Some(ClientError::Unsupported("empty --jumphost value"))
    } else if jumphost.contains(',') {
        Some(ClientError::Unsupported("multi-hop jumphost is unsupported"))
    } else if !(forall|i: int| 0 <= i < jumphost.len() ==> jumphost_char(#[trigger] jumphost[i])) {
        Some(ClientError::InvalidSshComponent("jumphost"))
    } else if rebuilt(parsed) != jumphost || unbracketed(parsed.host@).len() == 0 || !valid_host(
        parsed.host@,
    ) || !plain_user(parsed.user@) || looks_like_option(unbracketed(parsed.host@))
        || looks_like_option(parsed.user@) || !valid_port_suffix(parsed.port_suffix@) {
        Some(ClientError::InvalidSshComponent("jumphost"))
    } else {
        None
    }
}

fn has_char(s: &[char], c: char) -> (r: bool)
    ensures
        r == s@.contains(c),
{
    let k = find_char(s, c);
    proof {
        lemma_first_index_bounds(s@, c);
    }
    if k < s.len() {
        assert(s@[k as int] == c);
    }
    k < s.len()
}

fn are_jumphost_chars(s: &[char]) -> (r: bool)
    ensures
        r == (forall|i: int| 0 <= i < s@.len() ==> jumphost_char(#[trigger] s@[i])),
{
    let mut i: usize = 0;
    while i < s.len()
        invariant
            i <= s@.len(),
            forall|j: int| 0 <= j < i ==> jumphost_char(#[trigger] s@[j]),
        decreases s@.len() - i,
    {
        let c = s[i];
        if !(char_is_alphanumeric(c) || c == '.' || c == '_' || c == '-' || c == '@' || c == '['
            || c == ']' || c == ':' || c == '%') {
            assert(!jumphost_char(s@[i as int]));
            return false;
        }
        i += 1;
    }
    true
}

fn are_host_chars(s: &[char]) -> (r: bool)
    ensures
        r == all_host_chars(s@),
{
    let mut i: usize = 0;
    while i < s.len()
        invariant
            i <= s@.len(),
            forall|j: int| 0 <= j < i ==> host_char(#[trigger] s@[j]),
        decreases s@.len() - i,
    {
        let c = s[i];
        if !(char_is_alphanumeric(c) || c == '.' || c == '_' || c == '-') {
            assert(!host_char(s@[i as int]));
            return false;
        }
        i += 1;
    }
    true
}

fn without_brackets(host: &[char]) -> (out: &[char])
    ensures
        out@ == unbracketed(host@),
{
    let len: usize = host.len();
    if len >= 2 && host[0] == '[' && host[len - 1] == ']' {
        slice_subrange(host, 1, len - 1)
    } else {
        host
    }
}

fn is_zoned_address(host: &[char]) -> (r: bool)
    ensures
        r == zoned_address(host@),
{
    let k = find_char(host, '%');
    proof {
        lemma_first_index_bounds(host@, '%');
    }
    let len: usize = host.len();
    if k >= len {
        is_ipv6_address(host)
    } else {
        let address = slice_subrange(host, 0, k);
        let zone = slice_subrange(host, k + 1, len);
        assert(address@ =~= host@.take(k as int));
        assert(zone@ =~= host@.skip(k + 1));
        is_ipv6_address(address) && zone.len() > 0 && are_host_chars(zone)
    }
}

fn is_plain_user(user: &[char]) -> (r: bool)
    ensures
        r == plain_user(user@),
{
    !has_char(user, '[') && !has_char(user, ']') && !has_char(user, ':') && !has_char(user, '%')
}

fn is_port_suffix(suffix: &[char]) -> (r: bool)
    ensures
        r == valid_port_suffix(suffix@),
{
    let len: usize = suffix.len();
    if len == 0 {
        return true;
    }
    let port = slice_subrange(suffix, 1, len);
    assert(port@ =~= suffix@.skip(1));
    match parse_number(port, 65535) {
        Some(port) => port != 0,
        None => false,
    }
}

fn rebuild(parsed: &ParsedHost) -> (out: String)
    ensures
        out@ == rebuilt(*parsed),
{
    let mut out = parsed.user.clone();
    if !is_empty_text(parsed.user.as_str()) {
        out.append("@");
    } else {
        proof {
            reveal_strlit("");
            assert(parsed.user@ + ""@ =~= parsed.user@);
        }
    }
    out.append(parsed.host.as_str());
    out.append(parsed.port_suffix.as_str());
    out
}

/// Validate `--jumphost` as a target that `ssh` can jump through. Empty
/// values, chains, and anything that `ssh` would take for an option are
/// refused. `parsed` holds the parts of the value.
pub fn validate_jumphost(jumphost: &str, parsed: &ParsedHost) -> (r: Result<(), ClientError>)
    ensures
        match jumphost_fault(jumphost@, *parsed) {
            Some(fault) => r == Err::<(), ClientError>(fault),
            None => r == Ok::<(), ClientError>(()),
        },
{
    let chars = chars_of(jumphost);
    if trim_chars(chars.as_slice()).len() == 0 {
        return Err(ClientError::Unsupported("empty --jumphost value"));
    }
    if has_char(chars.as_slice(), ',') {
        return Err(ClientError::Unsupported("multi-hop jumphost is unsupported"));
    }
    if !are_jumphost_chars(chars.as_slice()) {
        return Err(ClientError::InvalidSshComponent("jumphost"));
    }
    let host = chars_of(parsed.host.as_str());
    let bare = without_brackets(host.as_slice());
    let user = chars_of(parsed.user.as_str());
    let suffix = chars_of(parsed.port_suffix.as_str());
    let bare_text = string_of(bare);
    let valid = if host.len() > 0 && host[0] == '[' {
        is_zoned_address(bare)
    } else {
        are_host_chars(bare)
    };
    let whole = rebuild(parsed);
    if !same_text(whole.as_str(), jumphost) || bare.len() == 0 || !valid || !is_plain_user(
        user.as_slice(),
    ) || is_option_like(bare_text.as_str()) || is_option_like(parsed.user.as_str())
        || !is_port_suffix(suffix.as_slice()) {
        return Err(ClientError::InvalidSshComponent("jumphost"));
    }
    Ok(())
}

/// A jumphost that passed can be handed to `ssh`: it is one hop, and neither
/// its host nor its user reads as an option.
pub proof fn valid_jumphost_is_one_plain_hop(jumphost: Seq<char>, parsed: ParsedHost)
    requires
        jumphost_fault(jumphost, parsed) is None,
    ensures
        !jumphost.contains(','),
        !looks_like_option(unbracketed(parsed.host@)),
        !looks_like_option(parsed.user@),
        rebuilt(parsed) == jumphost,
{
}

/// What is wrong with options that only make sense together. `parsed` holds
/// the parts of the jumphost.
pub open spec fn mode_fault(args: ArgsModel, parsed: Option<ParsedHost>) -> Option<ClientError> {
    if args.jserverfifo is Some && args.jumphost is None {
        Some(ClientError::Unsupported("--jserverfifo requires --jumphost"))
    } else if args.jumphost is Some && jumphost_fault(args.jumphost->0, parsed->0) is Some {
        jumphost_fault(args.jumphost->0, parsed->0)
    } else if args.no_exit && args.command is None {
        Some(ClientError::Unsupported("--no-exit requires --command"))
    } else {
        None
    }
}

pub fn validate_bootstrap_mode(args: &ClientArgs, parsed: Option<&ParsedHost>) -> (r: Result<
    (),
    ClientError,
>)
    requires
        args.jumphost is Some ==> parsed is Some,
    ensures
        match mode_fault(
            args.deep_view(),
            match parsed {
                Some(parsed) => Some(*parsed),
                None => None,
            },
        ) {
            Some(fault) => r == Err::<(), ClientError>(fault),
            None => r == Ok::<(), ClientError>(()),
        },
{
    if args.jserverfifo.is_some() && args.jumphost.is_none() {
        return Err(ClientError::Unsupported("--jserverfifo requires --jumphost"));
    }
    match (&args.jumphost, parsed) {
        (Some(jumphost), Some(parsed)) => match validate_jumphost(jumphost.as_str(), parsed) {
            Ok(()) => {},
            Err(error) => {
                return Err(error);
            },
        },
        _ => {},
    }
    if args.no_exit && args.command.is_none() {
        return Err(ClientError::Unsupported("--no-exit requires --command"));
    }
    Ok(())
}

// What the configuration adds to the command line.

pub open spec fn is_control(c: char) -> bool {
    c <= '\u{1f}' || '\u{7f}' <= c <= '\u{9f}'
}

/// An agent socket that was not expanded: `ssh` leaves what it substitutes
/// at run time as it is.
pub open spec fn unresolved_socket(socket: Seq<char>) -> bool {
    socket.len() == 0 || exists|i: int|
        0 <= i < socket.len() && unresolved_char(#[trigger] socket[i])
}

pub open spec fn unresolved_char(c: char) -> bool {
    is_control(c) || c == '$' || c == '%' || c == '~'
}

/// The options with what the configuration adds: the jumphost where none was
/// given, and the agent with its socket. An agent that is configured away is
/// not forwarded.
pub open spec fn effective_args(args: ArgsModel, config: ConfigModel) -> Result<
    ArgsModel,
    ClientError,
> {
    let jumped = ArgsModel {
        jumphost: or_else(args.jumphost, config.proxy_jump),
        forward_ssh_agent: args.forward_ssh_agent || config.forward_agent,
        ..args
    };
    if jumped.forward_ssh_agent && jumped.ssh_socket is None {
        match config.identity_agent {
            None => Ok(jumped),
            Some(socket) => if socket == "none"@ {
                Ok(ArgsModel { forward_ssh_agent: false, ..jumped })
            } else if socket == "SSH_AUTH_SOCK"@ {
                Ok(jumped)
            } else if unresolved_socket(socket) {
                Err(ClientError::SshConfigMalformed("unsupported identityagent"))
            } else {
                Ok(ArgsModel { ssh_socket: Some(socket), ..jumped })
            },
        }
    } else {
        Ok(jumped)
    }
}

fn is_unresolved_socket(socket: &str) -> (r: bool)
    ensures
        r == unresolved_socket(socket@),
{
    let chars = chars_of(socket);
    if chars.len() == 0 {
        return true;
    }
    let mut i: usize = 0;
    while i < chars.len()
        invariant
            i <= chars@.len(),
            chars@ == socket@,
            forall|j: int| 0 <= j < i ==> !unresolved_char(#[trigger] chars@[j]),
        decreases chars@.len() - i,
    {
        let c = chars[i];
        if c <= '\u{1f}' || (c >= '\u{7f}' && c <= '\u{9f}') || c == '$' || c == '%' || c == '~' {
            assert(unresolved_char(socket@[i as int]));
            return true;
        }
        i += 1;
    }
    false
}

/// Whether `r` holds options, up to how their text is held.
pub open spec fn gives_args(
    r: Result<ClientArgs, ClientError>,
    wanted: Result<ArgsModel, ClientError>,
) -> bool {
    match (r, wanted) {
        (Ok(args), Ok(model)) => args.deep_view() == model,
        (Err(error), Err(fault)) => error == fault,
        _ => false,
    }
}

pub fn effective_ssh_args(args: &ClientArgs, config: &ResolvedSshConfig) -> (r: Result<
    ClientArgs,
    ClientError,
>)
    ensures
        gives_args(r, effective_args(args.deep_view(), config.deep_view())),
{
    let mut args = args.clone();
    if args.jumphost.is_none() {
        args.jumphost = copy_text(&config.proxy_jump);
    }
    args.forward_ssh_agent = args.forward_ssh_agent || config.forward_agent;
    if args.forward_ssh_agent && args.ssh_socket.is_none() {
        match &config.identity_agent {
            None => {},
            Some(socket) => {
                if same_text(socket.as_str(), "none") {
                    args.forward_ssh_agent = false;
                } else if same_text(socket.as_str(), "SSH_AUTH_SOCK") {
                } else if is_unresolved_socket(socket.as_str()) {
                    return Err(ClientError::SshConfigMalformed("unsupported identityagent"));
                } else {
                    args.ssh_socket = Some(socket.clone());
                }
            },
        }
    }
    Ok(args)
}

/// What the log says about a bootstrap. It names neither the credentials nor
/// the options.
pub fn bootstrap_log_message(request: &BootstrapRequest) -> (out: String)
    ensures
        out@ == "starting SSH bootstrap host="@ + request.host_alias@ + " options="@ + decimal(
            request.ssh_options@.len(),
        ),
{
    let mut out = joined("starting SSH bootstrap host=", request.host_alias.as_str());
    out.append(" options=");
    out.append(decimal_string(request.ssh_options.len() as u64).as_str());
    out
}

// Reconnecting.

/// What follows an attempt to reconnect.
#[derive(Debug)]
pub enum RetryStep<T> {
    /// The attempt decided the matter.
    Done(Result<T, ClientError>),
    /// The network failed: wait, and try again.
    Wait(ClientError),
}

/// Failures that pass are waited out, all others end the session.
pub fn after_attempt<T>(result: Result<T, ClientError>) -> (step: RetryStep<T>)
    ensures
        step == match result {
            Ok(value) => RetryStep::Done(Ok(value)),
            Err(error) => if error.passes() {
                RetryStep::<T>::Wait(error)
            } else {
                RetryStep::<T>::Done(Err(error))
            },
        },
{
    match result {
        Ok(value) => RetryStep::Done(Ok(value)),
        Err(error) => {
            if error.is_transient_reconnect() {
                RetryStep::Wait(error)
            } else {
                RetryStep::Done(Err(error))
            }
        },
    }
}

/// What follows the wait: another attempt, or the failure that led to it
/// where the user gave up.
pub fn after_wait(error: ClientError, aborted: bool) -> (r: Option<ClientError>)
    ensures
        r == if aborted {
            Some(error)
        } else {
            None::<ClientError>
        },
{
    if aborted {
        Some(error)
    } else {
        None
    }
}

fn holds_byte(bytes: &[u8], byte: u8) -> (r: bool)
    ensures
        r == bytes@.contains(byte),
{
    let mut i: usize = 0;
    while i < bytes.len()
        invariant
            i <= bytes@.len(),
            forall|j: int| 0 <= j < i ==> bytes@[j] != byte,
        decreases bytes@.len() - i,
    {
        if bytes[i] == byte {
            return true;
        }
        i += 1;
    }
    false
}

/// What happened while waiting to reconnect.
#[derive(Debug)]
pub enum WaitLook<'a> {
    /// The time is over, or nothing came until then.
    Over,
    /// The poll was interrupted.
    Interrupted,
    /// Input came.
    Input(&'a [u8]),
    /// The input ended.
    Ended,
    /// The poll or the read failed, or told of no input.
    Failed,
}

#[derive(Debug, Clone, Copy, PartialEq, Eq, Structural)]
pub enum WaitDecision {
    /// Try to reconnect.
    Retry,
    /// The user pressed Ctrl-C.
    Abort,
    /// Look again.
    LookAgain,
    /// Sleep for what is left of the delay, then try to reconnect.
    SleepOut,
}

/// What the client does while it waits. Ctrl-C gives up; other input cannot
/// reach the server and is dropped.
pub fn reconnect_wait_aborted(look: WaitLook<'_>) -> (decision: WaitDecision)
    ensures
        decision == match look {
            WaitLook::Over => WaitDecision::Retry,
            WaitLook::Failed => WaitDecision::Retry,
            WaitLook::Interrupted => WaitDecision::LookAgain,
            WaitLook::Ended => WaitDecision::SleepOut,
            WaitLook::Input(bytes) => if bytes@.contains(CTRL_C) {
                WaitDecision::Abort
            } else {
                WaitDecision::LookAgain
            },
        },
{
    match look {
        WaitLook::Over => WaitDecision::Retry,
        WaitLook::Failed => WaitDecision::Retry,
        WaitLook::Interrupted => WaitDecision::LookAgain,
        WaitLook::Ended => WaitDecision::SleepOut,
        WaitLook::Input(bytes) => {
            if holds_byte(bytes, CTRL_C) {
                WaitDecision::Abort
            } else {
                WaitDecision::LookAgain
            }
        },
    }
}

/// The user of a session is the one in front of the host, or else the one of
/// the option, or else the configured one. An empty one in front of the host
/// leaves the choice to the configuration.
pub proof fn users_are_chosen_in_order(
    positional: Option<String>,
    option: Option<String>,
    configured: Option<String>,
    asked: Option<String>,
    user: Option<String>,
)
    requires
        call_ensures(command_user, (positional, option), asked),
        call_ensures(effective_user, (positional, option, configured), user),
    ensures
        (positional matches Some(name) && name@.len() > 0) ==> user.deep_view()
            == positional.deep_view() && asked.deep_view() == user.deep_view(),
        (positional matches Some(name) && name@.len() == 0) ==> asked is None && user.deep_view()
            == configured.deep_view(),
        positional is None && option is Some ==> user.deep_view() == option.deep_view()
            && asked.deep_view() == user.deep_view(),
        positional is None && option is None ==> asked is None && user.deep_view()
            == configured.deep_view(),
{
}

/// The shell that starts the terminal is the one that was found, unless the
/// remote is known to be a Windows host; what runs in the terminal is what
/// the command line names, or else the same. A program that was named is
/// started.
pub proof fn remote_modes_follow_the_remote(
    args: &ClientArgs,
    detected: Option<RemoteShell>,
    mode: RemoteMode,
)
    requires
        call_ensures(resolve_remote_mode, (args, detected), mode),
    ensures
        args.remote_is_windows ==> mode.bootstrap_shell == RemoteShell::Cmd,
        !args.remote_is_windows && detected is Some ==> mode.bootstrap_shell == detected->0,
        !args.remote_is_windows && detected is None ==> mode.bootstrap_shell == RemoteShell::Posix,
        args.remote_shell is Some || args.winserver ==> mode.terminal_shell
            == args.effective_remote_shell,
        args.remote_shell is None && !args.winserver ==> (mode.terminal_shell
            == RemoteShellKind::Cmd <==> mode.bootstrap_shell == RemoteShell::Cmd) && (
        mode.terminal_shell == RemoteShellKind::Posix <==> mode.bootstrap_shell
            == RemoteShell::Posix),
        args.effective_terminal_path is Some ==> mode.terminal_path.deep_view()
            == args.effective_terminal_path.deep_view(),
        args.effective_terminal_path is None ==> (mode.terminal_path is Some
            <==> mode.bootstrap_shell == RemoteShell::Cmd),
{
}

/// The configuration fills what the command line leaves open and overrides
/// nothing of it: a jumphost or a socket that was given stays, and everything
/// that has nothing to do with jumphosts and agents stays.
pub proof fn configurations_fill_the_gaps(
    args: &ClientArgs,
    config: &ResolvedSshConfig,
    r: Result<ClientArgs, ClientError>,
)
    requires
        call_ensures(effective_ssh_args, (args, config), r),
    ensures
        r matches Ok(filled) ==> filled.deep_view() == (ArgsModel {
            jumphost: filled.deep_view().jumphost,
            forward_ssh_agent: filled.forward_ssh_agent,
            ssh_socket: filled.deep_view().ssh_socket,
            ..args.deep_view()
        }),
        r matches Ok(filled) ==> filled.jumphost.deep_view() == (if args.jumphost is Some {
            args.jumphost.deep_view()
        } else {
            config.proxy_jump.deep_view()
        }),
        r is Ok && args.ssh_socket is Some ==> r->Ok_0.ssh_socket.deep_view()
            == args.ssh_socket.deep_view() && r->Ok_0.forward_ssh_agent == (args.forward_ssh_agent
            || config.forward_agent),
        r is Ok && !args.forward_ssh_agent && !config.forward_agent ==> !r->Ok_0.forward_ssh_agent
            && r->Ok_0.ssh_socket.deep_view() == args.ssh_socket.deep_view(),
        r is Err ==> args.ssh_socket is None && config.identity_agent is Some,
{
}

/// An agent that is forwarded over a configured socket goes over that one:
/// `none` forwards nothing, `SSH_AUTH_SOCK` names the environment's, and a
/// path is taken as it is.
pub proof fn configured_agents_are_used(
    args: &ClientArgs,
    config: &ResolvedSshConfig,
    socket: Seq<char>,
    r: Result<ClientArgs, ClientError>,
)
    requires
        call_ensures(effective_ssh_args, (args, config), r),
        args.forward_ssh_agent || config.forward_agent,
        args.ssh_socket is None,
        config.identity_agent.deep_view() == Some(socket),
    ensures
        socket == "none"@ ==> (r matches Ok(filled) && !filled.forward_ssh_agent),
        socket == "SSH_AUTH_SOCK"@ ==> (r matches Ok(filled) && filled.forward_ssh_agent
            && filled.ssh_socket is None),
        socket.len() > 0 && socket[0] == '/' && (forall|i: int|
            0 <= i < socket.len() ==> is_alphanumeric(#[trigger] socket[i]) || socket[i] == '/'
                || socket[i] == '.' || socket[i] == '-' || socket[i] == '_') ==> (r matches Ok(filled)
            && filled.forward_ssh_agent && filled.ssh_socket.deep_view() == Some(socket)),
        socket != "none"@ && socket != "SSH_AUTH_SOCK"@ && (socket.contains('%') || socket.contains(
            '$',
        ) || socket.contains('~') || socket.contains('\n') || socket.len() == 0) ==> r is Err,
{
    reveal_strlit("none");
    reveal_strlit("SSH_AUTH_SOCK");
    if socket.contains('%') {
        let i = choose|i: int| 0 <= i < socket.len() && socket[i] == '%';
        assert(unresolved_char(socket[i]));
    }
    if socket.contains('$') {
        let i = choose|i: int| 0 <= i < socket.len() && socket[i] == '$';
        assert(unresolved_char(socket[i]));
    }
    if socket.contains('~') {
        let i = choose|i: int| 0 <= i < socket.len() && socket[i] == '~';
        assert(unresolved_char(socket[i]));
    }
    if socket.contains('\n') {
        let i = choose|i: int| 0 <= i < socket.len() && socket[i] == '\n';
        assert(unresolved_char(socket[i]));
    }
}

/// A failure of the network is waited out; anything else decides the matter,
/// and a user who gives up gets the failure that they waited for.
pub proof fn passing_failures_are_waited_out<T>(
    result: Result<T, ClientError>,
    step: RetryStep<T>,
    error: ClientError,
    aborted: bool,
    after: Option<ClientError>,
)
    requires
        call_ensures(after_attempt::<T>, (result,), step),
        call_ensures(after_wait, (error, aborted), after),
    ensures
        result is Ok ==> step == RetryStep::Done(result),
        (result matches Err(failure) && (failure is UnreachableEndpoint || failure is DnsTimeout
            || failure is BootstrapTimeout || failure is ConnectIo)) ==> step
            == RetryStep::<T>::Wait(result->Err_0),
        (result matches Err(failure) && (failure is ProtocolMismatch || failure is ServerInvalidKey
            || failure is ServerRejected || failure is Unsupported)) ==> step == RetryStep::Done(
            result,
        ),
        aborted ==> after == Some(error),
        !aborted ==> after is None,
{
}

/// While the client waits to try again, only Ctrl-C gives up: it is found
/// wherever it stands in the input, and no other input, end or failure is
/// taken for it.
pub proof fn only_ctrl_c_gives_up(look: WaitLook<'_>, decision: WaitDecision)
    requires
        call_ensures(reconnect_wait_aborted, (look,), decision),
    ensures
        decision == WaitDecision::Abort <==> (look matches WaitLook::Input(bytes) && bytes@.contains(
            3u8,
        )),
        decision == WaitDecision::Retry <==> look is Over || look is Failed,
        decision == WaitDecision::SleepOut <==> look is Ended,
{
}

/// A plain host name is a jumphost, alone and with a user.
pub proof fn plain_hosts_are_jumphosts(host: Seq<char>, user: Seq<char>, parsed: ParsedHost)
    requires
        host.len() > 0,
        all_host_chars(host),
        host[0] != '-',
        all_host_chars(user),
        user.len() > 0 ==> user[0] != '-',
        parsed.host@ == host,
        parsed.user@ == user,
        parsed.port_suffix@.len() == 0,
    ensures
        user.len() == 0 ==> jumphost_fault(host, parsed) is None,
        user.len() > 0 ==> jumphost_fault(user + (seq!['@'] + host), parsed) is None,
{
    reveal_strlit("");
    reveal_strlit("@");
    assert(!is_space(host[0])) by {
        assert(host_char(host[0]));
    }
    assert(unbracketed(host) == host) by {
        assert(host_char(host[0]));
    }
    if user.len() == 0 {
        assert(rebuilt(parsed) =~= host);
        lemma_ink_is_text(host);
        assert forall|i: int| 0 <= i < host.len() implies jumphost_char(#[trigger] host[i]) by {
            assert(host_char(host[i]));
        }
        if host.contains(',') {
            let i = choose|i: int| 0 <= i < host.len() && host[i] == ',';
            assert(host_char(host[i]));
        }
    } else {
        let all = user + (seq!['@'] + host);
        assert(rebuilt(parsed) =~= all);
        assert(host_char(user[0]));
        lemma_ink_is_text(all);
        assert forall|i: int| 0 <= i < all.len() implies jumphost_char(#[trigger] all[i]) by {
            if i < user.len() {
                assert(host_char(user[i]));
            } else if i > user.len() {
                assert(host_char(host[i - user.len() - 1]));
            }
        }
        if all.contains(',') {
            let i = choose|i: int| 0 <= i < all.len() && all[i] == ',';
            assert(jumphost_char(all[i]));
        }
        assert forall|c: char| #[trigger] user.contains(c) implies host_char(c) by {
            let i = choose|i: int| 0 <= i < user.len() && user[i] == c;
            assert(host_char(user[i]));
        }
    }
}

/// The configuration is the file that was named, as long as it is one that
/// can be used; `none` and a session without any configure nothing, and a
/// session that names none leaves it to `ssh`.
pub proof fn named_configurations_are_used(
    args: &ClientArgs,
    state: Option<ConfigFileState>,
    r: Result<Option<String>, ClientError>,
)
    requires
        call_ensures(selected_ssh_config, (args, state), r),
    ensures
        args.no_ssh_config ==> r is Ok && r->Ok_0.deep_view() == Some("none"@),
        !args.no_ssh_config && args.ssh_config is None ==> r is Ok && r->Ok_0 is None,
        !args.no_ssh_config && args.ssh_config is Some && r is Ok ==> r->Ok_0.deep_view()
            == args.ssh_config.deep_view(),
        !args.no_ssh_config && args.ssh_config is Some && args.ssh_config->0@ != "none"@ && r is Ok
            ==> state is Some && state->0.regular && state->0.readable,
{
}

/// A zone stands behind an address of the sixth version, and what has no
/// percent sign is such an address as a whole.
pub proof fn zones_stand_behind_addresses(address: Seq<char>, zone: Seq<char>)
    requires
        !address.contains('%'),
    ensures
        zoned_address(address) <==> is_ipv6(address),
        zoned_address(address + (seq!['%'] + zone)) <==> is_ipv6(address) && zone.len() > 0
            && all_host_chars(zone),
{
    let whole = address + (seq!['%'] + zone);
    let k = address.len() as int;
    assert forall|i: int| 0 <= i < k implies #[trigger] whole[i] != '%' by {
        assert(whole[i] == address[i]);
        assert(address.contains(address[i]));
    }
    assert(whole[k] == '%');
    lemma_first_index(whole, '%', k);
    assert forall|i: int| 0 <= i < k implies #[trigger] address[i] != '%' by {
        assert(address.contains(address[i]));
    }
    lemma_first_index(address, '%', k);
    assert(whole.take(k) =~= address);
    assert(whole.skip(k + 1) =~= zone);
}

} // verus!
