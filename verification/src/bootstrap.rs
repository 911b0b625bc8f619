//! Starting the remote terminal over `ssh`: the commands that are sent and
//! the credentials that come back.
use vstd::prelude::*;
use vstd::slice::slice_subrange;
use vstd::utf8::{decode_utf8, encode_utf8, is_char_boundary};

use crate::bytes::{find_bytes, first_occurrence, occurs};
use crate::error::{joined, ClientError};
use crate::text::{
    ascii, ascii_bytes, char_is_alphanumeric, chars_of, decimal, decimal_string, ends_with,
    find_char, first_index, is_alphanumeric, lower_chars, lowered, push_text,
    same_ignoring_case, shown_text, spells, spells_ignoring_case, starts_with, string_of, trim,
    trim_chars, trim_start, trim_start_chars, utf8_lossy,
};

verus! {

/// What introduces the credentials in the output of the remote terminal.
pub open spec fn marker() -> Seq<u8> {
    ascii("IDPASSKEY:"@)
}

pub const ID_LEN: usize = 16;

pub const PASSKEY_LEN: usize = 32;

/// A session id, a slash and a passkey.
pub const CREDENTIAL_LEN: usize = 49;

pub const WINDOWS_SHELL_PROBE_SENTINEL: &'static str = "__ET_COMSPEC__";

#[derive(Debug, Clone, PartialEq, Eq)]
pub struct Credentials {
    pub id: String,
    pub passkey: String,
}

/// Shell grammar used for the remote bootstrap command.
#[derive(Debug, Clone, Copy, PartialEq, Eq, Structural)]
pub enum RemoteShell {
    /// POSIX shell: `printf '%s\n' '<cred>' | 'etterminal'`.
    Posix,
    /// Windows `cmd.exe`, which has no `printf` and no single-quote quoting:
    /// `echo <cred>| "et.exe" "--verbose=0"`.
    Cmd,
}

impl Default for RemoteShell {
    fn default() -> (shell: RemoteShell)
        ensures
            shell == RemoteShell::Posix,
    {
        RemoteShell::Posix
    }
}

#[derive(Debug, Clone, PartialEq, Eq)]
pub struct BootstrapRequest {
    pub user: Option<String>,
    pub host_alias: String,
    pub jumphost: Option<String>,
    pub terminal_path: Option<String>,
    pub server_fifo: Option<String>,
    pub kill_other_sessions: bool,
    pub verbose: u8,
    pub ssh_options: Vec<String>,
    /// The `ssh` configuration file to use, or `none`.
    pub ssh_config: Option<String>,
    pub term: String,
    pub remote_shell: RemoteShell,
    pub session_shell: Option<String>,
}

/// Second bootstrap hop for a jumphost:
/// `ssh [-p sshport] [user@]jumphost '<etterminal --jump ...>'`.
#[derive(Debug, Clone, PartialEq, Eq)]
pub struct JumpBootstrapRequest {
    /// `[user@]host[:sshport]` jumphost as given on the command line.
    pub jumphost: String,
    /// Final destination host passed to `--dsthost`.
    pub destination_host: String,
    /// Final destination ET port passed to `--dstport`.
    pub destination_port: u16,
    /// `--jserverfifo` value, forwarded as the jump terminal's `--serverfifo`.
    pub jump_server_fifo: Option<String>,
    pub terminal_path: Option<String>,
    pub kill_other_sessions: bool,
    pub verbose: u8,
    pub ssh_options: Vec<String>,
    /// The `ssh` configuration file to use, or `none`.
    pub ssh_config: Option<String>,
    pub term: String,
}

/// The parts of a `[user@]host[:port]` argument. The user is empty where none
/// was given; the port keeps its colon, and is empty where none was given.
#[derive(Debug, Clone, PartialEq, Eq)]
pub struct ParsedHost {
    pub user: String,
    pub host: String,
    pub port_suffix: String,
}

/// When an `ssh` process has done what it was started for.
#[derive(Debug, Clone, Copy, PartialEq, Eq, Structural)]
pub enum InvocationCompletion {
    Exit,
    Credentials,
    ShellProbe,
}

#[derive(Debug, Clone, PartialEq, Eq)]
pub struct SshInvocation {
    pub program: String,
    pub args: Vec<String>,
    pub operation: &'static str,
    pub completion: InvocationCompletion,
}

// Quoting.

/// Every single quote of `s` replaced by one that closes the quoting, a
/// double-quoted one and one that opens the quoting again.
pub open spec fn quotes_escaped(s: Seq<char>) -> Seq<char>
    decreases s.len(),
{
    if s.len() == 0 {
        Seq::empty()
    } else if s.last() == '\'' {
        quotes_escaped(s.drop_last()) + seq!['\'', '"', '\'', '"', '\'']
    } else {
        quotes_escaped(s.drop_last()).push(s.last())
    }
}

/// `s` as one word of a POSIX shell.
pub open spec fn shell_quoted(s: Seq<char>) -> Seq<char> {
    seq!['\''] + quotes_escaped(s) + seq!['\'']
}

/// Every double quote of `s` doubled.
pub open spec fn quotes_doubled(s: Seq<char>) -> Seq<char>
    decreases s.len(),
{
    if s.len() == 0 {
        Seq::empty()
    } else if s.last() == '"' {
        quotes_doubled(s.drop_last()) + seq!['"', '"']
    } else {
        quotes_doubled(s.drop_last()).push(s.last())
    }
}

/// `s` as one argument for `cmd.exe`.
pub open spec fn cmd_quoted(s: Seq<char>) -> Seq<char> {
    seq!['"'] + quotes_doubled(s) + seq!['"']
}

pub fn shell_quote(value: &str) -> (out: String)
    ensures
        out@ == shell_quoted(value@),
{
    let chars = chars_of(value);
    let mut out = String::new();
    out.push('\'');
    let mut i: usize = 0;
    assert(out@ =~= seq!['\''] + quotes_escaped(chars@.take(0)));
    while i < chars.len()
        invariant
            i <= chars@.len(),
            out@ == seq!['\''] + quotes_escaped(chars@.take(i as int)),
        decreases chars@.len() - i,
    {
        let c = chars[i];
        let ghost before = out@;
        if c == '\'' {
            out.push('\'');
            out.push('"');
            out.push('\'');
            out.push('"');
            out.push('\'');
            assert(out@ =~= before + seq!['\'', '"', '\'', '"', '\'']);
        } else {
            out.push(c);
        }
        i += 1;
        assert(chars@.take(i as int).drop_last() =~= chars@.take(i - 1));
        assert(out@ =~= seq!['\''] + quotes_escaped(chars@.take(i as int)));
    }
    out.push('\'');
    assert(chars@.take(i as int) =~= value@);
    assert(out@ =~= shell_quoted(value@));
    out
}

/// Quote one argument for `cmd.exe`.
pub fn cmd_quote(value: &str) -> (out: String)
    ensures
        out@ == cmd_quoted(value@),
{
    let chars = chars_of(value);
    let mut out = String::new();
    out.push('"');
    let mut i: usize = 0;
    assert(out@ =~= seq!['"'] + quotes_doubled(chars@.take(0)));
    while i < chars.len()
        invariant
            i <= chars@.len(),
            out@ == seq!['"'] + quotes_doubled(chars@.take(i as int)),
        decreases chars@.len() - i,
    {
        let c = chars[i];
        let ghost before = out@;
        if c == '"' {
            out.push('"');
            out.push('"');
            assert(out@ =~= before + seq!['"', '"']);
        } else {
            out.push(c);
        }
        i += 1;
        assert(chars@.take(i as int).drop_last() =~= chars@.take(i - 1));
        assert(out@ =~= seq!['"'] + quotes_doubled(chars@.take(i as int)));
    }
    out.push('"');
    assert(chars@.take(i as int) =~= value@);
    assert(out@ =~= cmd_quoted(value@));
    out
}

/// The value of a shell word that is made of single-quoted parts and of
/// double-quoted parts in which no character has a meaning of its own.
/// There is none where a character stands outside quotes, or where a quote
/// is not closed.
pub open spec fn shell_word_value(s: Seq<char>) -> Option<Seq<char>>
    decreases s.len(),
{
    if s.len() == 0 {
        Some(Seq::empty())
    } else if s[0] == '\'' || s[0] == '"' {
        let body = s.skip(1);
        let k = first_index(body, s[0]);
        if k < 0 || k >= body.len() {
            None
        } else if s[0] == '"' && exists|i: int|
            0 <= i < k && (body[i] == '$' || body[i] == '`' || body[i] == '\\') {
            None
        } else {
            match shell_word_value(body.skip(k + 1)) {
                Some(rest) => Some(body.take(k) + rest),
                None => None,
            }
        }
    } else {
        None
    }
}

/// What a quoted word stands for, when `open` is what was already read of it
/// inside an open single quote and `rest` follows.
proof fn lemma_quoted_from(open: Seq<char>, rest: Seq<char>)
    requires
        !open.contains('\''),
    ensures
        shell_word_value(seq!['\''] + open + quotes_escaped_front(rest) + seq!['\'']) == Some(
            open + rest,
        ),
    decreases rest.len(),
{
    let word = seq!['\''] + open + quotes_escaped_front(rest) + seq!['\''];
    if rest.len() == 0 {
        let body = word.skip(1);
        assert(body =~= open + seq!['\'']);
        crate::text::lemma_first_index(body, '\'', open.len() as int);
        assert(body.take(open.len() as int) =~= open);
        assert(body.skip(open.len() as int + 1) =~= Seq::<char>::empty());
        assert(shell_word_value(Seq::<char>::empty()) == Some(Seq::<char>::empty()));
        assert(word[0] == '\'');
        assert(open + Seq::<char>::empty() =~= open + rest);
    } else if rest[0] == '\'' {
        let tail = rest.skip(1);
        let next = seq!['\''] + Seq::<char>::empty() + quotes_escaped_front(tail) + seq!['\''];
        lemma_quoted_from(Seq::empty(), tail);
        let body = word.skip(1);
        let escape = seq!['\'', '"', '\'', '"', '\''];
        assert(body =~= open + escape + quotes_escaped_front(tail) + seq!['\'']);
        crate::text::lemma_first_index(body, '\'', open.len() as int);
        assert(body.take(open.len() as int) =~= open);
        let second = body.skip(open.len() as int + 1);
        assert(second =~= seq!['"', '\'', '"'] + next);
        let inner = second.skip(1);
        assert(inner =~= seq!['\'', '"'] + next);
        crate::text::lemma_first_index(inner, '"', 1);
        assert(inner.take(1) =~= seq!['\'']);
        assert(inner.skip(2) =~= next);
        assert(shell_word_value(next) == Some(Seq::<char>::empty() + tail));
        assert(shell_word_value(second) == Some(seq!['\''] + (Seq::<char>::empty() + tail)));
        assert(open + (seq!['\''] + (Seq::<char>::empty() + tail)) =~= open + rest);
    } else {
        let tail = rest.skip(1);
        let longer = open.push(rest[0]);
        assert forall|i: int| 0 <= i < longer.len() implies longer[i] != '\'' by {
            if i < open.len() {
                assert(open.contains(open[i]));
            }
        }
        lemma_quoted_from(longer, tail);
        assert(word =~= seq!['\''] + longer + quotes_escaped_front(tail) + seq!['\'']);
        assert(longer + tail =~= open + rest);
    }
}

/// The same escaping, read from the front.
spec fn quotes_escaped_front(s: Seq<char>) -> Seq<char>
    decreases s.len(),
{
    if s.len() == 0 {
        Seq::empty()
    } else if s[0] == '\'' {
        seq!['\'', '"', '\'', '"', '\''] + quotes_escaped_front(s.skip(1))
    } else {
        seq![s[0]] + quotes_escaped_front(s.skip(1))
    }
}

proof fn lemma_escaped_front_push(s: Seq<char>, c: char)
    ensures
        quotes_escaped_front(s.push(c)) == quotes_escaped_front(s) + quotes_escaped_front(seq![c]),
    decreases s.len(),
{
    reveal_with_fuel(quotes_escaped_front, 2);
    if s.len() == 0 {
        assert(s.push(c) =~= seq![c]);
        assert(seq![c].skip(1) =~= Seq::<char>::empty());
        assert(quotes_escaped_front(s) + quotes_escaped_front(seq![c]) =~= quotes_escaped_front(
            seq![c],
        ));
    } else {
        lemma_escaped_front_push(s.skip(1), c);
        assert(s.push(c).skip(1) =~= s.skip(1).push(c));
        assert(quotes_escaped_front(s.push(c)) =~= quotes_escaped_front(s) + quotes_escaped_front(
            seq![c],
        ));
    }
}

proof fn lemma_escaped_same(s: Seq<char>)
    ensures
        quotes_escaped(s) == quotes_escaped_front(s),
    decreases s.len(),
{
    if s.len() > 0 {
        lemma_escaped_same(s.drop_last());
        lemma_escaped_front_push(s.drop_last(), s.last());
        assert(s.drop_last().push(s.last()) =~= s);
        reveal_with_fuel(quotes_escaped_front, 2);
        assert(seq![s.last()].skip(1) =~= Seq::<char>::empty());
        assert(quotes_escaped(s) =~= quotes_escaped_front(s));
    }
}

/// A quoted value is one shell word that stands for exactly that value:
/// nothing of it is left outside quotes.
pub proof fn quoted_word_stands_for_its_value(value: Seq<char>)
    ensures
        shell_word_value(shell_quoted(value)) == Some(value),
{
    lemma_escaped_same(value);
    lemma_quoted_from(Seq::empty(), value);
    assert(seq!['\''] + Seq::<char>::empty() + quotes_escaped_front(value) + seq!['\'']
        =~= shell_quoted(value));
    assert(Seq::<char>::empty() + value =~= value);
}

// The command that runs on the remote side.

/// The given path, or `fallback` where it is missing or empty.
pub open spec fn named_or(path: Option<Seq<char>>, fallback: Seq<char>) -> Seq<char> {
    match path {
        Some(path) if path.len() > 0 => path,
        _ => fallback,
    }
}

pub fn path_or(path: &Option<String>, fallback: &str) -> (out: String)
    ensures
        out@ == named_or(path.deep_view(), fallback@),
{
    match path {
        Some(path) => {
            if path.as_str().is_empty() {
                fallback.to_owned()
            } else {
                path.clone()
            }
        },
        None => fallback.to_owned(),
    }
}

/// The line that hands the credentials to the remote terminal.
pub open spec fn credential_line(credentials: Credentials, term: Seq<char>) -> Seq<char> {
    credentials.id@ + "/"@ + credentials.passkey@ + "_"@ + term
}

pub fn credential_input(credentials: &Credentials, term: &str) -> (out: String)
    ensures
        out@ == credential_line(*credentials, term@),
{
    let mut out = joined(credentials.id.as_str(), "/");
    out.append(credentials.passkey.as_str());
    out.append("_");
    out.append(term);
    out
}

/// A flag and its value in one shell word.
pub open spec fn quoted_flag(flag: Seq<char>, value: Seq<char>) -> Seq<char> {
    shell_quoted(flag + value)
}

/// The pipeline that feeds the credentials to the remote terminal.
pub open spec fn terminal_pipeline(input: Seq<char>, terminal: Seq<char>, verbose: u8) -> Seq<
    char,
> {
    "printf '%s\\n' "@ + shell_quoted(input) + " | "@ + shell_quoted(terminal) + " "@ + quoted_flag(
        "--verbose="@,
        decimal(verbose as nat),
    )
}

fn append_pipeline(out: &mut String, input: &str, terminal: &str, verbose: u8)
    ensures
        final(out)@ == old(out)@ + terminal_pipeline(input@, terminal@, verbose),
{
    out.append("printf '%s\\n' ");
    out.append(shell_quote(input).as_str());
    out.append(" | ");
    out.append(shell_quote(terminal).as_str());
    out.append(" ");
    append_quoted_flag(out, "--verbose=", decimal_string(verbose as u64).as_str());
    assert(out@ =~= old(out)@ + terminal_pipeline(input@, terminal@, verbose));
}

fn append_quoted_flag(out: &mut String, flag: &str, value: &str)
    ensures
        final(out)@ == old(out)@ + quoted_flag(flag@, value@),
{
    out.append(shell_quote(joined(flag, value).as_str()).as_str());
}

/// `flag` with its value behind a space, where there is a value.
pub open spec fn optional_flag(flag: Seq<char>, value: Option<Seq<char>>) -> Seq<char> {
    match value {
        Some(value) => " "@ + quoted_flag(flag, value),
        None => Seq::empty(),
    }
}

fn append_optional_flag(out: &mut String, flag: &str, value: &Option<String>)
    ensures
        final(out)@ == old(out)@ + optional_flag(flag@, value.deep_view()),
{
    match value {
        Some(value) => {
            out.append(" ");
            append_quoted_flag(out, flag, value.as_str());
        },
        None => {},
    }
    assert(out@ =~= old(out)@ + optional_flag(flag@, value.deep_view()));
}

/// The shell command that starts the terminal on a jumphost.
pub open spec fn jump_command(request: JumpBootstrapRequest, credentials: Credentials) -> Seq<
    char,
> {
    (if request.kill_other_sessions {
        "pkill -u \"$(id -un)\" 'etterminal'; sleep 0.5; "@
    } else {
        Seq::empty()
    }) + terminal_pipeline(
        credential_line(credentials, request.term@),
        named_or(request.terminal_path.deep_view(), "etterminal"@),
        request.verbose,
    ) + optional_flag("--serverfifo="@, request.jump_server_fifo.deep_view()) + " '--jump'"@ + " "@
        + quoted_flag("--dsthost="@, request.destination_host@) + " "@ + quoted_flag(
        "--dstport="@,
        decimal(request.destination_port as nat),
    )
}

pub fn jump_remote_command(request: &JumpBootstrapRequest, credentials: &Credentials) -> (out:
    String)
    ensures
        out@ == jump_command(*request, *credentials),
{
    let terminal = path_or(&request.terminal_path, "etterminal");
    let input = credential_input(credentials, request.term.as_str());
    let mut out = String::new();
    if request.kill_other_sessions {
        out.append("pkill -u \"$(id -un)\" 'etterminal'; sleep 0.5; ");
    }
    append_pipeline(&mut out, input.as_str(), terminal.as_str(), request.verbose);
    append_optional_flag(&mut out, "--serverfifo=", &request.jump_server_fifo);
    out.append(" '--jump'");
    out.append(" ");
    append_quoted_flag(&mut out, "--dsthost=", request.destination_host.as_str());
    out.append(" ");
    append_quoted_flag(
        &mut out,
        "--dstport=",
        decimal_string(request.destination_port as u64).as_str(),
    );
    assert(out@ =~= jump_command(*request, *credentials));
    out
}

/// Where the last component of a path begins, with either kind of separator.
pub open spec fn name_start(path: Seq<char>) -> int {
    let slash = crate::text::last_index(path, '/');
    let backslash = crate::text::last_index(path, '\\');
    1 + if slash > backslash {
        slash
    } else {
        backslash
    }
}

/// Whether the last component of a path names the terminal program.
pub open spec fn names_etterminal(path: Seq<char>) -> bool {
    let name = lowered(path.skip(name_start(path)));
    name == "etterminal"@ || name == "etterminal.exe"@
}

/// Whether the remote path already dispatches to the terminal role by name.
pub fn terminal_is_etterminal(path: &str) -> (r: bool)
    ensures
        r == names_etterminal(path@),
{
    let chars = chars_of(path);
    let total: usize = chars.len();
    let slash: usize = match crate::text::rfind_char(chars.as_slice(), '/') {
        Some(k) => k + 1,
        None => 0,
    };
    let backslash: usize = match crate::text::rfind_char(chars.as_slice(), '\\') {
        Some(k) => k + 1,
        None => 0,
    };
    let start: usize = if slash > backslash {
        slash
    } else {
        backslash
    };
    let name = lower_chars(slice_subrange(chars.as_slice(), start, total));
    spells(name.as_slice(), "etterminal") || spells(name.as_slice(), "etterminal.exe")
}

/// The `cmd.exe` command that starts the terminal.
pub open spec fn cmd_command(
    request: BootstrapRequest,
    terminal: Seq<char>,
    input: Seq<char>,
) -> Seq<char> {
    (match request.session_shell {
        Some(shell) => "set \"ET_SHELL="@ + shell@ + "\" & "@,
        None => Seq::empty(),
    }) + (if request.kill_other_sessions {
        "taskkill /F /FI \"USERNAME eq %USERNAME%\" /IM et.exe >nul 2>&1 & "@
    } else {
        Seq::empty()
    }) + "echo "@ + input + "| "@ + cmd_quoted(terminal) + (if names_etterminal(terminal) {
        Seq::empty()
    } else {
        " terminal"@
    }) + " "@ + cmd_quoted("--verbose="@ + decimal(request.verbose as nat)) + (
    match request.server_fifo {
        Some(fifo) => " "@ + cmd_quoted("--serverfifo="@ + fifo@),
        None => Seq::empty(),
    })
}

/// Build the bootstrap command for a Windows `cmd.exe` remote.
///
/// `cmd` has no `printf`, does not understand single quotes, and would treat
/// `& | < > ^ %` as syntax, so the credential line is validated instead of
/// escaped: everything in it is ASCII-alphanumeric plus `/`, `_`, `-`, and `.`.
pub fn cmd_remote_command(request: &BootstrapRequest, terminal: &str, input: &str) -> (out: String)
    ensures
        out@ == cmd_command(*request, terminal@, input@),
{
    let mut out = String::new();
    match &request.session_shell {
        Some(shell) => {
            out.append("set \"ET_SHELL=");
            out.append(shell.as_str());
            out.append("\" & ");
        },
        None => {},
    }
    if request.kill_other_sessions {
        out.append("taskkill /F /FI \"USERNAME eq %USERNAME%\" /IM et.exe >nul 2>&1 & ");
    }
    // `echo x| y` avoids the trailing space cmd would otherwise put in.
    out.append("echo ");
    out.append(input);
    out.append("| ");
    out.append(cmd_quote(terminal).as_str());
    // The Windows binary is the single `et.exe`, so the role has to be named
    // unless the program's own name selects it.
    if !terminal_is_etterminal(terminal) {
        out.append(" terminal");
    }
    out.append(" ");
    out.append(
        cmd_quote(
            joined("--verbose=", decimal_string(request.verbose as u64).as_str()).as_str(),
        ).as_str(),
    );
    match &request.server_fifo {
        Some(fifo) => {
            out.append(" ");
            out.append(cmd_quote(joined("--serverfifo=", fifo.as_str()).as_str()).as_str());
        },
        None => {},
    }
    assert(out@ =~= cmd_command(*request, terminal@, input@));
    out
}

/// The command that runs on the destination.
pub open spec fn destination_command(request: BootstrapRequest, credentials: Credentials) -> Seq<
    char,
> {
    let input = credential_line(credentials, request.term@);
    match request.remote_shell {
        RemoteShell::Cmd => cmd_command(
            request,
            named_or(request.terminal_path.deep_view(), "et.exe"@),
            input,
        ),
        RemoteShell::Posix => (if request.kill_other_sessions {
            "pkill -u "@ + (match request.user {
                Some(user) => shell_quoted(user@),
                None => "\"$(id -un)\""@,
            }) + " 'etterminal'; sleep 0.5; "@
        } else {
            Seq::empty()
        }) + terminal_pipeline(
            input,
            named_or(request.terminal_path.deep_view(), "etterminal"@),
            request.verbose,
        ) + optional_flag("--serverfifo="@, request.server_fifo.deep_view()),
    }
}

pub fn remote_command(request: &BootstrapRequest, credentials: &Credentials) -> (out: String)
    ensures
        out@ == destination_command(*request, *credentials),
{
    let input = credential_input(credentials, request.term.as_str());
    match request.remote_shell {
        RemoteShell::Cmd => {
            let terminal = path_or(&request.terminal_path, "et.exe");
            cmd_remote_command(request, terminal.as_str(), input.as_str())
        },
        RemoteShell::Posix => {
            let terminal = path_or(&request.terminal_path, "etterminal");
            let mut out = String::new();
            if request.kill_other_sessions {
                out.append("pkill -u ");
                match &request.user {
                    Some(user) => {
                        out.append(shell_quote(user.as_str()).as_str());
                    },
                    None => {
                        out.append("\"$(id -un)\"");
                    },
                }
                out.append(" 'etterminal'; sleep 0.5; ");
            }
            append_pipeline(&mut out, input.as_str(), terminal.as_str(), request.verbose);
            append_optional_flag(&mut out, "--serverfifo=", &request.server_fifo);
            assert(out@ =~= destination_command(*request, *credentials));
            out
        },
    }
}

// The `ssh` processes.

/// The key of an `ssh` option: what stands before its value, an equals sign
/// or ASCII whitespace between them.
pub open spec fn option_key(option: Seq<char>) -> Seq<char> {
    let text = trim_start(option);
    text.take(key_length(text))
}

pub open spec fn ends_key(c: char) -> bool {
    c == '=' || c == ' ' || c == '\t' || c == '\n' || c == '\u{c}' || c == '\r'
}

/// How many characters stand before the first one that ends a key.
pub open spec fn key_length(text: Seq<char>) -> int
    decreases text.len(),
{
    if text.len() == 0 || ends_key(text[0]) {
        0
    } else {
        1 + key_length(text.skip(1))
    }
}

proof fn lemma_key_length(text: Seq<char>, k: int)
    requires
        0 <= k <= text.len(),
        forall|i: int| 0 <= i < k ==> !ends_key(#[trigger] text[i]),
        k < text.len() ==> ends_key(text[k]),
    ensures
        key_length(text) == k,
    decreases text.len(),
{
    if text.len() != 0 && !ends_key(text[0]) {
        assert forall|i: int| 0 <= i < k - 1 implies !ends_key(#[trigger] text.skip(1)[i]) by {
            assert(text.skip(1)[i] == text[i + 1]);
        }
        lemma_key_length(text.skip(1), k - 1);
    }
}

/// Whether the key of an `ssh` option is `name`.
pub fn option_has_key(option: &str, name: &str) -> (r: bool)
    ensures
        r == same_ignoring_case(option_key(option@), name@),
{
    let chars = chars_of(option);
    let text = trim_start_chars(chars.as_slice());
    let mut k: usize = 0;
    while k < text.len() && !(text[k] == '=' || text[k] == ' ' || text[k] == '\t' || text[k] == '\n'
        || text[k] == '\u{c}' || text[k] == '\r')
        invariant
            k <= text@.len(),
            forall|i: int| 0 <= i < k ==> !ends_key(#[trigger] text@[i]),
        decreases text@.len() - k,
    {
        k += 1;
    }
    proof {
        lemma_key_length(text@, k as int);
        assert(text@.subrange(0, k as int) =~= text@.take(k as int));
    }
    spells_ignoring_case(slice_subrange(text, 0, k), name)
}

/// Whether an `ssh` option sets `ClearAllForwardings`.
pub open spec fn clears_forwardings(option: Seq<char>) -> bool {
    same_ignoring_case(option_key(option), "ClearAllForwardings"@)
}

/// Whether an `ssh` option steers connection sharing.
pub open spec fn controls_sharing(option: Seq<char>) -> bool {
    ||| same_ignoring_case(option_key(option), "ControlMaster"@)
    ||| same_ignoring_case(option_key(option), "ControlPath"@)
    ||| same_ignoring_case(option_key(option), "ControlPersist"@)
}

pub fn is_control_option(option: &str) -> (r: bool)
    ensures
        r == controls_sharing(option@),
{
    option_has_key(option, "ControlMaster") || option_has_key(option, "ControlPath")
        || option_has_key(option, "ControlPersist")
}

/// The user's options, in order, each as an `-o` flag, without those that set
/// `ClearAllForwardings`.
pub open spec fn user_options(options: Seq<Seq<char>>) -> Seq<Seq<char>>
    decreases options.len(),
{
    if options.len() == 0 {
        Seq::empty()
    } else if clears_forwardings(options.last()) {
        user_options(options.drop_last())
    } else {
        user_options(options.drop_last()).push("-o"@ + options.last())
    }
}

/// The options of every `ssh` that runs a command: configured forwardings are
/// suppressed, and nothing behind that brings them back.
pub open spec fn operational_options(options: Seq<Seq<char>>) -> Seq<Seq<char>> {
    seq!["-oClearAllForwardings=yes"@] + user_options(options)
}

pub fn append_operational_options(args: &mut Vec<String>, options: &Vec<String>)
    ensures
        final(args).deep_view() == old(args).deep_view() + operational_options(
            options.deep_view(),
        ),
{
    let ghost start = args.deep_view();
    let ghost list = options.deep_view();
    push_text(args, "-oClearAllForwardings=yes");
    let mut i: usize = 0;
    assert(args.deep_view() =~= start + operational_options(list.take(0)));
    while i < options.len()
        invariant
            i <= options@.len(),
            list == options.deep_view(),
            args.deep_view() == start + operational_options(list.take(i as int)),
        decreases options@.len() - i,
    {
        let option = options[i].as_str();
        assert(option@ == list[i as int]);
        assert(list.take(i + 1).drop_last() =~= list.take(i as int));
        if !option_has_key(option, "ClearAllForwardings") {
            push_text(args, joined("-o", option).as_str());
        }
        i += 1;
        assert(args.deep_view() =~= start + operational_options(list.take(i as int)));
    }
    assert(list.take(i as int) =~= list);
}

/// Whether `flag` hands one of the user's options to `ssh`, and not one that
/// sets `ClearAllForwardings`.
pub open spec fn passes_option(options: Seq<Seq<char>>, flag: Seq<char>) -> bool {
    exists|i: int|
        0 <= i < options.len() && flag == "-o"@ + #[trigger] options[i] && !clears_forwardings(
            options[i],
        )
}

/// Every option behind the one that suppresses forwardings is one of the
/// user's, and none of them sets `ClearAllForwardings`.
pub proof fn forwardings_stay_suppressed(options: Seq<Seq<char>>)
    ensures
        operational_options(options).len() >= 1,
        operational_options(options)[0] == "-oClearAllForwardings=yes"@,
        forall|i: int|
            1 <= i < operational_options(options).len() ==> passes_option(
                options,
                #[trigger] operational_options(options)[i],
            ),
{
    assert forall|i: int| 1 <= i < operational_options(options).len() implies passes_option(
        options,
        #[trigger] operational_options(options)[i],
    ) by {
        lemma_user_options(options, i - 1);
    }
}

proof fn lemma_user_options(options: Seq<Seq<char>>, i: int)
    requires
        0 <= i < user_options(options).len(),
    ensures
        passes_option(options, user_options(options)[i]),
    decreases options.len(),
{
    if options.len() > 0 {
        let head = options.drop_last();
        let flag = user_options(options)[i];
        if i < user_options(head).len() {
            lemma_user_options(head, i);
            let k = choose|k: int|
                0 <= k < head.len() && flag == "-o"@ + #[trigger] head[k] && !clears_forwardings(
                    head[k],
                );
            assert(options[k] == head[k]);
        } else {
            assert(options[options.len() - 1] == options.last());
        }
    }
}

/// The flags that select an `ssh` configuration file.
pub open spec fn config_flags(ssh_config: Option<Seq<char>>) -> Seq<Seq<char>> {
    match ssh_config {
        Some(path) => seq!["-F"@, path],
        None => Seq::empty(),
    }
}

pub fn append_ssh_config_flag(args: &mut Vec<String>, ssh_config: Option<&str>)
    ensures
        final(args).deep_view() == old(args).deep_view() + config_flags(ssh_config.deep_view()),
{
    match ssh_config {
        Some(path) => {
            push_text(args, "-F");
            push_text(args, path);
        },
        None => {},
    }
    assert(args.deep_view() =~= old(args).deep_view() + config_flags(ssh_config.deep_view()));
}

/// The borrowed text of an optional string.
pub fn text_of(value: &Option<String>) -> (r: Option<&str>)
    ensures
        r.deep_view() == value.deep_view(),
{
    match value {
        Some(value) => Some(value.as_str()),
        None => None,
    }
}

/// The flags that route `ssh` through a jumphost.
pub open spec fn jump_flags(jumphost: Option<Seq<char>>) -> Seq<Seq<char>> {
    match jumphost {
        Some(jumphost) => seq!["-J"@, jumphost],
        None => Seq::empty(),
    }
}

/// `user@host`, or `host` alone.
pub open spec fn ssh_destination(user: Option<Seq<char>>, host: Seq<char>) -> Seq<char> {
    match user {
        Some(user) => user + "@"@ + host,
        None => host,
    }
}

pub fn destination_of(user: Option<&str>, host: &str) -> (out: String)
    ensures
        out@ == ssh_destination(user.deep_view(), host@),
{
    match user {
        Some(user) => {
            let mut out = joined(user, "@");
            out.append(host);
            out
        },
        None => host.to_owned(),
    }
}

/// The arguments that stand before the destination.
pub open spec fn leading_args(request: BootstrapRequest) -> Seq<Seq<char>> {
    config_flags(request.ssh_config.deep_view()) + jump_flags(request.jumphost.deep_view())
        + operational_options(request.ssh_options.deep_view())
}

fn leading_arguments(request: &BootstrapRequest) -> (args: Vec<String>)
    ensures
        args.deep_view() == leading_args(*request),
{
    let mut args: Vec<String> = Vec::new();
    assert(args.deep_view() =~= Seq::<Seq<char>>::empty());
    append_ssh_config_flag(&mut args, text_of(&request.ssh_config));
    match &request.jumphost {
        Some(jumphost) => {
            push_text(&mut args, "-J");
            push_text(&mut args, jumphost.as_str());
        },
        None => {},
    }
    assert(args.deep_view() =~= config_flags(request.ssh_config.deep_view()) + jump_flags(
        request.jumphost.deep_view(),
    ));
    append_operational_options(&mut args, &request.ssh_options);
    args
}

pub fn build_invocation(request: &BootstrapRequest, credentials: &Credentials) -> (invocation:
    SshInvocation)
    ensures
        invocation.program@ == "ssh"@,
        invocation.args.deep_view() == leading_args(*request) + seq![
            ssh_destination(request.user.deep_view(), request.host_alias@),
            destination_command(*request, *credentials),
        ],
        invocation.operation == "starting the remote etterminal",
        invocation.completion == InvocationCompletion::Credentials,
{
    let mut args = leading_arguments(request);
    push_text(
        &mut args,
        destination_of(text_of(&request.user), request.host_alias.as_str()).as_str(),
    );
    push_text(&mut args, remote_command(request, credentials).as_str());
    assert(args.deep_view() =~= leading_args(*request) + seq![
        ssh_destination(request.user.deep_view(), request.host_alias@),
        destination_command(*request, *credentials),
    ]);
    SshInvocation {
        program: "ssh".to_owned(),
        args,
        operation: "starting the remote etterminal",
        completion: InvocationCompletion::Credentials,
    }
}

/// The command that tells `cmd.exe` from a POSIX shell: only the former
/// replaces `%ComSpec%`.
pub open spec fn probe_command() -> Seq<char> {
    "echo "@ + WINDOWS_SHELL_PROBE_SENTINEL@ + "%ComSpec%"@
}

pub fn build_shell_probe(request: &BootstrapRequest) -> (invocation: SshInvocation)
    ensures
        invocation.program@ == "ssh"@,
        invocation.args.deep_view() == leading_args(*request) + seq![
            "-oLogLevel=ERROR"@,
            ssh_destination(request.user.deep_view(), request.host_alias@),
            probe_command(),
        ],
        invocation.operation == "detecting the remote login shell",
        invocation.completion == InvocationCompletion::ShellProbe,
{
    let mut args = leading_arguments(request);
    push_text(&mut args, "-oLogLevel=ERROR");
    push_text(
        &mut args,
        destination_of(text_of(&request.user), request.host_alias.as_str()).as_str(),
    );
    let mut command = joined("echo ", WINDOWS_SHELL_PROBE_SENTINEL);
    command.append("%ComSpec%");
    push_text(&mut args, command.as_str());
    assert(args.deep_view() =~= leading_args(*request) + seq![
        "-oLogLevel=ERROR"@,
        ssh_destination(request.user.deep_view(), request.host_alias@),
        probe_command(),
    ]);
    SshInvocation {
        program: "ssh".to_owned(),
        args,
        operation: "detecting the remote login shell",
        completion: InvocationCompletion::ShellProbe,
    }
}

pub open spec fn is_bracket(c: char) -> bool {
    c == '[' || c == ']'
}

/// `s` without the brackets before its first other character.
pub open spec fn without_leading_brackets(s: Seq<char>) -> Seq<char>
    decreases s.len(),
{
    if s.len() == 0 || !is_bracket(s[0]) {
        s
    } else {
        without_leading_brackets(s.skip(1))
    }
}

/// `s` without the brackets behind its last other character.
pub open spec fn without_trailing_brackets(s: Seq<char>) -> Seq<char>
    decreases s.len(),
{
    if s.len() == 0 || !is_bracket(s.last()) {
        s
    } else {
        without_trailing_brackets(s.drop_last())
    }
}

/// A host without the brackets around an IPv6 address.
pub open spec fn bare_host(host: Seq<char>) -> Seq<char> {
    without_trailing_brackets(without_leading_brackets(host))
}

pub fn strip_brackets(host: &str) -> (out: String)
    ensures
        out@ == bare_host(host@),
{
    let chars = chars_of(host);
    let mut start: usize = 0;
    assert(chars@.skip(0) =~= host@);
    while start < chars.len() && (chars[start] == '[' || chars[start] == ']')
        invariant
            start <= chars@.len(),
            without_leading_brackets(chars@.skip(start as int)) == without_leading_brackets(host@),
        decreases chars@.len() - start,
    {
        assert(chars@.skip(start as int).skip(1) =~= chars@.skip(start + 1));
        start += 1;
    }
    let mut end: usize = chars.len();
    let ghost rest = chars@.skip(start as int);
    assert(chars@.subrange(start as int, end as int) =~= rest);
    while end > start && (chars[end - 1] == '[' || chars[end - 1] == ']')
        invariant
            start <= end <= chars@.len(),
            without_trailing_brackets(chars@.subrange(start as int, end as int))
                == without_trailing_brackets(rest),
        decreases end,
    {
        assert(chars@.subrange(start as int, end as int).drop_last() =~= chars@.subrange(
            start as int,
            end - 1,
        ));
        end -= 1;
    }
    string_of(slice_subrange(chars.as_slice(), start, end))
}

/// The `ssh` port of a jumphost as a flag of its own: destinations take none.
pub open spec fn port_flags(port_suffix: Seq<char>) -> Seq<Seq<char>> {
    if port_suffix.len() > 0 && port_suffix[0] == ':' {
        seq!["-p"@, port_suffix.skip(1)]
    } else {
        Seq::empty()
    }
}

/// The user of a parsed host, where one was given.
pub open spec fn given_user(user: Seq<char>) -> Option<Seq<char>> {
    if user.len() == 0 {
        None
    } else {
        Some(user)
    }
}

/// The text behind the colon of a port suffix.
pub fn port_text(parsed: &ParsedHost) -> (r: Option<String>)
    ensures
        match r {
            Some(port) => port_flags(parsed.port_suffix@) == seq!["-p"@, port@],
            None => port_flags(parsed.port_suffix@).len() == 0,
        },
        r is Some <==> parsed.port_suffix@.len() > 0 && parsed.port_suffix@[0] == ':',
        r matches Some(port) ==> port@ == parsed.port_suffix@.skip(1),
{
    let suffix = chars_of(parsed.port_suffix.as_str());
    if suffix.len() > 0 && suffix[0] == ':' {
        Some(string_of(slice_subrange(suffix.as_slice(), 1, suffix.len())))
    } else {
        None
    }
}

/// The second hop: `parsed` holds the parts of the requested jumphost.
pub fn build_jump_invocation(
    request: &JumpBootstrapRequest,
    parsed: &ParsedHost,
    credentials: &Credentials,
) -> (invocation: SshInvocation)
    ensures
        invocation.program@ == "ssh"@,
        invocation.args.deep_view() == config_flags(request.ssh_config.deep_view()) + port_flags(
            parsed.port_suffix@,
        ) + operational_options(request.ssh_options.deep_view()) + seq![
            ssh_destination(given_user(parsed.user@), bare_host(parsed.host@)),
            jump_command(*request, *credentials),
        ],
        invocation.operation == "starting the jumphost etterminal",
        invocation.completion == InvocationCompletion::Credentials,
{
    let mut args: Vec<String> = Vec::new();
    assert(args.deep_view() =~= Seq::<Seq<char>>::empty());
    append_ssh_config_flag(&mut args, text_of(&request.ssh_config));
    let ghost flags = args.deep_view();
    match port_text(parsed) {
        Some(port) => {
            push_text(&mut args, "-p");
            push_text(&mut args, port.as_str());
        },
        None => {},
    }
    assert(args.deep_view() =~= flags + port_flags(parsed.port_suffix@));
    append_operational_options(&mut args, &request.ssh_options);
    let ghost leading = args.deep_view();
    let host = strip_brackets(parsed.host.as_str());
    let user: Option<&str> = if parsed.user.as_str().is_empty() {
        None
    } else {
        Some(parsed.user.as_str())
    };
    push_text(&mut args, destination_of(user, host.as_str()).as_str());
    push_text(&mut args, jump_remote_command(request, credentials).as_str());
    assert(args.deep_view() =~= leading + seq![
        ssh_destination(given_user(parsed.user@), bare_host(parsed.host@)),
        jump_command(*request, *credentials),
    ]);
    assert(config_flags(request.ssh_config.deep_view()) =~= flags);
    SshInvocation {
        program: "ssh".to_owned(),
        args,
        operation: "starting the jumphost etterminal",
        completion: InvocationCompletion::Credentials,
    }
}

// What comes back.

/// What follows the sentinel on the first complete line that begins with it,
/// whitespace around the line aside.
pub open spec fn probe_answer(text: Seq<char>) -> Option<Seq<char>>
    decreases text.len(),
    via probe_answer_decreases
{
    let k = first_index(text, '\n');
    if k >= text.len() {
        None
    } else {
        let line = trim(text.take(k));
        if WINDOWS_SHELL_PROBE_SENTINEL@.is_prefix_of(line) {
            Some(line.skip(WINDOWS_SHELL_PROBE_SENTINEL@.len() as int))
        } else {
            probe_answer(text.skip(k + 1))
        }
    }
}

#[via_fn]
proof fn probe_answer_decreases(text: Seq<char>) {
    crate::text::lemma_first_index_bounds(text, '\n');
}

/// The shell that an answer to the probe reveals: a POSIX shell echoes the
/// variable untouched, `cmd.exe` names itself.
pub open spec fn shell_of_answer(answer: Option<Seq<char>>) -> Option<RemoteShell> {
    match answer {
        Some(value) => if same_ignoring_case(value, "%ComSpec%"@) {
            Some(RemoteShell::Posix)
        } else if "cmd.exe"@.is_suffix_of(lowered(value)) {
            Some(RemoteShell::Cmd)
        } else {
            None
        },
        None => None,
    }
}

fn answer_of_probe(text: &[char]) -> (r: Option<Vec<char>>)
    ensures
        match r {
            Some(value) => probe_answer(text@) == Some(value@),
            None => probe_answer(text@) is None,
        },
{
    let sentinel = chars_of(WINDOWS_SHELL_PROBE_SENTINEL);
    let len: usize = text.len();
    let mut start: usize = 0;
    assert(text@.skip(0) =~= text@);
    while start < len
        invariant
            start <= len,
            len == text@.len(),
            sentinel@ == WINDOWS_SHELL_PROBE_SENTINEL@,
            probe_answer(text@) == probe_answer(text@.skip(start as int)),
        decreases len - start,
    {
        let rest = slice_subrange(text, start, len);
        assert(rest@ =~= text@.skip(start as int));
        let k = find_char(rest, '\n');
        if k >= rest.len() {
            return None;
        }
        let line = trim_chars(slice_subrange(rest, 0, k));
        assert(rest@.subrange(0, k as int) =~= rest@.take(k as int));
        if starts_with(line, sentinel.as_slice()) {
            let value = crate::text::copy_of(slice_subrange(line, sentinel.len(), line.len()));
            assert(value@ =~= line@.skip(sentinel@.len() as int));
            return Some(value);
        }
        start += k + 1;
        assert(rest@.skip(k + 1) =~= text@.skip(start as int));
    }
    assert(text@.skip(start as int).len() == 0);
    None
}

/// Reads the remote login shell out of the decoded output of the probe.
pub fn shell_from_probe(text: &str) -> (r: Result<RemoteShell, ClientError>)
    ensures
        match r {
            Ok(shell) => shell_of_answer(probe_answer(text@)) == Some(shell),
            Err(error) => shell_of_answer(probe_answer(text@)) is None && error
                == ClientError::Unsupported("remote shell probe returned unexpected output"),
        },
{
    match answer_of_probe(chars_of(text).as_slice()) {
        Some(value) => {
            if spells_ignoring_case(value.as_slice(), "%ComSpec%") {
                return Ok(RemoteShell::Posix);
            }
            let small = lower_chars(value.as_slice());
            if ends_with(small.as_slice(), chars_of("cmd.exe").as_slice()) {
                return Ok(RemoteShell::Cmd);
            }
        },
        None => {},
    }
    Err(ClientError::Unsupported("remote shell probe returned unexpected output"))
}

/// Reads the remote login shell out of the output of the probe.
pub fn parse_shell_probe(stdout: &[u8]) -> (r: Result<RemoteShell, ClientError>)
    ensures
        match r {
            Ok(shell) => shell_of_answer(probe_answer(shown_text(stdout@))) == Some(shell),
            Err(error) => shell_of_answer(probe_answer(shown_text(stdout@))) is None && error
                == ClientError::Unsupported("remote shell probe returned unexpected output"),
        },
{
    let text = utf8_lossy(stdout);
    shell_from_probe(text.as_str())
}

/// Whether a text begins with a hyphen, so that `ssh` would take it for an
/// option.
pub open spec fn looks_like_option(s: Seq<char>) -> bool {
    s.len() > 0 && s[0] == '-'
}

pub fn is_option_like(s: &str) -> (r: bool)
    ensures
        r == looks_like_option(s@),
{
    let chars = chars_of(s);
    chars.len() > 0 && chars[0] == '-'
}

/// What makes a destination unusable, the host before the user.
pub open spec fn destination_fault(host: Seq<char>, user: Option<Seq<char>>) -> Option<ClientError> {
    if looks_like_option(host) {
        Some(ClientError::InvalidSshComponent("host"))
    } else if user matches Some(user) && looks_like_option(user) {
        Some(ClientError::InvalidSshComponent("user"))
    } else {
        None
    }
}

pub fn validate_ssh_destination(host: &str, user: Option<&str>) -> (r: Result<(), ClientError>)
    ensures
        match r {
            Ok(()) => destination_fault(host@, user.deep_view()) is None,
            Err(error) => destination_fault(host@, user.deep_view()) == Some(error),
        },
{
    if is_option_like(host) {
        return Err(ClientError::InvalidSshComponent("host"));
    }
    match user {
        Some(user) => {
            if is_option_like(user) {
                return Err(ClientError::InvalidSshComponent("user"));
            }
        },
        None => {},
    }
    Ok(())
}

/// A destination that passes validation is no `ssh` option, whatever its
/// user and host hold: an argument that is one begins with a hyphen.
pub proof fn valid_destination_is_no_option(host: Seq<char>, user: Option<Seq<char>>)
    requires
        destination_fault(host, user) is None,
    ensures
        !looks_like_option(ssh_destination(user, host)),
{
    match user {
        Some(user) => {
            reveal_strlit("@");
            if user.len() > 0 {
                assert(ssh_destination(Some(user), host)[0] == user[0]);
            } else {
                assert(ssh_destination(Some(user), host)[0] == '@');
            }
        },
        None => {},
    }
}

pub open spec fn all_alphanumeric(s: Seq<char>) -> bool {
    forall|i: int| 0 <= i < s.len() ==> is_alphanumeric(#[trigger] s[i])
}

pub fn is_all_alphanumeric(s: &str) -> (r: bool)
    ensures
        r == all_alphanumeric(s@),
{
    let chars = chars_of(s);
    let mut i: usize = 0;
    while i < chars.len()
        invariant
            i <= chars@.len(),
            chars@ == s@,
            forall|j: int| 0 <= j < i ==> is_alphanumeric(#[trigger] chars@[j]),
        decreases chars@.len() - i,
    {
        if !char_is_alphanumeric(chars[i]) {
            assert(!is_alphanumeric(s@[i as int]));
            return false;
        }
        i += 1;
    }
    true
}

pub open spec fn valid_id(id: Seq<char>) -> bool {
    id.len() == ID_LEN && all_alphanumeric(id)
}

pub open spec fn valid_passkey(passkey: Seq<char>) -> bool {
    passkey.len() == PASSKEY_LEN && all_alphanumeric(passkey)
}

pub fn is_valid_id(id: &str) -> (r: bool)
    ensures
        r == valid_id(id@),
{
    chars_of(id).len() == ID_LEN && is_all_alphanumeric(id)
}

pub fn is_valid_passkey(passkey: &str) -> (r: bool)
    ensures
        r == valid_passkey(passkey@),
{
    chars_of(passkey).len() == PASSKEY_LEN && is_all_alphanumeric(passkey)
}

impl Credentials {
    /// A session id of 16 and a passkey of 32 ASCII letters and digits.
    pub open spec fn valid(self) -> bool {
        valid_id(self.id@) && valid_passkey(self.passkey@)
    }
}

pub fn validate_credentials(credentials: Credentials) -> (r: Result<Credentials, ClientError>)
    ensures
        match r {
            Ok(same) => same == credentials && credentials.valid(),
            Err(error) => if !valid_id(credentials.id@) {
                error == ClientError::InvalidSessionId
            } else {
                !valid_passkey(credentials.passkey@) && error == ClientError::InvalidPasskey
            },
        },
{
    if !is_valid_id(credentials.id.as_str()) {
        return Err(ClientError::InvalidSessionId);
    }
    if !is_valid_passkey(credentials.passkey.as_str()) {
        return Err(ClientError::InvalidPasskey);
    }
    Ok(credentials)
}

/// A generated session id with its first three bytes replaced, where they
/// end at a character.
pub open spec fn provisional_id(id: Seq<char>) -> Option<Seq<char>> {
    let bytes = encode_utf8(id);
    if is_char_boundary(bytes, 3) {
        Some("XXX"@ + decode_utf8(bytes.skip(3)))
    } else {
        None
    }
}

/// The credentials that the remote terminal is asked to register under, made
/// of a freshly generated id and passkey.
pub fn provisional_credentials(id: &str, passkey: String) -> (r: Result<Credentials, ClientError>)
    ensures
        match r {
            Ok(credentials) => provisional_id(id@) == Some(credentials.id@) && credentials.passkey
                == passkey && credentials.valid(),
            Err(error) => match provisional_id(id@) {
                Some(provisional) if valid_id(provisional) => !valid_passkey(passkey@) && error
                    == ClientError::InvalidPasskey,
                _ => error == ClientError::InvalidSessionId,
            },
        },
{
    if !id.is_char_boundary(3) {
        return Err(ClientError::InvalidSessionId);
    }
    let (_head, tail) = id.split_at(3);
    proof {
        vstd::utf8::encode_utf8_decode_utf8(tail@);
        assert(encode_utf8(tail@) =~= encode_utf8(id@).skip(3));
    }
    validate_credentials(Credentials { id: joined("XXX", tail), passkey })
}

pub open spec fn byte_is_alphanumeric(b: u8) -> bool {
    48 <= b <= 57 || 65 <= b <= 90 || 97 <= b <= 122
}

pub open spec fn bytes_alphanumeric(s: Seq<u8>) -> bool {
    forall|i: int| 0 <= i < s.len() ==> byte_is_alphanumeric(#[trigger] s[i])
}

pub fn is_bytes_alphanumeric(s: &[u8]) -> (r: bool)
    ensures
        r == bytes_alphanumeric(s@),
{
    let mut i: usize = 0;
    while i < s.len()
        invariant
            i <= s@.len(),
            forall|j: int| 0 <= j < i ==> byte_is_alphanumeric(#[trigger] s@[j]),
        decreases s@.len() - i,
    {
        let b = s[i];
        if !((48 <= b && b <= 57) || (65 <= b && b <= 90) || (97 <= b && b <= 122)) {
            assert(!byte_is_alphanumeric(s@[i as int]));
            return false;
        }
        i += 1;
    }
    true
}

/// The text that ASCII bytes encode.
pub open spec fn ascii_text(bytes: Seq<u8>) -> Seq<char> {
    bytes.map_values(|b: u8| b as char)
}

pub fn string_of_ascii(bytes: &[u8]) -> (out: String)
    ensures
        out@ == ascii_text(bytes@),
{
    let mut out = String::new();
    let mut i: usize = 0;
    while i < bytes.len()
        invariant
            i <= bytes@.len(),
            out@ == ascii_text(bytes@.take(i as int)),
        decreases bytes@.len() - i,
    {
        out.push(bytes[i] as char);
        i += 1;
        assert(out@ =~= ascii_text(bytes@.take(i as int)));
    }
    assert(bytes@.take(i as int) =~= bytes@);
    out
}

/// Where the first marker stands.
pub open spec fn marker_position(stdout: Seq<u8>) -> int {
    choose|i: int| first_occurrence(stdout, marker(), i)
}

/// The bytes of the id and the passkey behind the first marker, or what is
/// wrong with them.
pub open spec fn marked_credentials(stdout: Seq<u8>) -> Result<(Seq<u8>, Seq<u8>), ClientError> {
    if !occurs(stdout, marker()) {
        Err(ClientError::MissingIdPasskeyMarker)
    } else {
        let tail = stdout.skip(marker_position(stdout) + marker().len());
        if tail.len() < CREDENTIAL_LEN || tail[16] != 47 {
            Err(ClientError::MalformedIdPasskeyMarker)
        } else if !bytes_alphanumeric(tail.take(16)) {
            Err(ClientError::InvalidSessionId)
        } else if !bytes_alphanumeric(tail.subrange(17, 49)) {
            Err(ClientError::InvalidPasskey)
        } else {
            Ok((tail.take(16), tail.subrange(17, 49)))
        }
    }
}

/// Reads the credentials that the remote terminal printed behind its marker,
/// wherever in the output that stands.
pub fn parse_id_passkey(stdout: &[u8]) -> (r: Result<Credentials, ClientError>)
    ensures
        match (r, marked_credentials(stdout@)) {
            (Ok(credentials), Ok((id, passkey))) => credentials.id@ == ascii_text(id)
                && credentials.passkey@ == ascii_text(passkey),
            (Err(error), Err(fault)) => error == fault,
            _ => false,
        },
        r matches Ok(credentials) ==> credentials.valid(),
{
    let pattern = ascii_bytes("IDPASSKEY:");
    let total: usize = stdout.len();
    let start: usize = match find_bytes(stdout, pattern.as_slice()) {
        Some(i) => {
            proof {
                lemma_marker_unique(stdout@, i as int);
            }
            i + pattern.len()
        },
        None => {
            return Err(ClientError::MissingIdPasskeyMarker);
        },
    };
    let tail = slice_subrange(stdout, start, total);
    assert(tail@ =~= stdout@.skip(start as int));
    if tail.len() < CREDENTIAL_LEN || tail[16] != 47 {
        return Err(ClientError::MalformedIdPasskeyMarker);
    }
    let id = slice_subrange(tail, 0, 16);
    let passkey = slice_subrange(tail, 17, CREDENTIAL_LEN);
    assert(id@ =~= tail@.take(16));
    if !is_bytes_alphanumeric(id) {
        return Err(ClientError::InvalidSessionId);
    }
    if !is_bytes_alphanumeric(passkey) {
        return Err(ClientError::InvalidPasskey);
    }
    let credentials = Credentials { id: string_of_ascii(id), passkey: string_of_ascii(passkey) };
    proof {
        lemma_ascii_text_alphanumeric(id@);
        lemma_ascii_text_alphanumeric(passkey@);
    }
    Ok(credentials)
}

proof fn lemma_ascii_text_alphanumeric(bytes: Seq<u8>)
    requires
        bytes_alphanumeric(bytes),
    ensures
        ascii_text(bytes).len() == bytes.len(),
        all_alphanumeric(ascii_text(bytes)),
{
    assert forall|i: int| 0 <= i < bytes.len() implies is_alphanumeric(
        #[trigger] ascii_text(bytes)[i],
    ) by {
        assert(byte_is_alphanumeric(bytes[i]));
    }
}

pub proof fn lemma_marker_unique(stdout: Seq<u8>, i: int)
    requires
        first_occurrence(stdout, marker(), i),
    ensures
        marker_position(stdout) == i,
        occurs(stdout, marker()),
{
    let k = marker_position(stdout);
    assert(first_occurrence(stdout, marker(), k));
    if k < i {
        assert(!crate::bytes::occurs_at(stdout, marker(), k));
    } else if i < k {
        assert(!crate::bytes::occurs_at(stdout, marker(), i));
    }
}

/// Text that `cmd.exe` passes through an `echo` unchanged.
pub open spec fn survives_cmd(value: Seq<char>) -> bool {
    value.len() > 0 && forall|i: int|
        0 <= i < value.len() ==> survives_cmd_char(#[trigger] value[i])
}

pub open spec fn survives_cmd_char(c: char) -> bool {
    is_alphanumeric(c) || c == '/' || c == '_' || c == '-' || c == '.' || c == '+'
}

/// Reject credential material that would not survive a `cmd.exe` `echo`.
pub fn cmd_safe(value: &str) -> (r: bool)
    ensures
        r == survives_cmd(value@),
{
    let chars = chars_of(value);
    let mut i: usize = 0;
    while i < chars.len()
        invariant
            i <= chars@.len(),
            chars@ == value@,
            forall|j: int| 0 <= j < i ==> survives_cmd_char(#[trigger] chars@[j]),
        decreases chars@.len() - i,
    {
        let c = chars[i];
        if !(char_is_alphanumeric(c) || c == '/' || c == '_' || c == '-' || c == '.' || c == '+') {
            assert(!survives_cmd_char(value@[i as int]));
            return false;
        }
        i += 1;
    }
    chars.len() > 0
}

// What a shell makes of the commands.

/// The first word of a command line, and what follows it: single-quoted
/// parts, double-quoted parts in which no character has a meaning of its own,
/// and plain characters, up to a space.
#[verifier::opaque]
pub open spec fn read_word(s: Seq<char>) -> Option<(Seq<char>, Seq<char>)>
    decreases s.len(),
{
    if s.len() == 0 || s[0] == ' ' {
        Some((Seq::empty(), s))
    } else if s[0] == '\'' || s[0] == '"' {
        let body = s.skip(1);
        let k = first_index(body, s[0]);
        if k < 0 || k >= body.len() {
            None
        } else if s[0] == '"' && exists|i: int|
            0 <= i < k && (body[i] == '$' || body[i] == '`' || body[i] == '\\') {
            None
        } else {
            match read_word(body.skip(k + 1)) {
                Some((more, rest)) => Some((body.take(k) + more, rest)),
                None => None,
            }
        }
    } else {
        match read_word(s.skip(1)) {
            Some((more, rest)) => Some((seq![s[0]] + more, rest)),
            None => None,
        }
    }
}

/// Whether a shell reads a command line as these words.
#[verifier::opaque]
pub open spec fn reads_as(s: Seq<char>, list: Seq<Seq<char>>) -> bool
    decreases list.len(),
{
    if list.len() == 0 {
        s.len() == 0
    } else {
        match read_word(s) {
            Some((word, rest)) => {
                &&& word == list[0]
                &&& if list.len() == 1 {
                    rest.len() == 0
                } else {
                    rest.len() > 0 && rest[0] == ' ' && reads_as(rest.skip(1), list.skip(1))
                }
            },
            None => false,
        }
    }
}

/// A character without a meaning of its own.
pub open spec fn is_plain(c: char) -> bool {
    c != ' ' && c != '\'' && c != '"'
}

proof fn lemma_read_plain(word: Seq<char>, suffix: Seq<char>)
    requires
        forall|i: int| 0 <= i < word.len() ==> is_plain(#[trigger] word[i]),
        suffix.len() == 0 || suffix[0] == ' ',
    ensures
        read_word(word + suffix) == Some((word, suffix)),
    decreases word.len(),
{
    reveal(read_word);
    if word.len() == 0 {
        assert(word + suffix =~= suffix);
        assert(word =~= Seq::<char>::empty());
    } else {
        let tail = word.skip(1);
        assert forall|i: int| 0 <= i < tail.len() implies is_plain(#[trigger] tail[i]) by {
            assert(tail[i] == word[i + 1]);
        }
        lemma_read_plain(tail, suffix);
        assert((word + suffix).skip(1) =~= tail + suffix);
        assert(is_plain(word[0]));
        assert((word + suffix)[0] == word[0]);
        assert(seq![word[0]] + tail =~= word);
    }
}

proof fn lemma_read_quoted_from(open: Seq<char>, rest: Seq<char>, suffix: Seq<char>)
    requires
        !open.contains('\''),
        suffix.len() == 0 || suffix[0] == ' ',
    ensures
        read_word(seq!['\''] + open + quotes_escaped_front(rest) + seq!['\''] + suffix) == Some(
            (open + rest, suffix),
        ),
    decreases rest.len(),
{
    reveal(read_word);
    let word = seq!['\''] + open + quotes_escaped_front(rest) + seq!['\''] + suffix;
    let body = word.skip(1);
    if rest.len() == 0 {
        assert(body =~= open + seq!['\''] + suffix);
        crate::text::lemma_first_index(body, '\'', open.len() as int);
        assert(body.take(open.len() as int) =~= open);
        assert(body.skip(open.len() as int + 1) =~= suffix);
        assert(read_word(suffix) == Some((Seq::<char>::empty(), suffix)));
        assert(word[0] == '\'');
        assert(open + Seq::<char>::empty() =~= open + rest);
    } else if rest[0] == '\'' {
        let tail = rest.skip(1);
        let next = seq!['\''] + Seq::<char>::empty() + quotes_escaped_front(tail) + seq!['\'']
            + suffix;
        lemma_read_quoted_from(Seq::empty(), tail, suffix);
        let escape = seq!['\'', '"', '\'', '"', '\''];
        assert(body =~= open + escape + quotes_escaped_front(tail) + seq!['\''] + suffix);
        crate::text::lemma_first_index(body, '\'', open.len() as int);
        assert(body.take(open.len() as int) =~= open);
        let second = body.skip(open.len() as int + 1);
        assert(second =~= seq!['"', '\'', '"'] + next);
        let inner = second.skip(1);
        assert(inner =~= seq!['\'', '"'] + next);
        crate::text::lemma_first_index(inner, '"', 1);
        assert(inner.take(1) =~= seq!['\'']);
        assert(inner.skip(2) =~= next);
        assert(read_word(next) == Some((Seq::<char>::empty() + tail, suffix)));
        assert(read_word(second) == Some((seq!['\''] + (Seq::<char>::empty() + tail), suffix)));
        assert(open + (seq!['\''] + (Seq::<char>::empty() + tail)) =~= open + rest);
    } else {
        let tail = rest.skip(1);
        let longer = open.push(rest[0]);
        assert forall|i: int| 0 <= i < longer.len() implies longer[i] != '\'' by {
            if i < open.len() {
                assert(open.contains(open[i]));
            }
        }
        lemma_read_quoted_from(longer, tail, suffix);
        assert(word =~= seq!['\''] + longer + quotes_escaped_front(tail) + seq!['\''] + suffix);
        assert(longer + tail =~= open + rest);
    }
}

/// A quoted value is read as that value, wherever it stands.
proof fn lemma_read_quoted(value: Seq<char>, suffix: Seq<char>)
    requires
        suffix.len() == 0 || suffix[0] == ' ',
    ensures
        read_word(shell_quoted(value) + suffix) == Some((value, suffix)),
{
    lemma_escaped_same(value);
    lemma_read_quoted_from(Seq::empty(), value, suffix);
    assert(seq!['\''] + Seq::<char>::empty() + quotes_escaped_front(value) + seq!['\''] + suffix
        =~= shell_quoted(value) + suffix);
    assert(Seq::<char>::empty() + value =~= value);
}

/// The words of a list in front of those of another one.
proof fn lemma_reads_first(word: Seq<char>, text: Seq<char>, s: Seq<char>, list: Seq<Seq<char>>)
    requires
        list.len() > 0,
        reads_as(s, list),
        read_word(text + (" "@ + s)) == Some((word, " "@ + s)),
    ensures
        reads_as(text + (" "@ + s), seq![word] + list),
{
    reveal(reads_as);
    reveal_strlit(" ");
    let all = seq![word] + list;
    assert(all.skip(1) =~= list);
    assert((" "@ + s).skip(1) =~= s);
}

proof fn lemma_reads_plain(word: Seq<char>, s: Seq<char>, list: Seq<Seq<char>>)
    requires
        forall|i: int| 0 <= i < word.len() ==> is_plain(#[trigger] word[i]),
        list.len() > 0,
        reads_as(s, list),
    ensures
        reads_as(word + (" "@ + s), seq![word] + list),
{
    reveal_strlit(" ");
    lemma_read_plain(word, " "@ + s);
    lemma_reads_first(word, word, s, list);
}

proof fn lemma_reads_quoted(value: Seq<char>, s: Seq<char>, list: Seq<Seq<char>>)
    requires
        list.len() > 0,
        reads_as(s, list),
    ensures
        reads_as(shell_quoted(value) + (" "@ + s), seq![value] + list),
{
    reveal_strlit(" ");
    lemma_read_quoted(value, " "@ + s);
    lemma_reads_first(value, shell_quoted(value), s, list);
}

proof fn lemma_reads_last(value: Seq<char>)
    ensures
        reads_as(shell_quoted(value), seq![value]),
{
    reveal_with_fuel(reads_as, 2);
    lemma_read_quoted(value, Seq::empty());
    assert(shell_quoted(value) + Seq::<char>::empty() =~= shell_quoted(value));
}

/// What a pipeline says, in front of the arguments of its second command.
proof fn lemma_reads_pipeline(
    input: Seq<char>,
    terminal: Seq<char>,
    s: Seq<char>,
    list: Seq<Seq<char>>,
)
    requires
        list.len() > 0,
        reads_as(s, list),
    ensures
        reads_as(
            "printf '%s\\n' "@ + shell_quoted(input) + " | "@ + shell_quoted(terminal) + " "@ + s,
            seq!["printf"@, "%s\\n"@, input, "|"@, terminal] + list,
        ),
{
    let format = "%s\\n"@;
    let l4 = seq![terminal] + list;
    let s4 = shell_quoted(terminal) + (" "@ + s);
    lemma_reads_quoted(terminal, s, list);
    let l3 = seq!["|"@] + l4;
    let s3 = "|"@ + (" "@ + s4);
    assert(reads_as(s3, l3)) by {
        reveal_strlit("|");
        lemma_reads_plain("|"@, s4, l4);
    }
    let l2 = seq![input] + l3;
    let s2 = shell_quoted(input) + (" "@ + s3);
    lemma_reads_quoted(input, s3, l3);
    let l1 = seq![format] + l2;
    let s1 = shell_quoted(format) + (" "@ + s2);
    lemma_reads_quoted(format, s2, l2);
    let s0 = "printf"@ + (" "@ + s1);
    assert(reads_as(s0, seq!["printf"@] + l1)) by {
        reveal_strlit("printf");
        lemma_reads_plain("printf"@, s1, l1);
    }
    let head = "printf '%s\\n' "@;
    assert(head =~= "printf"@ + (" "@ + (shell_quoted(format) + " "@))) by {
        reveal_strlit("printf '%s\\n' ");
        reveal_strlit("printf");
        reveal_strlit("%s\\n");
        reveal_strlit(" ");
        reveal_with_fuel(quotes_escaped, 6);
        assert(quotes_escaped(format) =~= format);
    }
    assert(" | "@ =~= " "@ + ("|"@ + " "@)) by {
        reveal_strlit(" | ");
        reveal_strlit("|");
        reveal_strlit(" ");
    }
    let whole = head + shell_quoted(input) + " | "@ + shell_quoted(terminal) + " "@ + s;
    assert(whole =~= head + (shell_quoted(input) + (" | "@ + s4)));
    assert(" | "@ + s4 =~= " "@ + s3);
    assert(head + s2 =~= s0);
    assert(seq!["printf"@] + l1 =~= seq!["printf"@, format, input, "|"@, terminal] + list);
}

/// What a shell reads in a pipeline with optional further arguments: every
/// part is one word, and stands for its value.
pub proof fn pipelines_are_read_word_by_word(
    input: Seq<char>,
    terminal: Seq<char>,
    verbose: u8,
    s: Seq<char>,
    list: Seq<Seq<char>>,
)
    requires
        list.len() > 0 ==> reads_as(s, list),
    ensures
        reads_as(
            terminal_pipeline(input, terminal, verbose),
            seq![
                "printf"@,
                "%s\\n"@,
                input,
                "|"@,
                terminal,
                "--verbose="@ + decimal(verbose as nat),
            ],
        ),
        list.len() > 0 ==> reads_as(
            terminal_pipeline(input, terminal, verbose) + (" "@ + s),
            seq![
                "printf"@,
                "%s\\n"@,
                input,
                "|"@,
                terminal,
                "--verbose="@ + decimal(verbose as nat),
            ] + list,
        ),
{
    let flag = "--verbose="@ + decimal(verbose as nat);
    let first = seq!["printf"@, "%s\\n"@, input, "|"@, terminal];
    let head = "printf '%s\\n' "@ + shell_quoted(input) + " | "@ + shell_quoted(terminal) + " "@;
    lemma_reads_last(flag);
    lemma_reads_pipeline(input, terminal, shell_quoted(flag), seq![flag]);
    assert(head + shell_quoted(flag) =~= terminal_pipeline(input, terminal, verbose));
    let six = seq!["printf"@, "%s\\n"@, input, "|"@, terminal, flag];
    assert(first + seq![flag] =~= six);
    if list.len() > 0 {
        lemma_reads_quoted(flag, s, list);
        let end = shell_quoted(flag) + (" "@ + s);
        lemma_reads_pipeline(input, terminal, end, seq![flag] + list);
        assert(head + end =~= terminal_pipeline(input, terminal, verbose) + (" "@ + s));
        assert(first + (seq![flag] + list) =~= six + list);
    }
}

/// A list of quoted arguments is read as these arguments.
pub proof fn quoted_arguments_are_read_back(
    first: Seq<char>,
    s: Seq<char>,
    list: Seq<Seq<char>>,
)
    requires
        list.len() > 0 ==> reads_as(s, list),
    ensures
        reads_as(shell_quoted(first), seq![first]),
        list.len() > 0 ==> reads_as(shell_quoted(first) + (" "@ + s), seq![first] + list),
{
    lemma_reads_last(first);
    if list.len() > 0 {
        lemma_reads_quoted(first, s, list);
    }
}

/// What `cmd.exe` hands on of an argument in double quotes, in which two of
/// them stand for one.
pub open spec fn cmd_value(s: Seq<char>) -> Option<Seq<char>> {
    if s.len() >= 2 && s[0] == '"' && s.last() == '"' {
        undoubled(s.subrange(1, s.len() - 1))
    } else {
        None
    }
}

pub open spec fn undoubled(s: Seq<char>) -> Option<Seq<char>>
    decreases s.len(),
{
    if s.len() == 0 {
        Some(Seq::empty())
    } else if s.last() != '"' {
        match undoubled(s.drop_last()) {
            Some(value) => Some(value.push(s.last())),
            None => None,
        }
    } else if s.len() >= 2 && s[s.len() - 2] == '"' {
        match undoubled(s.take(s.len() - 2)) {
            Some(value) => Some(value.push('"')),
            None => None,
        }
    } else {
        None
    }
}

/// An argument that was quoted for `cmd.exe` stands for its value.
pub proof fn cmd_arguments_stand_for_their_value(value: Seq<char>)
    ensures
        cmd_value(cmd_quoted(value)) == Some(value),
{
    lemma_undoubled(value);
    let quoted = cmd_quoted(value);
    assert(quoted.subrange(1, quoted.len() - 1) =~= quotes_doubled(value));
    assert(quoted.last() == '"');
}

proof fn lemma_undoubled(value: Seq<char>)
    ensures
        undoubled(quotes_doubled(value)) == Some(value),
    decreases value.len(),
{
    let all = quotes_doubled(value);
    if value.len() > 0 {
        lemma_undoubled(value.drop_last());
        let before = quotes_doubled(value.drop_last());
        assert(value.drop_last().push(value.last()) =~= value);
        if value.last() == '"' {
            assert(all.take(all.len() - 2) =~= before);
            assert(all.last() == '"' && all[all.len() - 2] == '"');
        } else {
            assert(all.drop_last() =~= before);
        }
    } else {
        assert(value =~= Seq::<char>::empty());
    }
}

/// Other sessions are ended before the terminal starts, those of the user
/// that the session is for, and nothing else of the command changes.
pub proof fn other_sessions_end_first(
    request: BootstrapRequest,
    credentials: Credentials,
    killing: String,
    plain: String,
)
    requires
        request.remote_shell == RemoteShell::Posix,
        call_ensures(
            remote_command,
            (&BootstrapRequest { kill_other_sessions: true, ..request }, &credentials),
            killing,
        ),
        call_ensures(
            remote_command,
            (&BootstrapRequest { kill_other_sessions: false, ..request }, &credentials),
            plain,
        ),
    ensures
        exists|who: Seq<char>| #[trigger]
            is_own_user(who, request.user.deep_view()) && killing@ == "pkill -u "@ + who
                + " 'etterminal'; sleep 0.5; "@ + plain@,
{
    let who = match request.user {
        Some(user) => shell_quoted(user@),
        None => "\"$(id -un)\""@,
    };
    match request.user {
        Some(user) => {
            lemma_reads_last(user@);
        },
        None => {},
    }
    assert(is_own_user(who, request.user.deep_view()));
    assert(Seq::<char>::empty() + plain@ =~= plain@);
    assert(killing@ =~= "pkill -u "@ + who + " 'etterminal'; sleep 0.5; "@ + plain@);
}

/// Whether a word of a shell names a user, or whoever runs the shell.
pub open spec fn is_own_user(who: Seq<char>, user: Option<Seq<char>>) -> bool {
    match user {
        Some(user) => reads_as(who, seq![user]),
        None => who == "\"$(id -un)\""@,
    }
}

/// The same on a jumphost, for whoever runs the shell there.
pub proof fn other_relays_end_first(
    request: JumpBootstrapRequest,
    credentials: Credentials,
    killing: String,
    plain: String,
)
    requires
        call_ensures(
            jump_remote_command,
            (&JumpBootstrapRequest { kill_other_sessions: true, ..request }, &credentials),
            killing,
        ),
        call_ensures(
            jump_remote_command,
            (&JumpBootstrapRequest { kill_other_sessions: false, ..request }, &credentials),
            plain,
        ),
    ensures
        killing@ == "pkill -u \"$(id -un)\" 'etterminal'; sleep 0.5; "@ + plain@,
{
    assert(killing@ =~= "pkill -u \"$(id -un)\" 'etterminal'; sleep 0.5; "@ + plain@);
}

/// The options of the user reach `ssh` in their order: those of two lists
/// are those of the one and then those of the other, an option is passed as
/// it is behind `-o`, and only one that sets `ClearAllForwardings` is not.
pub proof fn options_are_passed_in_order(
    first: Seq<Seq<char>>,
    second: Seq<Seq<char>>,
    option: Seq<char>,
    value: Seq<char>,
)
    ensures
        user_options(first + second) == user_options(first) + user_options(second),
        !(option.len() >= 19 && same_ignoring_case(option.take(19), "ClearAllForwardings"@)) && (
        option.len() > 0 && !crate::text::is_space(option[0])) ==> user_options(seq![option])
            == seq!["-o"@ + option],
        user_options(seq!["ClearAllForwardings="@ + value]) == Seq::<Seq<char>>::empty(),
    decreases second.len(),
{
    reveal_with_fuel(user_options, 2);
    if second.len() == 0 {
        assert(first + second =~= first);
        assert(user_options(first) + user_options(second) =~= user_options(first));
    } else {
        options_are_passed_in_order(first, second.drop_last(), option, value);
        assert((first + second).drop_last() =~= first + second.drop_last());
        assert(user_options(first + second) =~= user_options(first) + user_options(second));
    }
    let alone = seq![option];
    assert(alone.drop_last() =~= Seq::<Seq<char>>::empty());
    assert(user_options(alone.drop_last()).push("-o"@ + option) =~= seq!["-o"@ + option]);
    if option.len() > 0 && !crate::text::is_space(option[0]) {
        crate::text::lemma_first_ink(option, 0);
        assert(trim_start(option) =~= option);
        if clears_forwardings(option) {
            let k = key_length(option);
            lemma_key_bounds(option);
            reveal_strlit("ClearAllForwardings");
            assert(lowered(option.take(k)).len() == lowered("ClearAllForwardings"@).len());
            assert(k == 19);
        }
    }
    let clearing = "ClearAllForwardings="@ + value;
    let other = seq![clearing];
    assert(other.drop_last() =~= Seq::<Seq<char>>::empty());
    reveal_strlit("ClearAllForwardings=");
    reveal_strlit("ClearAllForwardings");
    assert(clearing[0] == 'C');
    crate::text::lemma_first_ink(clearing, 0);
    assert(trim_start(clearing) =~= clearing);
    assert forall|i: int| 0 <= i < 19 implies !ends_key(#[trigger] clearing[i]) by {
        assert(clearing[i] == "ClearAllForwardings="@[i]);
    }
    assert(clearing[19] == '=');
    lemma_key_length(clearing, 19);
    assert(clearing.take(19) =~= "ClearAllForwardings"@);
}

proof fn lemma_key_bounds(text: Seq<char>)
    ensures
        0 <= key_length(text) <= text.len(),
    decreases text.len(),
{
    if text.len() > 0 && !ends_key(text[0]) {
        lemma_key_bounds(text.skip(1));
    }
}

/// Whether two arguments stand next to each other.
pub open spec fn side_by_side(args: Seq<Seq<char>>, flag: Seq<char>, value: Seq<char>) -> bool {
    exists|k: int| 0 <= k && k + 1 < args.len() && #[trigger] args[k] == flag && args[k + 1] == value
}

/// `ssh` is told whom to reach, through which jumphost and with which
/// configuration, as its last argument but the command; configured
/// forwardings stay off.
pub proof fn ssh_reaches_the_destination(
    request: BootstrapRequest,
    credentials: Credentials,
    invocation: SshInvocation,
)
    requires
        call_ensures(build_invocation, (&request, &credentials), invocation) || call_ensures(
            build_shell_probe,
            (&request,),
            invocation,
        ),
    ensures
        ({
            let args = invocation.args.deep_view();
            &&& invocation.program@ == "ssh"@
            &&& args.len() >= 3
            &&& args[args.len() - 2] == match request.user {
                Some(user) => user@ + "@"@ + request.host_alias@,
                None => request.host_alias@,
            }
            &&& request.ssh_config matches Some(path) ==> side_by_side(args, "-F"@, path@)
            &&& request.jumphost matches Some(jumphost) ==> side_by_side(args, "-J"@, jumphost@)
            &&& args.contains("-oClearAllForwardings=yes"@)
        }),
        invocation.completion == InvocationCompletion::ShellProbe
            ==> invocation.args.deep_view().last() == "echo __ET_COMSPEC__%ComSpec%"@,
{
    let args = invocation.args.deep_view();
    let lead = leading_args(request);
    let flags = config_flags(request.ssh_config.deep_view());
    let jump = jump_flags(request.jumphost.deep_view());
    let options = operational_options(request.ssh_options.deep_view());
    assert(lead =~= flags + jump + options);
    let k = (flags + jump).len() as int;
    assert(args[k] == options[0]);
    assert(args[k] == "-oClearAllForwardings=yes"@);
    match request.ssh_config {
        Some(path) => {
            assert(args[0] == flags[0] && args[1] == flags[1]);
        },
        None => {},
    }
    match request.jumphost {
        Some(jumphost) => {
            let j = flags.len() as int;
            assert(args[j] == jump[0] && args[j + 1] == jump[1]);
        },
        None => {},
    }
    reveal_strlit("echo __ET_COMSPEC__%ComSpec%");
    reveal_strlit("echo ");
    reveal_strlit("__ET_COMSPEC__");
    reveal_strlit("%ComSpec%");
    assert(probe_command() =~= "echo __ET_COMSPEC__%ComSpec%"@);
}

/// `ssh` reaches a jumphost itself, at its own port and as its own user, and
/// routes nothing through another one.
pub proof fn ssh_reaches_the_jumphost(
    request: JumpBootstrapRequest,
    parsed: ParsedHost,
    credentials: Credentials,
    invocation: SshInvocation,
)
    requires
        call_ensures(build_jump_invocation, (&request, &parsed, &credentials), invocation),
        parsed.host@.len() > 0,
        !is_bracket(parsed.host@[0]) && !is_bracket(parsed.host@.last()),
    ensures
        ({
            let args = invocation.args.deep_view();
            &&& invocation.program@ == "ssh"@
            &&& args.len() >= 3
            &&& args[args.len() - 2] == if parsed.user@.len() > 0 {
                parsed.user@ + "@"@ + parsed.host@
            } else {
                parsed.host@
            }
            &&& request.ssh_config matches Some(path) ==> side_by_side(args, "-F"@, path@)
            &&& forall|port: Seq<char>| #[trigger] is_port_suffix(parsed.port_suffix@, port)
                ==> side_by_side(args, "-p"@, port)
            &&& args.contains("-oClearAllForwardings=yes"@)
        }),
{
    let args = invocation.args.deep_view();
    let flags = config_flags(request.ssh_config.deep_view());
    let port = port_flags(parsed.port_suffix@);
    let options = operational_options(request.ssh_options.deep_view());
    let k = (flags + port).len() as int;
    assert(args[k] == options[0]);
    assert(args[k] == "-oClearAllForwardings=yes"@);
    match request.ssh_config {
        Some(path) => {
            assert(args[0] == flags[0] && args[1] == flags[1]);
        },
        None => {},
    }
    assert forall|text: Seq<char>| #[trigger]
        is_port_suffix(parsed.port_suffix@, text) implies side_by_side(args, "-p"@, text) by {
        let j = flags.len() as int;
        assert(parsed.port_suffix@.skip(1) =~= text);
        assert(args[j] == port[0] && args[j + 1] == port[1]);
    }
    assert(bare_host(parsed.host@) == parsed.host@);
}

/// Whether a suffix is a colon with a port behind it.
pub open spec fn is_port_suffix(suffix: Seq<char>, port: Seq<char>) -> bool {
    suffix == seq![':'] + port
}

/// The answer to the probe tells the shells apart. A POSIX shell echoes the
/// text of the probe, `cmd.exe` puts its own path in place of the variable,
/// and whatever a login printed on lines of its own before makes no
/// difference.
pub proof fn probes_tell_the_shells_apart(path: Seq<char>, after: Seq<char>)
    requires
        forall|i: int|
            0 <= i < path.len() ==> !crate::text::is_space(#[trigger] path[i]) && path[i] != '%',
    ensures
        shell_of_answer(probe_answer("__ET_COMSPEC__%ComSpec%"@ + (seq!['\n'] + after))) == Some(
            RemoteShell::Posix,
        ),
        shell_of_answer(
            probe_answer("__ET_COMSPEC__"@ + path + "cmd.exe"@ + (seq!['\n'] + after)),
        ) == Some(RemoteShell::Cmd),
{
    reveal_strlit("__ET_COMSPEC__%ComSpec%");
    reveal_strlit("__ET_COMSPEC__");
    reveal_strlit("%ComSpec%");
    reveal_strlit("cmd.exe");
    let posix = "__ET_COMSPEC__%ComSpec%"@;
    assert(posix =~= WINDOWS_SHELL_PROBE_SENTINEL@ + "%ComSpec%"@);
    lemma_probe_line(posix, "%ComSpec%"@, after);
    let named = "__ET_COMSPEC__"@ + path + "cmd.exe"@;
    let value = path + "cmd.exe"@;
    assert forall|i: int| 0 <= i < value.len() implies !crate::text::is_space(
        #[trigger] value[i],
    ) by {
        if i < path.len() {
            assert(value[i] == path[i]);
        } else {
            assert(value[i] == "cmd.exe"@[i - path.len()]);
        }
    }
    assert(named =~= WINDOWS_SHELL_PROBE_SENTINEL@ + value);
    lemma_probe_line(named, value, after);
    let small = lowered(value);
    assert(small.skip(path.len() as int) =~= "cmd.exe"@) by {
        assert forall|i: int| 0 <= i < 7 implies small[path.len() + i] == "cmd.exe"@[i] by {
            assert(value[path.len() + i] == "cmd.exe"@[i]);
        }
    }
    assert("cmd.exe"@.is_suffix_of(small));
    assert(lowered("%ComSpec%"@)[0] == '%');
    if same_ignoring_case(value, "%ComSpec%"@) {
        assert(lowered(value)[0] == lowered("%ComSpec%"@)[0]);
        if path.len() > 0 {
            assert(value[0] == path[0]);
            assert(crate::text::lower(path[0]) == '%');
        } else {
            assert(value[0] == 'c');
        }
    }
}

proof fn lemma_probe_line(line: Seq<char>, value: Seq<char>, after: Seq<char>)
    requires
        line == WINDOWS_SHELL_PROBE_SENTINEL@ + value,
        value.len() > 0,
        forall|i: int| 0 <= i < value.len() ==> !crate::text::is_space(#[trigger] value[i]),
    ensures
        probe_answer(line + (seq!['\n'] + after)) == Some(value),
{
    reveal_strlit("__ET_COMSPEC__");
    let text = line + (seq!['\n'] + after);
    let k = line.len() as int;
    assert forall|i: int| 0 <= i < k implies !crate::text::is_space(#[trigger] line[i]) by {
        if i < 14 {
            assert(line[i] == "__ET_COMSPEC__"@[i]);
        } else {
            assert(line[i] == value[i - 14]);
        }
    }
    assert forall|i: int| 0 <= i < k implies text[i] != '\n' by {
        assert(text[i] == line[i]);
    }
    assert(text[k] == '\n');
    crate::text::lemma_first_index(text, '\n', k);
    assert(text.take(k) =~= line);
    crate::text::lemma_first_ink(line, 0);
    assert(trim_start(line) =~= line);
    assert(trim(line) =~= line);
    assert(line.take(14) =~= WINDOWS_SHELL_PROBE_SENTINEL@);
    assert(line.skip(14) =~= value);
}

/// Lines before the answer are passed over.
pub proof fn banners_hide_no_answer(line: Seq<char>, text: Seq<char>)
    requires
        !line.contains('\n'),
        !"__ET_COMSPEC__"@.is_prefix_of(trim(line)),
    ensures
        probe_answer(line + (seq!['\n'] + text)) == probe_answer(text),
{
    let all = line + (seq!['\n'] + text);
    let k = line.len() as int;
    assert forall|i: int| 0 <= i < k implies all[i] != '\n' by {
        assert(all[i] == line[i]);
        assert(line.contains(line[i]));
    }
    assert(all[k] == '\n');
    crate::text::lemma_first_index(all, '\n', k);
    assert(all.take(k) =~= line);
    assert(all.skip(k + 1) =~= text);
}

/// A generated id is marked by three letters in place of its own first three,
/// and a generated passkey stays as it is.
pub proof fn provisional_ids_are_marked(
    id: &str,
    passkey: String,
    r: Result<Credentials, ClientError>,
)
    requires
        call_ensures(provisional_credentials, (id, passkey), r),
        valid_id(id@),
        valid_passkey(passkey@),
    ensures
        r matches Ok(credentials) && credentials.id@ == seq!['X', 'X', 'X'] + id@.skip(3)
            && credentials.passkey@ == passkey@,
{
    reveal_strlit("XXX");
    assert(vstd::utf8::is_ascii_chars(id@)) by {
        assert forall|i: int| 0 <= i < id@.len() implies '\0' <= #[trigger] id@[i] <= '\u{7f}' by {
            assert(is_alphanumeric(id@[i]));
        }
    }
    vstd::utf8::is_ascii_chars_encode_utf8(id@);
    vstd::utf8::encode_utf8_valid_utf8(id@);
    vstd::utf8::encode_utf8_decode_utf8(id@);
    let bytes = encode_utf8(id@);
    let rest = id@.skip(3);
    assert(vstd::utf8::is_ascii_chars(rest)) by {
        assert forall|i: int| 0 <= i < rest.len() implies '\0' <= #[trigger] rest[i]
            <= '\u{7f}' by {
            assert(rest[i] == id@[i + 3]);
        }
    }
    vstd::utf8::is_ascii_chars_encode_utf8(rest);
    vstd::utf8::encode_utf8_decode_utf8(rest);
    assert(bytes.skip(3) =~= encode_utf8(rest)) by {
        assert forall|i: int| 0 <= i < rest.len() implies bytes.skip(3)[i] == encode_utf8(
            rest,
        )[i] by {
            assert(rest[i] == id@[i + 3]);
        }
    }
    vstd::utf8::is_char_boundary_iff_is_leading_byte(bytes, 3);
    assert("XXX"@ =~= seq!['X', 'X', 'X']);
    assert(valid_id("XXX"@ + rest)) by {
        assert forall|i: int| 0 <= i < 16 implies is_alphanumeric(
            #[trigger] ("XXX"@ + rest)[i],
        ) by {
            if i >= 3 {
                assert(("XXX"@ + rest)[i] == id@[i]);
            }
        }
    }
}

/// Options that steer connection sharing are told from all others by their
/// name, in any case and with any value.
pub proof fn sharing_options_are_recognised(value: Seq<char>, name: Seq<char>)
    requires
        name.len() > 0,
        forall|i: int| 0 <= i < name.len() ==> !ends_key(#[trigger] name[i]),
        !crate::text::is_space(name[0]),
    ensures
        controls_sharing(name + (seq!['='] + value)) <==> same_ignoring_case(
            name,
            "ControlMaster"@,
        ) || same_ignoring_case(name, "ControlPath"@) || same_ignoring_case(name, "ControlPersist"@),
{
    let option = name + (seq!['='] + value);
    let k = name.len() as int;
    assert(option[0] == name[0]);
    crate::text::lemma_first_ink(option, 0);
    assert(trim_start(option) =~= option);
    assert forall|i: int| 0 <= i < k implies !ends_key(#[trigger] option[i]) by {
        assert(option[i] == name[i]);
    }
    assert(option[k] == '=');
    lemma_key_length(option, k);
    assert(option.take(k) =~= name);
}

/// A file that is named is used, and an empty name names none.
pub proof fn named_paths_are_used(path: &Option<String>, fallback: &str, out: String)
    requires
        call_ensures(path_or, (path, fallback), out),
    ensures
        (*path matches Some(named) && named@.len() > 0) ==> out@ == path->0@,
        *path is None ==> out@ == fallback@,
        (*path matches Some(named) && named@.len() == 0) ==> out@ == fallback@,
{
}

/// The port of a host is what stands behind its colon.
pub proof fn ports_stand_behind_their_colon(parsed: &ParsedHost, r: Option<String>, port: Seq<char>)
    requires
        call_ensures(port_text, (parsed,), r),
    ensures
        parsed.port_suffix@ == seq![':'] + port ==> (r matches Some(text) && text@ == port),
        parsed.port_suffix@.len() == 0 ==> r is None,
{
    if parsed.port_suffix@ == seq![':'] + port {
        assert(parsed.port_suffix@[0] == ':');
        assert(parsed.port_suffix@.skip(1) =~= port);
        assert(port_flags(parsed.port_suffix@).len() == 2);
        assert(port_flags(parsed.port_suffix@)[1] == port);
        if let Some(text) = r {
            assert(seq!["-p"@, text@][1] == text@);
        }
    }
    if let Some(text) = r {
        assert(seq!["-p"@, text@].len() == 2);
    }
}

/// A configuration file is named to `ssh` behind what it is told already, and
/// nothing is said where there is none.
pub proof fn configuration_files_are_named()
    ensures
        forall|args: &mut Vec<String>, path: &str, r: ()| #[trigger]
            call_ensures(append_ssh_config_flag, (args, Some(path)), r) ==> final(args).deep_view()
                == args.deep_view().push("-F"@).push(path@),
        forall|args: &mut Vec<String>, r: ()| #[trigger]
            call_ensures(append_ssh_config_flag, (args, None), r) ==> final(args).deep_view()
                == args.deep_view(),
{
    assert forall|args: &mut Vec<String>, path: &str, r: ()| #[trigger]
        call_ensures(append_ssh_config_flag, (args, Some(path)), r) implies final(args).deep_view()
        == args.deep_view().push("-F"@).push(path@) by {
        assert(final(args).deep_view() =~= args.deep_view().push("-F"@).push(path@));
    }
    assert forall|args: &mut Vec<String>, r: ()| #[trigger]
        call_ensures(append_ssh_config_flag, (args, None), r) implies final(args).deep_view()
        == args.deep_view() by {
        assert(final(args).deep_view() =~= args.deep_view());
    }
}

/// A terminal on Windows gets its credentials over a pipe from what is echoed
/// last, and a shell that was asked for is set before that.
pub proof fn windows_terminals_get_their_credentials(
    request: &BootstrapRequest,
    terminal: &str,
    input: &str,
    out: String,
) -> (r: (Seq<char>, Seq<char>))
    requires
        call_ensures(cmd_remote_command, (request, terminal, input), out),
    ensures
        out@ == r.0 + "echo "@ + input@ + "| "@ + cmd_quoted(terminal@) + r.1,
        request.session_shell is None && !request.kill_other_sessions ==> r.0.len() == 0,
        request.session_shell matches Some(shell) ==> ("set \"ET_SHELL="@ + shell@
            + "\" & "@).is_prefix_of(r.0),
        names_etterminal(terminal@) ==> (" "@ + cmd_quoted(
            "--verbose="@ + decimal(request.verbose as nat),
        )).is_prefix_of(r.1),
        request.server_fifo matches Some(fifo) ==> (" "@ + cmd_quoted("--serverfifo="@ + fifo@)).len()
            <= r.1.len() && r.1.skip(
            r.1.len() - (" "@ + cmd_quoted("--serverfifo="@ + fifo@)).len(),
        ) == " "@ + cmd_quoted("--serverfifo="@ + fifo@),
{
    let shell = match request.session_shell {
        Some(shell) => "set \"ET_SHELL="@ + shell@ + "\" & "@,
        None => Seq::empty(),
    };
    let kill = if request.kill_other_sessions {
        "taskkill /F /FI \"USERNAME eq %USERNAME%\" /IM et.exe >nul 2>&1 & "@
    } else {
        Seq::empty()
    };
    let role = if names_etterminal(terminal@) {
        Seq::empty()
    } else {
        " terminal"@
    };
    let verbose = cmd_quoted("--verbose="@ + decimal(request.verbose as nat));
    let fifo = match request.server_fifo {
        Some(fifo) => " "@ + cmd_quoted("--serverfifo="@ + fifo@),
        None => Seq::empty(),
    };
    let before = shell + kill;
    let after = role + " "@ + verbose + fifo;
    assert(out@ =~= before + "echo "@ + input@ + "| "@ + cmd_quoted(terminal@) + after);
    assert(shell =~= before.subrange(0, shell.len() as int));
    assert(after.skip(after.len() - fifo.len()) =~= fifo);
    if names_etterminal(terminal@) {
        assert(" "@ + verbose =~= after.subrange(0, (" "@ + verbose).len() as int));
    }
    (before, after)
}

} // verus!
