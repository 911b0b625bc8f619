//! The terminal role: where it gets its credentials, and what it becomes.
use vstd::prelude::*;

use crate::bootstrap::{
    ascii_text, byte_is_alphanumeric, marked_credentials, marker, parse_id_passkey, valid_id,
    valid_passkey, Credentials,
};
use crate::bytes::{first_occurrence, occurs_at};
use crate::client::is_empty_text;
use crate::error::{joined, ClientError};
use crate::ssh_process::later_output_changes_no_credentials;
use crate::terminal_credentials::{
    credential_parts, input_read, parse_credential_input, term_char, valid_term, CredentialInput,
};
use crate::text::{
    ascii, chars_of, decimal, decimal_string, lemma_first_index, push_text, string_of, trim,
    trim_chars, utf8_text,
};
use vstd::utf8::{decode_utf8, encode_utf8, valid_utf8};

verus! {

/// How many bytes of credentials are read.
pub const MAX_CREDENTIAL_INPUT: usize = 4096;

// Credentials.

/// The terminal type of the environment, or the usual one.
pub open spec fn local_term(term: Option<Seq<char>>) -> Seq<char> {
    match term {
        Some(term) => term,
        None => "xterm-256color"@,
    }
}

/// Whether a result fails with these words.
pub open spec fn refuses(r: Result<CredentialInput, String>, words: Seq<char>) -> bool {
    r matches Err(message) && message@ == words
}

fn with_term(value: &str, term: Option<&str>) -> (out: String)
    ensures
        out@ == value@ + "_"@ + local_term(term.deep_view()),
{
    let mut out = joined(value, "_");
    match term {
        Some(term) => out.append(term),
        None => out.append("xterm-256color"),
    }
    out
}

/// What a credential file gave.
#[derive(Debug)]
pub enum FileRead {
    NotOpened(String),
    /// It could not be read, or is no text.
    NotRead(String),
    /// At most one byte more than is allowed.
    Text(String),
}

/// Whether `r` are the credentials of a file.
pub open spec fn file_gives(
    read: FileRead,
    term: Option<Seq<char>>,
    r: Result<CredentialInput, String>,
) -> bool {
    match read {
        FileRead::NotOpened(cause) => refuses(r, "could not open id/passkey file: "@ + cause@),
        FileRead::NotRead(cause) => refuses(r, "could not read id/passkey file: "@ + cause@),
        FileRead::Text(text) => if encode_utf8(text@).len() > MAX_CREDENTIAL_INPUT {
            refuses(r, "id/passkey file exceeds 4096 bytes"@)
        } else {
            input_read(trim(text@) + "_"@ + local_term(term), r)
        },
    }
}

/// Credentials of a file. It holds no terminal type, so the one of the
/// environment is used.
pub fn credentials_from_file(read: FileRead, term: Option<&str>) -> (r: Result<
    CredentialInput,
    String,
>)
    ensures
        file_gives(read, term.deep_view(), r),
        r matches Ok(input) ==> input.valid(),
{
    match read {
        FileRead::NotOpened(cause) => Err(
            joined("could not open id/passkey file: ", cause.as_str()),
        ),
        FileRead::NotRead(cause) => Err(joined("could not read id/passkey file: ", cause.as_str())),
        FileRead::Text(text) => {
            if text.as_str().as_bytes().len() > MAX_CREDENTIAL_INPUT {
                return Err("id/passkey file exceeds 4096 bytes".to_owned());
            }
            let chars = chars_of(text.as_str());
            let value = string_of(trim_chars(chars.as_slice()));
            let whole = with_term(value.as_str(), term);
            parse_credential_input(whole.as_str())
        },
    }
}

/// Credentials of the command line.
pub fn credentials_from_option(value: &str, term: Option<&str>) -> (r: Result<
    CredentialInput,
    String,
>)
    ensures
        input_read(value@ + "_"@ + local_term(term.deep_view()), r),
        r matches Ok(input) ==> input.valid(),
{
    let whole = with_term(value, term);
    parse_credential_input(whole.as_str())
}

/// Whether `r` are the credentials of the standard input.
pub open spec fn input_gives(bytes: Seq<u8>, r: Result<CredentialInput, String>) -> bool {
    if bytes.len() > MAX_CREDENTIAL_INPUT {
        refuses(r, "id/passkey input exceeds 4096 bytes"@)
    } else if !valid_utf8(bytes) {
        refuses(r, "id/passkey input is not UTF-8"@)
    } else {
        input_read(trim(decode_utf8(bytes)), r)
    }
}

/// Credentials of the standard input, of which at most one byte more than is
/// allowed was read.
pub fn credentials_from_input(bytes: &[u8]) -> (r: Result<CredentialInput, String>)
    ensures
        input_gives(bytes@, r),
        r matches Ok(input) ==> input.valid(),
{
    if bytes.len() > MAX_CREDENTIAL_INPUT {
        return Err("id/passkey input exceeds 4096 bytes".to_owned());
    }
    match utf8_text(bytes) {
        None => Err("id/passkey input is not UTF-8".to_owned()),
        Some(text) => {
            let chars = chars_of(text);
            let value = string_of(trim_chars(chars.as_slice()));
            parse_credential_input(value.as_str())
        },
    }
}

/// Where the credentials of a terminal come from.
#[derive(Debug, Clone, Copy, PartialEq, Eq, Structural)]
pub enum CredentialSource {
    File,
    Option,
    Input,
}

/// Where the credentials come from: a file counts before the command line,
/// and that before the standard input.
pub fn credential_source(has_file: bool, has_option: bool) -> (source: CredentialSource)
    ensures
        source == if has_file {
            CredentialSource::File
        } else if has_option {
            CredentialSource::Option
        } else {
            CredentialSource::Input
        },
{
    if has_file {
        CredentialSource::File
    } else if has_option {
        CredentialSource::Option
    } else {
        CredentialSource::Input
    }
}

/// What a source of credentials gave.
#[derive(Debug)]
pub enum CredentialRead {
    File(FileRead),
    Option(String),
    /// The bytes of the standard input, or why it could not be read.
    Input(Result<Vec<u8>, String>),
}

/// The credentials of a terminal.
pub fn load_credentials(read: CredentialRead, term: Option<&str>) -> (r: Result<
    CredentialInput,
    String,
>)
    ensures
        match read {
            CredentialRead::File(file) => file_gives(file, term.deep_view(), r),
            CredentialRead::Option(value) => input_read(
                value@ + "_"@ + local_term(term.deep_view()),
                r,
            ),
            CredentialRead::Input(Ok(bytes)) => input_gives(bytes@, r),
            CredentialRead::Input(Err(cause)) => refuses(
                r,
                "could not read id/passkey from stdin: "@ + cause@,
            ),
        },
        r matches Ok(input) ==> input.valid(),
{
    match read {
        CredentialRead::File(file) => credentials_from_file(file, term),
        CredentialRead::Option(value) => credentials_from_option(value.as_str(), term),
        CredentialRead::Input(Ok(bytes)) => credentials_from_input(bytes.as_slice()),
        CredentialRead::Input(Err(cause)) => Err(
            joined("could not read id/passkey from stdin: ", cause.as_str()),
        ),
    }
}

// The marker.

/// The line that the client looks for.
pub open spec fn marker_line(input: CredentialInput) -> Seq<char> {
    "IDPASSKEY:"@ + input.id@ + "/"@ + input.passkey@ + "\n"@
}

/// What the terminal prints when it is registered.
pub fn print_marker(input: &CredentialInput) -> (line: String)
    ensures
        line@ == marker_line(*input),
{
    let mut line = joined("IDPASSKEY:", input.id.as_str());
    line.append("/");
    line.append(input.passkey.as_str());
    line.append("\n");
    line
}

/// The client reads the credentials of a marker that the terminal printed,
/// whatever a login printed before it, as long as that holds no marker of its
/// own.
pub proof fn marker_reads_back(input: CredentialInput, banner: Seq<u8>)
    requires
        input.valid(),
        forall|i: int|
            0 <= i < banner.len() ==> !occurs_at(
                banner + ascii(marker_line(input)),
                marker(),
                i,
            ),
    ensures
        marked_credentials(banner + ascii(marker_line(input))) matches Ok((id, passkey))
            && ascii_text(id) == input.id@ && ascii_text(passkey) == input.passkey@,
{
    reveal_strlit("IDPASSKEY:");
    reveal_strlit("/");
    reveal_strlit("\n");
    let line = marker_line(input);
    let stdout = banner + ascii(line);
    let at = banner.len() as int;
    assert(stdout.subrange(at, at + marker().len()) =~= marker()) by {
        assert forall|i: int| 0 <= i < 10 implies stdout[at + i] == marker()[i] by {
            assert(stdout[at + i] == ascii(line)[i]);
            assert(line[i] == "IDPASSKEY:"@[i]);
        }
    }
    assert(occurs_at(stdout, marker(), at));
    assert(first_occurrence(stdout, marker(), at));
    crate::bootstrap::lemma_marker_unique(stdout, at);
    let tail = stdout.skip(at + marker().len());
    let id = input.id@;
    let passkey = input.passkey@;
    assert forall|i: int| 0 <= i < 16 implies tail[i] == id[i] as u8 by {
        assert(line[10 + i] == id[i]);
        assert(tail[i] == ascii(line)[10 + i]);
    }
    assert(line[26] == '/');
    assert(tail[16] == ascii(line)[26]);
    assert forall|i: int| 0 <= i < 32 implies tail[17 + i] == passkey[i] as u8 by {
        assert(line[27 + i] == passkey[i]);
        assert(tail[17 + i] == ascii(line)[27 + i]);
    }
    let id_bytes = tail.take(16);
    let passkey_bytes = tail.subrange(17, 49);
    assert forall|i: int| 0 <= i < 16 implies byte_is_alphanumeric(#[trigger] id_bytes[i])
        && id_bytes[i] as char == id[i] by {
        assert(crate::text::is_alphanumeric(id[i]));
        assert(tail[i] == id[i] as u8);
    }
    assert forall|i: int| 0 <= i < 32 implies byte_is_alphanumeric(#[trigger] passkey_bytes[i])
        && passkey_bytes[i] as char == passkey[i] by {
        assert(crate::text::is_alphanumeric(passkey[i]));
        assert(tail[17 + i] == passkey[i] as u8);
    }
    assert(ascii_text(id_bytes) =~= id);
    assert(ascii_text(passkey_bytes) =~= passkey);
}

// The role.

/// The options that decide what a terminal becomes.
#[derive(Debug)]
pub struct TerminalArgs {
    pub session_child: bool,
    pub ready_socket: Option<String>,
    pub jump: bool,
    pub dsthost: Option<String>,
    pub dstport: u16,
}

/// What a terminal becomes.
#[derive(Debug)]
pub enum TerminalPlan {
    /// Start the session process with these arguments besides its own, then
    /// print the marker.
    Spawn { more: Vec<String> },
    /// Register, report readiness, and host a shell.
    Host,
    /// Register, report readiness, and relay to the destination.
    Relay { host: String, port: u16 },
}

/// The arguments of a relay.
pub open spec fn relay_args(host: Seq<char>, port: u16) -> Seq<Seq<char>> {
    seq!["--jump"@, "--dsthost="@ + host, "--dstport="@ + decimal(port as nat)]
}

/// Whether `r` is what a terminal becomes.
pub open spec fn becomes(args: TerminalArgs, r: Result<TerminalPlan, String>) -> bool {
    if args.jump && (args.dsthost is None || args.dsthost->0@.len() == 0) {
        r matches Err(message) && message@ == "--dsthost must be set when --jump is used"@
    } else if !args.session_child {
        r matches Ok(TerminalPlan::Spawn { more }) && more.deep_view() == if args.jump {
            relay_args(args.dsthost->0@, args.dstport)
        } else {
            Seq::empty()
        }
    } else if args.jump {
        r matches Ok(TerminalPlan::Relay { host, port }) && host@ == args.dsthost->0@ && port
            == args.dstport
    } else {
        r == Ok::<TerminalPlan, String>(TerminalPlan::Host)
    }
}

/// Decides what a terminal becomes.
pub fn plan_terminal(args: &TerminalArgs) -> (r: Result<TerminalPlan, String>)
    ensures
        becomes(*args, r),
{
    let host: Option<String> = if args.jump {
        match &args.dsthost {
            Some(host) => {
                if is_empty_text(host.as_str()) {
                    return Err("--dsthost must be set when --jump is used".to_owned());
                }
                Some(host.clone())
            },
            None => {
                return Err("--dsthost must be set when --jump is used".to_owned());
            },
        }
    } else {
        None
    };
    if !args.session_child {
        let mut more: Vec<String> = Vec::new();
        assert(more.deep_view() =~= Seq::<Seq<char>>::empty());
        if let Some(host) = &host {
            push_text(&mut more, "--jump");
            push_text(&mut more, joined("--dsthost=", host.as_str()).as_str());
            push_text(
                &mut more,
                joined("--dstport=", decimal_string(args.dstport as u64).as_str()).as_str(),
            );
            assert(more.deep_view() =~= relay_args(host@, args.dstport));
        }
        return Ok(TerminalPlan::Spawn { more });
    }
    match host {
        Some(host) => Ok(TerminalPlan::Relay { host, port: args.dstport }),
        None => Ok(TerminalPlan::Host),
    }
}

/// Where a session process that registered reports readiness.
pub fn parsed_ready_socket(args: &TerminalArgs) -> (r: Result<&str, String>)
    ensures
        match args.ready_socket {
            Some(socket) => r matches Ok(target) && target@ == socket@,
            None => r matches Err(message) && message@
                == "terminal session child has no readiness socket"@,
        },
{
    match &args.ready_socket {
        Some(socket) => Ok(socket.as_str()),
        None => Err("terminal session child has no readiness socket".to_owned()),
    }
}

/// What the logs of a terminal are called.
pub fn log_prefix(jump: bool, user: &str, id: &str) -> (out: String)
    ensures
        out@ == (if jump {
            "etjump"@
        } else {
            "etterminal"@
        }) + "-"@ + user@ + "-"@ + id@,
{
    let mut out = if jump {
        "etjump".to_owned()
    } else {
        "etterminal".to_owned()
    };
    out.append("-");
    out.append(user);
    out.append("-");
    out.append(id);
    out
}

/// The message that registers a terminal with the router.
#[derive(Debug)]
pub struct TerminalUserInfo {
    pub id: Option<String>,
    pub passkey: Option<String>,
    pub uid: Option<i64>,
    pub gid: Option<i64>,
    pub fd: Option<i64>,
}

/// A terminal registers with its credentials and the ids it runs under;
/// systems without such ids report zero.
pub fn registration(input: &CredentialInput, ids: Option<(u32, u32)>) -> (message: TerminalUserInfo)
    ensures
        message.id.deep_view() == Some(input.id@),
        message.passkey.deep_view() == Some(input.passkey@),
        match ids {
            Some((uid, gid)) => message.uid == Some(uid as i64) && message.gid == Some(gid as i64),
            None => message.uid == Some(0i64) && message.gid == Some(0i64),
        },
        message.fd is None,
{
    let (uid, gid): (i64, i64) = match ids {
        Some((uid, gid)) => (uid as i64, gid as i64),
        None => (0, 0),
    };
    TerminalUserInfo {
        id: Some(input.id.clone()),
        passkey: Some(input.passkey.clone()),
        uid: Some(uid),
        gid: Some(gid),
        fd: None,
    }
}

/// The line that a registered terminal prints names its own session to the
/// client, whatever is printed before it, without a marker, and behind it.
pub proof fn printed_markers_are_read(
    input: &CredentialInput,
    line: String,
    banner: Seq<u8>,
    rest: Seq<u8>,
    stdout: &[u8],
    r: Result<Credentials, ClientError>,
)
    requires
        input.valid(),
        call_ensures(print_marker, (input,), line),
        stdout@ == banner + ascii(line@) + rest,
        forall|i: int|
            0 <= i < banner.len() ==> !occurs_at(banner + ascii(line@), ascii("IDPASSKEY:"@), i),
        call_ensures(parse_id_passkey, (stdout,), r),
    ensures
        r matches Ok(credentials) && credentials.id@ == input.id@ && credentials.passkey@
            == input.passkey@,
        line@ == "IDPASSKEY:"@ + input.id@ + seq!['/'] + input.passkey@ + seq!['\n'],
{
    reveal_strlit("/");
    reveal_strlit("\n");
    assert(line@ =~= "IDPASSKEY:"@ + input.id@ + seq!['/'] + input.passkey@ + seq!['\n']);
    marker_reads_back(*input, banner);
    later_output_changes_no_credentials(banner + ascii(line@), rest);
}

/// Credentials that are handed over as an option or in a file are an id and a
/// passkey with a slash between them; the terminal's type is the local one.
pub proof fn options_hold_credentials(
    value: &str,
    term: &str,
    id: Seq<char>,
    passkey: Seq<char>,
    r: Result<CredentialInput, String>,
    usual: Result<CredentialInput, String>,
)
    requires
        valid_id(id) && valid_passkey(passkey),
        value@ == id + (seq!['/'] + passkey),
        call_ensures(credentials_from_option, (value, Some(term)), r),
        call_ensures(credentials_from_option, (value, None), usual),
    ensures
        r is Ok <==> valid_term(term@),
        r matches Ok(input) ==> input.id@ == id && input.passkey@ == passkey && input.term@ == term@,
        usual matches Ok(input) && input.id@ == id && input.passkey@ == passkey && input.term@
            == "xterm-256color"@,
{
    reveal_strlit("_");
    reveal_strlit("xterm-256color");
    lemma_credentials_with_term(value@, id, passkey, term@);
    lemma_credentials_with_term(value@, id, passkey, "xterm-256color"@);
    assert forall|i: int| 0 <= i < "xterm-256color"@.len() implies term_char(
        #[trigger] "xterm-256color"@[i],
    ) by {}
    assert(valid_term("xterm-256color"@));
}

proof fn lemma_credentials_with_term(
    value: Seq<char>,
    id: Seq<char>,
    passkey: Seq<char>,
    term: Seq<char>,
)
    requires
        valid_id(id) && valid_passkey(passkey),
        value == id + (seq!['/'] + passkey),
    ensures
        credential_parts(value + "_"@ + term) == Some((id, passkey, term)),
{
    reveal_strlit("_");
    let all = value + "_"@ + term;
    let j = id.len() as int;
    let k = value.len() as int;
    assert forall|i: int| 0 <= i < k implies all[i] != '_' by {
        if i < j {
            assert(all[i] == id[i]);
        } else if i > j {
            assert(all[i] == passkey[i - j - 1]);
        }
    }
    assert(all[k] == '_');
    lemma_first_index(all, '_', k);
    let credentials = all.take(k);
    assert(credentials =~= value);
    assert forall|i: int| 0 <= i < j implies credentials[i] != '/' by {
        assert(credentials[i] == id[i]);
    }
    assert(credentials[j] == '/');
    lemma_first_index(credentials, '/', j);
    assert(credentials.take(j) =~= id);
    assert(credentials.skip(j + 1) =~= passkey);
    assert(all.skip(k + 1) =~= term);
}

/// A file comes before an option, and both before the input.
pub proof fn credentials_have_one_source(
    has_file: bool,
    has_option: bool,
    source: CredentialSource,
)
    requires
        call_ensures(credential_source, (has_file, has_option), source),
    ensures
        has_file <==> source == CredentialSource::File,
        !has_file && has_option <==> source == CredentialSource::Option,
        !has_file && !has_option <==> source == CredentialSource::Input,
{
}

/// A terminal that is called starts a session process, which then hosts a
/// shell or relays to its destination: the destination reaches the process
/// as it was named.
pub proof fn terminals_become_what_they_are_told(
    args: &TerminalArgs,
    r: Result<TerminalPlan, String>,
)
    requires
        call_ensures(plan_terminal, (args,), r),
    ensures
        r is Err <==> args.jump && (args.dsthost is None || args.dsthost->0@.len() == 0),
        args.session_child && !args.jump ==> r == Ok::<TerminalPlan, String>(TerminalPlan::Host),
        args.session_child && args.jump && r is Ok ==> (r->Ok_0 matches TerminalPlan::Relay {
            host,
            port,
        } && host@ == args.dsthost->0@ && port == args.dstport),
        !args.session_child && !args.jump ==> (r matches Ok(TerminalPlan::Spawn { more })
            && more@.len() == 0),
        !args.session_child && args.jump && r is Ok ==> (r->Ok_0 matches TerminalPlan::Spawn {
            more,
        } && more@.len() == 3 && more@[0]@ == "--jump"@ && more@[1]@ == "--dsthost="@
            + args.dsthost->0@ && more@[2]@ == "--dstport="@ + decimal(args.dstport as nat)),
{
    if let Ok(TerminalPlan::Spawn { more }) = r {
        assert(more.deep_view().len() == more@.len());
        if args.jump {
            assert(more.deep_view()[0] == more@[0]@);
            assert(more.deep_view()[1] == more@[1]@);
            assert(more.deep_view()[2] == more@[2]@);
        }
    }
}

/// A session registers under its own id, with its own passkey and as its own
/// user.
pub proof fn sessions_register_as_themselves(
    input: &CredentialInput,
    uid: u32,
    gid: u32,
    message: TerminalUserInfo,
)
    requires
        call_ensures(registration, (input, Some((uid, gid))), message),
    ensures
        message.id is Some && message.id->0@ == input.id@,
        message.passkey is Some && message.passkey->0@ == input.passkey@,
        message.uid == Some(uid as i64) && message.gid == Some(gid as i64),
{
}

/// Credentials on the standard input are a line with the terminal's type at
/// its end, and what surrounds it does not count.
pub proof fn inputs_hold_sessions(
    bytes: &[u8],
    line: Seq<char>,
    id: Seq<char>,
    passkey: Seq<char>,
    term: Seq<char>,
    r: Result<CredentialInput, String>,
)
    requires
        call_ensures(credentials_from_input, (bytes,), r),
        bytes@ == encode_utf8(line),
        bytes@.len() <= 4096,
        trim(line) == id + seq!['/'] + passkey + "_"@ + term,
        valid_id(id) && valid_passkey(passkey),
    ensures
        r is Ok <==> valid_term(term),
        r matches Ok(input) ==> input.id@ == id && input.passkey@ == passkey && input.term@ == term,
{
    vstd::utf8::encode_utf8_valid_utf8(line);
    vstd::utf8::encode_utf8_decode_utf8(line);
    let value = id + (seq!['/'] + passkey);
    lemma_credentials_with_term(value, id, passkey, term);
    assert(trim(line) =~= value + "_"@ + term);
}

/// A file holds an id and a passkey, and what surrounds them does not count;
/// one that is too long, or that cannot be read, holds none.
pub proof fn files_hold_credentials(
    text: String,
    term: &str,
    id: Seq<char>,
    passkey: Seq<char>,
    cause: String,
    r: Result<CredentialInput, String>,
    unread: Result<CredentialInput, String>,
)
    requires
        call_ensures(credentials_from_file, (FileRead::Text(text), Some(term)), r),
        call_ensures(credentials_from_file, (FileRead::NotRead(cause), Some(term)), unread),
        trim(text@) == id + (seq!['/'] + passkey),
        valid_id(id) && valid_passkey(passkey),
    ensures
        r is Ok <==> valid_term(term@) && encode_utf8(text@).len() <= 4096,
        r matches Ok(input) ==> input.id@ == id && input.passkey@ == passkey && input.term@ == term@,
        unread is Err,
{
    lemma_credentials_with_term(trim(text@), id, passkey, term@);
}

/// Each source of credentials is read in its own way.
pub proof fn sources_are_read_in_their_way(
    read: CredentialRead,
    term: Option<&str>,
    r: Result<CredentialInput, String>,
)
    requires
        call_ensures(load_credentials, (read, term), r),
    ensures
        read matches CredentialRead::Input(Err(_)) ==> r is Err,
        (read matches CredentialRead::Input(Ok(bytes)) && bytes@.len() > 4096) ==> r is Err,
        (read matches CredentialRead::File(FileRead::NotOpened(_))) ==> r is Err,
        r matches Ok(input) ==> valid_id(input.id@) && valid_passkey(input.passkey@),
{
}

/// A log tells what it is of: the role, the user and the session, in this
/// order.
pub proof fn logs_tell_their_session(jump: bool, user: &str, id: &str, out: String)
    requires
        call_ensures(log_prefix, (jump, user, id), out),
    ensures
        out@ == (if jump {
            "etjump-"@
        } else {
            "etterminal-"@
        }) + user@ + seq!['-'] + id@,
{
    reveal_strlit("etjump");
    reveal_strlit("etterminal");
    reveal_strlit("etjump-");
    reveal_strlit("etterminal-");
    reveal_strlit("-");
    assert(out@ =~= (if jump {
        "etjump-"@
    } else {
        "etterminal-"@
    }) + user@ + seq!['-'] + id@);
}

/// A session process reports where it was told to.
pub proof fn readiness_sockets_are_required(args: &TerminalArgs, r: Result<&str, String>)
    requires
        call_ensures(parsed_ready_socket, (args,), r),
    ensures
        r is Ok <==> args.ready_socket is Some,
        r is Ok ==> r->Ok_0@ == args.ready_socket->0@,
{
}

} // verus!
