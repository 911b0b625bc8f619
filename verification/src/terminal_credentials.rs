//! The credentials that a terminal is started with.
use vstd::prelude::*;
use vstd::slice::slice_subrange;

use crate::bootstrap::{
    all_alphanumeric, build_invocation, build_jump_invocation, cmd_arguments_stand_for_their_value,
    cmd_quoted, cmd_value, credential_line, destination_command, is_valid_id, is_valid_passkey,
    jump_command, names_etterminal, optional_flag, pipelines_are_read_word_by_word,
    quoted_arguments_are_read_back, reads_as, remote_command, shell_quoted, survives_cmd,
    survives_cmd_char, terminal_pipeline, valid_id, valid_passkey, BootstrapRequest, Credentials,
    JumpBootstrapRequest, ParsedHost, RemoteShell, SshInvocation,
};
use crate::text::{
    char_is_alphanumeric, chars_of, decimal, find_char, first_index, is_alphanumeric, lemma_first_index,
    lemma_first_index_bounds, lemma_first_ink, string_of, trim, trim_end, trim_start,
};

verus! {

/// The longest terminal type.
pub const MAX_TERM_LEN: usize = 64;

#[derive(Debug, Clone, PartialEq, Eq)]
pub struct CredentialInput {
    pub id: String,
    pub passkey: String,
    pub term: String,
}

impl CredentialInput {
    /// What is promised of credentials that were read.
    pub open spec fn valid(self) -> bool {
        valid_id(self.id@) && valid_passkey(self.passkey@) && valid_term(self.term@)
    }
}

/// A character of a terminal type.
pub open spec fn term_char(c: char) -> bool {
    is_alphanumeric(c) || c == '-' || c == '_' || c == '.'
}

/// A terminal type that is passed on.
pub open spec fn valid_term(term: Seq<char>) -> bool {
    1 <= term.len() <= MAX_TERM_LEN && forall|i: int|
        0 <= i < term.len() ==> term_char(#[trigger] term[i])
}

/// The parts of `id/passkey_TERM`, where it has them.
pub open spec fn credential_parts(value: Seq<char>) -> Option<(Seq<char>, Seq<char>, Seq<char>)> {
    let k = first_index(value, '_');
    if k >= value.len() {
        None
    } else {
        let credentials = value.take(k);
        let j = first_index(credentials, '/');
        if j >= credentials.len() {
            None
        } else {
            Some((credentials.take(j), credentials.skip(j + 1), value.skip(k + 1)))
        }
    }
}

/// What is wrong with `id/passkey_TERM`.
pub open spec fn input_fault(value: Seq<char>) -> Option<Seq<char>> {
    match credential_parts(value) {
        None => Some("expected id/passkey_TERM"@),
        Some((id, passkey, term)) => if !valid_id(id) {
            Some("session id must be 16 ASCII-alphanumeric bytes"@)
        } else if !valid_passkey(passkey) {
            Some("passkey must be 32 ASCII-alphanumeric bytes"@)
        } else if !valid_term(term) {
            Some("TERM contains unsupported characters or length"@)
        } else {
            None
        },
    }
}

/// Whether `r` is what `id/passkey_TERM` stands for.
pub open spec fn input_read(value: Seq<char>, r: Result<CredentialInput, String>) -> bool {
    match (input_fault(value), r) {
        (Some(fault), Err(message)) => message@ == fault,
        (None, Ok(input)) => credential_parts(value) == Some((input.id@, input.passkey@, input.term@)),
        _ => false,
    }
}

fn is_term(term: &[char]) -> (r: bool)
    ensures
        r == valid_term(term@),
{
    if term.len() < 1 || term.len() > MAX_TERM_LEN {
        return false;
    }
    let mut i: usize = 0;
    while i < term.len()
        invariant
            i <= term@.len(),
            forall|j: int| 0 <= j < i ==> term_char(#[trigger] term@[j]),
        decreases term@.len() - i,
    {
        let c = term[i];
        if !(char_is_alphanumeric(c) || c == '-' || c == '_' || c == '.') {
            assert(!term_char(term@[i as int]));
            return false;
        }
        i += 1;
    }
    true
}

/// Reads `id/passkey_TERM`.
pub fn parse_credential_input(value: &str) -> (r: Result<CredentialInput, String>)
    ensures
        input_read(value@, r),
        r matches Ok(input) ==> input.valid(),
{
    let chars = chars_of(value);
    let len: usize = chars.len();
    let k = find_char(chars.as_slice(), '_');
    proof {
        lemma_first_index_bounds(chars@, '_');
    }
    if k >= len {
        return Err("expected id/passkey_TERM".to_owned());
    }
    let credentials = slice_subrange(chars.as_slice(), 0, k);
    let term = slice_subrange(chars.as_slice(), k + 1, len);
    assert(credentials@ =~= value@.take(k as int));
    assert(term@ =~= value@.skip(k + 1));
    let j = find_char(credentials, '/');
    proof {
        lemma_first_index_bounds(credentials@, '/');
    }
    if j >= credentials.len() {
        return Err("expected id/passkey_TERM".to_owned());
    }
    let id_chars = slice_subrange(credentials, 0, j);
    let passkey_chars = slice_subrange(credentials, j + 1, k);
    assert(id_chars@ =~= credentials@.take(j as int));
    assert(passkey_chars@ =~= credentials@.skip(j + 1));
    let id = string_of(id_chars);
    let passkey = string_of(passkey_chars);
    if !is_valid_id(id.as_str()) {
        return Err("session id must be 16 ASCII-alphanumeric bytes".to_owned());
    }
    if !is_valid_passkey(passkey.as_str()) {
        return Err("passkey must be 32 ASCII-alphanumeric bytes".to_owned());
    }
    if !is_term(term) {
        return Err("TERM contains unsupported characters or length".to_owned());
    }
    Ok(CredentialInput { id, passkey, term: string_of(term) })
}

proof fn lemma_alphanumeric_holds_no(s: Seq<char>, c: char)
    requires
        all_alphanumeric(s),
        !is_alphanumeric(c),
    ensures
        forall|i: int| 0 <= i < s.len() ==> s[i] != c,
{
    assert forall|i: int| 0 <= i < s.len() implies s[i] != c by {
        assert(is_alphanumeric(s[i]));
    }
}

/// The line that the client hands to a terminal stands for the credentials
/// and the terminal type that it was made of.
pub proof fn credential_line_reads_back(credentials: Credentials, term: Seq<char>)
    requires
        credentials.valid(),
        valid_term(term),
    ensures
        credential_parts(credential_line(credentials, term)) == Some(
            (credentials.id@, credentials.passkey@, term),
        ),
        input_fault(credential_line(credentials, term)) is None,
        trim(credential_line(credentials, term)) == credential_line(credentials, term),
{
    reveal_strlit("/");
    reveal_strlit("_");
    let id = credentials.id@;
    let passkey = credentials.passkey@;
    let line = credential_line(credentials, term);
    let head = id + "/"@ + passkey;
    lemma_alphanumeric_holds_no(id, '_');
    lemma_alphanumeric_holds_no(passkey, '_');
    lemma_alphanumeric_holds_no(id, '/');
    let k = head.len() as int;
    assert forall|i: int| 0 <= i < k implies line[i] != '_' by {
        if i < id.len() {
            assert(line[i] == id[i]);
        } else if i == id.len() {
            assert(line[i] == '/');
        } else {
            assert(line[i] == passkey[i - id.len() - 1]);
        }
    }
    assert(line[k] == '_');
    lemma_first_index(line, '_', k);
    assert(line.take(k) =~= head);
    assert(line.skip(k + 1) =~= term);
    let j = id.len() as int;
    assert forall|i: int| 0 <= i < j implies head[i] != '/' by {
        assert(head[i] == id[i]);
    }
    assert(head[j] == '/');
    lemma_first_index(head, '/', j);
    assert(head.take(j) =~= id);
    assert(head.skip(j + 1) =~= passkey);
    // Neither end is blank.
    assert(is_alphanumeric(id[0]));
    assert(line[0] == id[0]);
    lemma_first_ink(line, 0);
    assert(trim_start(line) =~= line);
    assert(term_char(term[term.len() - 1]));
    assert(line.last() == term[term.len() - 1]);
    assert(trim_end(line) =~= line);
}

// What the terminals are started with.

/// The program that is started: the one that was named, or `fallback`.
pub open spec fn program_or(path: Option<String>, fallback: Seq<char>) -> Seq<char> {
    match path {
        Some(path) if path@.len() > 0 => path@,
        _ => fallback,
    }
}

/// The option that names a router, where one was named.
pub open spec fn router_option(path: Option<String>) -> Seq<Seq<char>> {
    match path {
        Some(path) => seq!["--serverfifo="@ + path@],
        None => Seq::empty(),
    }
}

/// Whether a line says who the session is and what terminal it has.
pub open spec fn says_session(line: Seq<char>, credentials: Credentials, term: Seq<char>) -> bool {
    credential_parts(line) == Some((credentials.id@, credentials.passkey@, term)) && input_fault(
        line,
    ) is None
}

/// Whether a POSIX shell reads a command as the pipeline that hands `line` to
/// a terminal with these arguments.
pub open spec fn hands_over(
    command: Seq<char>,
    line: Seq<char>,
    program: Seq<char>,
    arguments: Seq<Seq<char>>,
) -> bool {
    reads_as(command, seq!["printf"@, "%s\\n"@, line, "|"@, program] + arguments)
}

proof fn lemma_terminal_arguments(
    line: Seq<char>,
    program: Seq<char>,
    verbose: u8,
    fifo: Option<String>,
)
    ensures
        hands_over(
            terminal_pipeline(line, program, verbose) + optional_flag(
                "--serverfifo="@,
                fifo.deep_view(),
            ),
            line,
            program,
            seq!["--verbose="@ + decimal(verbose as nat)] + router_option(fifo),
        ),
{
    let flag = "--verbose="@ + decimal(verbose as nat);
    let first = seq!["printf"@, "%s\\n"@, line, "|"@, program];
    let six = seq!["printf"@, "%s\\n"@, line, "|"@, program, flag];
    let pipeline = terminal_pipeline(line, program, verbose);
    match fifo {
        Some(path) => {
            let more = "--serverfifo="@ + path@;
            quoted_arguments_are_read_back(more, Seq::empty(), Seq::empty());
            pipelines_are_read_word_by_word(line, program, verbose, shell_quoted(more), seq![more]);
            assert(six + seq![more] =~= first + (seq![flag] + router_option(fifo)));
        },
        None => {
            pipelines_are_read_word_by_word(line, program, verbose, Seq::empty(), Seq::empty());
            assert(pipeline + optional_flag("--serverfifo="@, fifo.deep_view()) =~= pipeline);
            assert(six =~= first + (seq![flag] + router_option(fifo)));
        },
    }
}

/// What a terminal on a jumphost is told beside the options of every one.
spec fn jump_options(host: Seq<char>, port: u16) -> Seq<Seq<char>> {
    seq!["--jump"@, "--dsthost="@ + host, "--dstport="@ + decimal(port as nat)]
}

spec fn jump_text(host: Seq<char>, port: u16) -> Seq<char> {
    shell_quoted("--jump"@) + (" "@ + (shell_quoted("--dsthost="@ + host) + (" "@ + shell_quoted(
        "--dstport="@ + decimal(port as nat),
    ))))
}

proof fn lemma_jump_options(host: Seq<char>, port: u16)
    ensures
        reads_as(jump_text(host, port), jump_options(host, port)),
{
    let first = "--dsthost="@ + host;
    let second = "--dstport="@ + decimal(port as nat);
    quoted_arguments_are_read_back(second, Seq::empty(), Seq::empty());
    quoted_arguments_are_read_back(first, shell_quoted(second), seq![second]);
    let s = shell_quoted(first) + (" "@ + shell_quoted(second));
    let list = seq![first] + seq![second];
    quoted_arguments_are_read_back("--jump"@, s, list);
    assert(seq!["--jump"@] + list =~= jump_options(host, port));
}

proof fn lemma_jump_command(request: JumpBootstrapRequest, line: Seq<char>, program: Seq<char>)
    ensures
        hands_over(
            terminal_pipeline(line, program, request.verbose) + optional_flag(
                "--serverfifo="@,
                request.jump_server_fifo.deep_view(),
            ) + (" "@ + jump_text(request.destination_host@, request.destination_port)),
            line,
            program,
            seq!["--verbose="@ + decimal(request.verbose as nat)] + router_option(
                request.jump_server_fifo,
            ) + jump_options(request.destination_host@, request.destination_port),
        ),
{
    let flag = "--verbose="@ + decimal(request.verbose as nat);
    let first = seq!["printf"@, "%s\\n"@, line, "|"@, program];
    let six = seq!["printf"@, "%s\\n"@, line, "|"@, program, flag];
    let pipeline = terminal_pipeline(line, program, request.verbose);
    let s = jump_text(request.destination_host@, request.destination_port);
    let list = jump_options(request.destination_host@, request.destination_port);
    lemma_jump_options(request.destination_host@, request.destination_port);
    let fifo = optional_flag("--serverfifo="@, request.jump_server_fifo.deep_view());
    match request.jump_server_fifo {
        Some(path) => {
            let more = "--serverfifo="@ + path@;
            quoted_arguments_are_read_back(more, s, list);
            let longer = shell_quoted(more) + (" "@ + s);
            pipelines_are_read_word_by_word(
                line,
                program,
                request.verbose,
                longer,
                seq![more] + list,
            );
            assert(pipeline + fifo + (" "@ + s) =~= pipeline + (" "@ + longer));
            assert(six + (seq![more] + list) =~= first + (seq![flag] + router_option(
                request.jump_server_fifo,
            ) + list));
        },
        None => {
            pipelines_are_read_word_by_word(line, program, request.verbose, s, list);
            assert(pipeline + fifo + (" "@ + s) =~= pipeline + (" "@ + s));
            assert(six + list =~= first + (seq![flag] + router_option(request.jump_server_fifo)
                + list));
        },
    }
}

/// The command that `ssh` runs on a POSIX destination starts the terminal
/// that was asked for, with the session's own id, passkey and terminal type
/// on its input and with the options of the request.
pub proof fn destinations_get_the_session(
    request: BootstrapRequest,
    credentials: Credentials,
    invocation: SshInvocation,
)
    requires
        credentials.valid(),
        valid_term(request.term@),
        request.remote_shell == RemoteShell::Posix,
        !request.kill_other_sessions,
        call_ensures(build_invocation, (&request, &credentials), invocation),
    ensures
        invocation.args@.len() >= 2,
        exists|line: Seq<char>| #[trigger]
            says_session(line, credentials, request.term@) && hands_over(
                invocation.args@.last()@,
                line,
                program_or(request.terminal_path, "etterminal"@),
                seq!["--verbose="@ + decimal(request.verbose as nat)] + router_option(
                    request.server_fifo,
                ),
            ),
{
    let line = credential_line(credentials, request.term@);
    credential_line_reads_back(credentials, request.term@);
    assert(says_session(line, credentials, request.term@));
    let program = program_or(request.terminal_path, "etterminal"@);
    lemma_terminal_arguments(line, program, request.verbose, request.server_fifo);
    let args = invocation.args.deep_view();
    assert(args.last() == invocation.args@.last()@);
    let command = destination_command(request, credentials);
    assert(args.last() == command);
    let pipeline = terminal_pipeline(line, program, request.verbose);
    assert(Seq::<char>::empty() + pipeline =~= pipeline);
}

proof fn lemma_jump_flag()
    ensures
        " '--jump'"@ == " "@ + shell_quoted("--jump"@),
{
    reveal_strlit(" '--jump'");
    reveal_strlit("--jump");
    reveal_strlit(" ");
    reveal_with_fuel(crate::bootstrap::quotes_escaped, 8);
    assert(crate::bootstrap::quotes_escaped("--jump"@) =~= "--jump"@);
    assert(" '--jump'"@ =~= " "@ + shell_quoted("--jump"@));
}

proof fn lemma_regrouped(
    a: Seq<char>,
    b: Seq<char>,
    space: Seq<char>,
    c: Seq<char>,
    d: Seq<char>,
    e: Seq<char>,
)
    ensures
        Seq::empty() + a + b + (space + c) + space + d + space + e == a + b + (space + (c + (space
            + (d + (space + e))))),
{
    assert(Seq::empty() + a + b + (space + c) + space + d + space + e =~= a + b + (space + (c + (
    space + (d + (space + e))))));
}

/// A jumphost's command that ends no other session is its pipeline, its
/// router and its destination.
proof fn lemma_jump_shape(request: JumpBootstrapRequest, credentials: Credentials)
    requires
        !request.kill_other_sessions,
    ensures
        jump_command(request, credentials) == terminal_pipeline(
            credential_line(credentials, request.term@),
            program_or(request.terminal_path, "etterminal"@),
            request.verbose,
        ) + optional_flag("--serverfifo="@, request.jump_server_fifo.deep_view()) + (" "@
            + jump_text(request.destination_host@, request.destination_port)),
{
    let pipeline = terminal_pipeline(
        credential_line(credentials, request.term@),
        program_or(request.terminal_path, "etterminal"@),
        request.verbose,
    );
    lemma_jump_flag();
    lemma_regrouped(
        pipeline,
        optional_flag("--serverfifo="@, request.jump_server_fifo.deep_view()),
        " "@,
        shell_quoted("--jump"@),
        shell_quoted("--dsthost="@ + request.destination_host@),
        shell_quoted("--dstport="@ + decimal(request.destination_port as nat)),
    );
}

/// The command that `ssh` runs on a jumphost starts the terminal there, with
/// the session's own id, passkey and terminal type on its input, and names
/// the destination to it.
pub proof fn jumphosts_get_the_session(
    request: JumpBootstrapRequest,
    parsed: ParsedHost,
    credentials: Credentials,
    invocation: SshInvocation,
)
    requires
        credentials.valid(),
        valid_term(request.term@),
        !request.kill_other_sessions,
        call_ensures(build_jump_invocation, (&request, &parsed, &credentials), invocation),
    ensures
        invocation.args@.len() >= 2,
        exists|line: Seq<char>| #[trigger]
            says_session(line, credentials, request.term@) && hands_over(
                invocation.args@.last()@,
                line,
                program_or(request.terminal_path, "etterminal"@),
                seq!["--verbose="@ + decimal(request.verbose as nat)] + router_option(
                    request.jump_server_fifo,
                ) + seq![
                    "--jump"@,
                    "--dsthost="@ + request.destination_host@,
                    "--dstport="@ + decimal(request.destination_port as nat),
                ],
            ),
{
    let line = credential_line(credentials, request.term@);
    credential_line_reads_back(credentials, request.term@);
    assert(says_session(line, credentials, request.term@));
    let program = program_or(request.terminal_path, "etterminal"@);
    let args = invocation.args.deep_view();
    assert(args.last() == invocation.args@.last()@);
    let command = jump_command(request, credentials);
    assert(args.last() == command);
    lemma_jump_shape(request, credentials);
    lemma_jump_command(request, line, program);
}

/// Whether a text is an argument that `cmd.exe` hands on as this value.
pub open spec fn stands_for(text: Seq<char>, value: Seq<char>) -> bool {
    cmd_value(text) == Some(value)
}

/// The command that `ssh` runs under `cmd.exe` echoes the session's own id,
/// passkey and terminal type into the program that was asked for, with the
/// options of the request. A program that is not the terminal by its name is
/// told to be it.
pub proof fn windows_destinations_get_the_session(
    request: BootstrapRequest,
    credentials: Credentials,
    command: String,
)
    requires
        credentials.valid(),
        valid_term(request.term@),
        request.remote_shell == RemoteShell::Cmd,
        !request.kill_other_sessions,
        request.session_shell is None,
        request.server_fifo is None,
        call_ensures(remote_command, (&request, &credentials), command),
    ensures
        exists|line: Seq<char>, program: Seq<char>, verbose: Seq<char>|
            #[trigger] says_session(line, credentials, request.term@) && #[trigger] stands_for(
                program,
                program_or(request.terminal_path, "et.exe"@),
            ) && #[trigger] stands_for(
                verbose,
                "--verbose="@ + decimal(request.verbose as nat),
            ) && command@ == "echo "@ + line + "| "@ + program + (if names_etterminal(
                program_or(request.terminal_path, "et.exe"@),
            ) {
                " "@
            } else {
                " terminal "@
            }) + verbose,
{
    let line = credential_line(credentials, request.term@);
    credential_line_reads_back(credentials, request.term@);
    let path = program_or(request.terminal_path, "et.exe"@);
    let program = cmd_quoted(path);
    let flag = "--verbose="@ + decimal(request.verbose as nat);
    let verbose = cmd_quoted(flag);
    cmd_arguments_stand_for_their_value(path);
    cmd_arguments_stand_for_their_value(flag);
    assert(says_session(line, credentials, request.term@));
    assert(stands_for(program, path) && stands_for(verbose, flag));
    assert(" terminal "@ =~= " terminal"@ + " "@) by {
        reveal_strlit(" terminal ");
        reveal_strlit(" terminal");
        reveal_strlit(" ");
    }
    let middle = if names_etterminal(path) {
        " "@
    } else {
        " terminal "@
    };
    assert(command@ =~= "echo "@ + line + "| "@ + program + middle + verbose);
}

/// A session shell is set, and other sessions are ended, before the terminal
/// starts; a router's path is one more argument behind the others.
pub proof fn windows_commands_add_up(
    request: BootstrapRequest,
    credentials: Credentials,
    shell: String,
    fifo: String,
    full: String,
    plain: String,
)
    requires
        request.remote_shell == RemoteShell::Cmd,
        call_ensures(
            remote_command,
            (
                &BootstrapRequest {
                    kill_other_sessions: true,
                    session_shell: Some(shell),
                    server_fifo: Some(fifo),
                    ..request
                },
                &credentials,
            ),
            full,
        ),
        call_ensures(
            remote_command,
            (
                &BootstrapRequest {
                    kill_other_sessions: false,
                    session_shell: None,
                    server_fifo: None,
                    ..request
                },
                &credentials,
            ),
            plain,
        ),
    ensures
        exists|argument: Seq<char>| #[trigger]
            stands_for(argument, "--serverfifo="@ + fifo@) && full@ == "set \"ET_SHELL="@ + shell@
                + "\" & "@ + "taskkill /F /FI \"USERNAME eq %USERNAME%\" /IM et.exe >nul 2>&1 & "@
                + plain@ + " "@ + argument,
{
    let argument = cmd_quoted("--serverfifo="@ + fifo@);
    cmd_arguments_stand_for_their_value("--serverfifo="@ + fifo@);
    assert(stands_for(argument, "--serverfifo="@ + fifo@));
    let end = plain@ + " "@ + argument;
    assert(full@ =~= "set \"ET_SHELL="@ + shell@ + "\" & "@
        + "taskkill /F /FI \"USERNAME eq %USERNAME%\" /IM et.exe >nul 2>&1 & "@ + plain@ + " "@
        + argument);
}

/// Text that is echoed under `cmd.exe` holds nothing that it would take for
/// syntax, and everything that a terminal accepts can be echoed.
pub proof fn echoed_text_is_no_syntax(value: Seq<char>)
    ensures
        survives_cmd(value) ==> !value.contains('&') && !value.contains('|') && !value.contains('<')
            && !value.contains('>') && !value.contains('^') && !value.contains('%')
            && !value.contains('"') && !value.contains(' ') && !value.contains('\n')
            && !value.contains('!') && value.len() > 0,
        valid_id(value) || valid_passkey(value) || valid_term(value) ==> survives_cmd(value),
{
    if survives_cmd(value) {
        assert forall|i: int| 0 <= i < value.len() implies survives_cmd_char(value[i]) by {}
    }
    if valid_term(value) {
        assert forall|i: int| 0 <= i < value.len() implies survives_cmd_char(
            #[trigger] value[i],
        ) by {
            assert(term_char(value[i]));
        }
    }
    if valid_id(value) || valid_passkey(value) {
        assert forall|i: int| 0 <= i < value.len() implies survives_cmd_char(
            #[trigger] value[i],
        ) by {
            assert(is_alphanumeric(value[i]));
        }
    }
}

/// A line of an id, a slash, a passkey, an underscore and a terminal type
/// stands for these three, also where the type has underscores of its own.
pub proof fn session_lines_are_read(
    value: &str,
    id: Seq<char>,
    passkey: Seq<char>,
    term: Seq<char>,
    r: Result<CredentialInput, String>,
)
    requires
        call_ensures(parse_credential_input, (value,), r),
        valid_id(id) && valid_passkey(passkey),
        value@ == id + (seq!['/'] + (passkey + (seq!['_'] + term))),
    ensures
        r is Ok <==> valid_term(term),
        r matches Ok(input) ==> input.id@ == id && input.passkey@ == passkey && input.term@ == term,
{
    let j = id.len() as int;
    let k = j + 1 + passkey.len();
    let credentials = value@.take(k);
    assert forall|i: int| 0 <= i < k implies value@[i] != '_' by {
        if i < j {
            assert(value@[i] == id[i]);
        } else if i > j {
            assert(value@[i] == passkey[i - j - 1]);
        }
    }
    assert(value@[k] == '_');
    lemma_first_index(value@, '_', k);
    assert forall|i: int| 0 <= i < j implies credentials[i] != '/' by {
        assert(credentials[i] == id[i]);
    }
    assert(credentials[j] == '/');
    lemma_first_index(credentials, '/', j);
    assert(credentials.take(j) =~= id);
    assert(credentials.skip(j + 1) =~= passkey);
    assert(value@.skip(k + 1) =~= term);
}

} // verus!
