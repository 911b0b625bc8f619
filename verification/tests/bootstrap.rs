use et::bootstrap::{
    append_operational_options, append_ssh_config_flag, build_invocation, build_jump_invocation,
    build_shell_probe, cmd_quote, cmd_safe, credential_input, destination_of, is_option_like,
    is_valid_id, is_valid_passkey, option_has_key, parse_id_passkey, parse_shell_probe, port_text,
    provisional_credentials, shell_from_probe, shell_quote, strip_brackets, terminal_is_etterminal,
    validate_credentials, validate_ssh_destination, BootstrapRequest, Credentials,
    InvocationCompletion, JumpBootstrapRequest, ParsedHost, RemoteShell, SshInvocation,
};
use et::error::ClientError;

fn request() -> BootstrapRequest {
    BootstrapRequest {
        user: Some("alice".into()),
        host_alias: "server".into(),
        jumphost: None,
        terminal_path: None,
        server_fifo: None,
        kill_other_sessions: false,
        verbose: 2,
        ssh_options: vec!["Port=2222".into()],
        ssh_config: None,
        term: "xterm-256color".into(),
        remote_shell: RemoteShell::Posix,
        session_shell: None,
    }
}

fn credentials() -> Credentials {
    Credentials {
        id: "XXXdefghijklmnop".into(),
        passkey: "ABCDEFGHIJKLMNOPQRSTUVWXYZabcdef".into(),
    }
}

fn provisional() -> Credentials {
    provisional_credentials("abcdefghijklmnop", "ABCDEFGHIJKLMNOPQRSTUVWXYZabcdef".into()).unwrap()
}

fn parsed(user: &str, host: &str, port_suffix: &str) -> ParsedHost {
    ParsedHost {
        user: user.into(),
        host: host.into(),
        port_suffix: port_suffix.into(),
    }
}

fn jump_request(jumphost: &str) -> JumpBootstrapRequest {
    JumpBootstrapRequest {
        jumphost: jumphost.into(),
        destination_host: "destination.example".into(),
        destination_port: 2022,
        jump_server_fifo: None,
        terminal_path: None,
        kill_other_sessions: false,
        verbose: 0,
        ssh_options: Vec::new(),
        ssh_config: None,
        term: "xterm-256color".into(),
    }
}

fn assert_clear_all_forwardings_once(invocation: &SshInvocation) {
    assert_eq!(
        invocation
            .args
            .iter()
            .filter(|argument| argument.as_str() == "-oClearAllForwardings=yes")
            .count(),
        1,
        "operational SSH argv must suppress configured forwarding exactly once: {:?}",
        invocation.args
    );
}

#[test]
fn ssh_config_hardening_destination_bootstrap_suppresses_forwardings() {
    let mut request = request();
    request.ssh_options.extend([
        "ClearAllForwardings=no".to_owned(),
        "clearallforwardings NO".to_owned(),
        "CLEARALLFORWARDINGS = no".to_owned(),
    ]);
    let invocation = build_invocation(&request, &provisional());

    assert_clear_all_forwardings_once(&invocation);
    let suppression = invocation
        .args
        .iter()
        .position(|argument| argument == "-oClearAllForwardings=yes")
        .unwrap();
    let destination = invocation
        .args
        .iter()
        .position(|argument| argument == "alice@server")
        .unwrap();
    assert!(suppression < destination);
    assert!(!invocation.args.iter().any(|argument| {
        argument
            .trim_start_matches("-o")
            .split(['=', ' ', '\t'])
            .next()
            .is_some_and(|key| key.eq_ignore_ascii_case("ClearAllForwardings"))
            && argument != "-oClearAllForwardings=yes"
    }));
}

#[test]
fn ssh_config_hardening_shell_probe_suppresses_forwardings() {
    let invocation = build_shell_probe(&request());

    assert_clear_all_forwardings_once(&invocation);
}

#[test]
fn ssh_config_hardening_direct_jumphost_suppresses_forwardings() {
    let request = jump_request("jump.example");
    let invocation = build_jump_invocation(&request, &parsed("", "jump.example", ""), &provisional());

    assert_clear_all_forwardings_once(&invocation);
}

#[test]
fn builds_upstream_ssh_shape() {
    let invocation = build_invocation(&request(), &credentials());
    assert_eq!(invocation.program, "ssh");
    assert_eq!(
        invocation.args[0..3],
        ["-oClearAllForwardings=yes", "-oPort=2222", "alice@server"]
    );
    assert_eq!(
        invocation.args[3],
        "printf '%s\\n' 'XXXdefghijklmnop/ABCDEFGHIJKLMNOPQRSTUVWXYZabcdef_xterm-256color' | 'etterminal' '--verbose=2'"
    );
}

#[test]
fn jumphost_uses_ssh_proxyjump_flag() {
    let mut req = request();
    req.jumphost = Some("jump.example,user@hop2".into());
    let invocation = build_invocation(&req, &credentials());
    assert_eq!(
        invocation.args[0..5],
        [
            "-J",
            "jump.example,user@hop2",
            "-oClearAllForwardings=yes",
            "-oPort=2222",
            "alice@server",
        ]
    );
}

#[test]
fn shell_probe_has_no_credentials_and_uses_cmd_sentinel() {
    let credentials = credentials();
    let invocation = build_shell_probe(&request());
    let command = invocation.args.last().unwrap();
    assert_eq!(command, "echo __ET_COMSPEC__%ComSpec%");
    assert!(!command.contains(&credentials.id));
    assert!(!command.contains(&credentials.passkey));
    assert!(invocation.args.iter().any(|arg| arg == "-oLogLevel=ERROR"));
    assert_eq!(invocation.operation, "detecting the remote login shell");
}

#[test]
fn shell_probe_parser_requires_exact_sentinel_line() {
    assert_eq!(
        parse_shell_probe(b"banner\r\n__ET_COMSPEC__C:\\Windows\\System32\\cmd.exe\r\n").unwrap(),
        RemoteShell::Cmd
    );
    assert_eq!(
        parse_shell_probe(b"__ET_COMSPEC__%ComSpec%\n").unwrap(),
        RemoteShell::Posix
    );
    assert!(matches!(
        parse_shell_probe(b"__ET_COMSPEC__powershell\n"),
        Err(ClientError::Unsupported(_))
    ));
    assert!(matches!(
        parse_shell_probe(b"__ET_COMSPEC__C:\\Windows\\System32\\cmd.exe"),
        Err(ClientError::Unsupported(_))
    ));
}

#[test]
fn quotes_every_remote_shell_input() {
    let mut request = request();
    request.user = Some("a'; touch user; echo '".into());
    request.term = "x'; touch term; echo '".into();
    request.terminal_path = Some("/bin/e'; touch path; echo '".into());
    request.server_fifo = Some("/tmp/f'; touch fifo; echo '".into());
    request.kill_other_sessions = true;
    let command = build_invocation(&request, &provisional()).args.pop().unwrap();
    for injected in ["user", "term", "path", "fifo"] {
        assert!(command.contains(&format!("touch {injected}")));
    }
    assert_eq!(command.matches("'\"'\"'").count(), 8);
}

#[test]
fn parses_marker_after_banner_and_validates_material() {
    let stdout = b"banner\nIDPASSKEY:abcdefghijklmnop/ABCDEFGHIJKLMNOPQRSTUVWXYZabcdef\n";
    let credentials = parse_id_passkey(stdout).unwrap();
    assert_eq!(credentials.id, "abcdefghijklmnop");
    assert_eq!(credentials.passkey, "ABCDEFGHIJKLMNOPQRSTUVWXYZabcdef");
}

#[test]
fn classifies_marker_and_credential_errors() {
    assert!(matches!(
        parse_id_passkey(b"banner"),
        Err(ClientError::MissingIdPasskeyMarker)
    ));
    assert!(matches!(
        parse_id_passkey(b"IDPASSKEY:short"),
        Err(ClientError::MalformedIdPasskeyMarker)
    ));
    assert!(matches!(
        parse_id_passkey(b"IDPASSKEY:abcdefghijklmno!/ABCDEFGHIJKLMNOPQRSTUVWXYZabcdef"),
        Err(ClientError::InvalidSessionId)
    ));
    assert!(matches!(
        parse_id_passkey(b"IDPASSKEY:abcdefghijklmnop/ABCDEFGHIJKLMNOPQRSTUVWXYZabcde!"),
        Err(ClientError::InvalidPasskey)
    ));
}

#[test]
fn cmd_bootstrap_uses_echo_and_double_quotes() {
    let credentials = credentials();
    let mut request = request();
    request.remote_shell = RemoteShell::Cmd;
    request.terminal_path = None;
    request.server_fifo = Some("C:\\Users\\me\\router".into());
    let command = build_invocation(&request, &credentials).args.pop().unwrap();
    assert_eq!(
        command,
        "echo XXXdefghijklmnop/ABCDEFGHIJKLMNOPQRSTUVWXYZabcdef_xterm-256color| \"et.exe\" terminal \"--verbose=2\" \"--serverfifo=C:\\Users\\me\\router\""
    );
    assert!(!command.contains('\''));

    request.terminal_path = Some("C:\\tools\\etterminal.exe".into());
    let command = build_invocation(&request, &credentials).args.pop().unwrap();
    assert!(!command.contains(" terminal \""), "{command}");
}

#[test]
fn cmd_bootstrap_exports_requested_session_shell() {
    let mut request = request();
    request.remote_shell = RemoteShell::Cmd;
    request.session_shell = Some("powershell.exe".to_owned());
    let command = build_invocation(&request, &credentials()).args.pop().unwrap();
    assert_eq!(
        command,
        "set \"ET_SHELL=powershell.exe\" & echo XXXdefghijklmnop/ABCDEFGHIJKLMNOPQRSTUVWXYZabcdef_xterm-256color| \"et.exe\" terminal \"--verbose=2\""
    );
}

#[test]
fn cmd_safe_rejects_shell_metacharacters() {
    assert!(cmd_safe("XXXabc/DEF_xterm-256color"));
    assert!(!cmd_safe("bad&echo"));
    assert!(!cmd_safe("bad|echo"));
    assert!(!cmd_safe("bad>file"));
    assert!(!cmd_safe(""));
}

#[test]
fn jump_bootstrap_matches_upstream_command_shape() {
    let request = JumpBootstrapRequest {
        jumphost: "user@jump.example:2200".into(),
        destination_host: "dst.internal".into(),
        destination_port: 9901,
        jump_server_fifo: Some("/tmp/jump.fifo".into()),
        terminal_path: None,
        kill_other_sessions: false,
        verbose: 1,
        ssh_options: vec!["StrictHostKeyChecking=no".into()],
        ssh_config: None,
        term: "xterm-256color".into(),
    };
    let invocation =
        build_jump_invocation(&request, &parsed("user", "jump.example", ":2200"), &credentials());
    assert_eq!(
        invocation.args[0..5],
        [
            "-p",
            "2200",
            "-oClearAllForwardings=yes",
            "-oStrictHostKeyChecking=no",
            "user@jump.example"
        ]
    );
    let command = &invocation.args[5];
    assert!(command.contains("'--serverfifo=/tmp/jump.fifo'"));
    assert!(command.contains("'--jump'"));
    assert!(command.contains("'--dsthost=dst.internal'"));
    assert!(command.contains("'--dstport=9901'"));
}

#[test]
fn jump_bootstrap_quotes_injection_attempts() {
    let request = JumpBootstrapRequest {
        jumphost: "jump".into(),
        destination_host: "d'; touch dst; echo '".into(),
        destination_port: 2022,
        jump_server_fifo: Some("/tmp/f'; touch fifo; echo '".into()),
        terminal_path: None,
        kill_other_sessions: false,
        verbose: 0,
        ssh_options: Vec::new(),
        ssh_config: None,
        term: "xterm".into(),
    };
    let command = build_jump_invocation(&request, &parsed("", "jump", ""), &provisional())
        .args
        .pop()
        .unwrap();
    assert!(command.contains("touch dst"));
    assert!(command.contains("touch fifo"));
    assert_eq!(command.matches("'\"'\"'").count(), 4);
}

#[test]
fn provisional_id_has_exact_legacy_prefix() {
    let credentials = provisional();
    assert_eq!(credentials.id.len(), 16);
    assert!(credentials.id.starts_with("XXX"));
    assert_eq!(credentials.passkey.len(), 32);
}

#[test]
fn leading_hyphen_cannot_become_an_ssh_option() {
    assert!(matches!(
        validate_ssh_destination("-oProxyCommand=bad", None),
        Err(ClientError::InvalidSshComponent("host"))
    ));
    assert!(matches!(
        validate_ssh_destination("host", Some("-oProxyCommand=bad")),
        Err(ClientError::InvalidSshComponent("user"))
    ));
}

#[test]
fn plain_destinations_are_accepted() {
    assert!(validate_ssh_destination("host", None).is_ok());
    assert!(validate_ssh_destination("host", Some("alice")).is_ok());
    assert!(is_option_like("-p"));
    assert!(!is_option_like("p-"));
}

#[test]
fn provisional_material_is_checked() {
    assert!(matches!(
        provisional_credentials("abc", "ABCDEFGHIJKLMNOPQRSTUVWXYZabcdef".into()),
        Err(ClientError::InvalidSessionId)
    ));
    assert!(matches!(
        provisional_credentials("abcdefghijklmnop", "short".into()),
        Err(ClientError::InvalidPasskey)
    ));
    assert_eq!(provisional().id, "XXXdefghijklmnop");
}

#[test]
fn credential_material_is_alphanumeric_of_exact_length() {
    assert!(is_valid_id("abcdefghijklmnop"));
    assert!(!is_valid_id("abcdefghijklmno"));
    assert!(!is_valid_id("abcdefghijklmno-"));
    assert!(is_valid_passkey("ABCDEFGHIJKLMNOPQRSTUVWXYZabcdef"));
    assert!(!is_valid_passkey("ABCDEFGHIJKLMNOPQRSTUVWXYZabcde"));
    assert_eq!(validate_credentials(credentials()).unwrap(), credentials());
    assert_eq!(
        credential_input(&credentials(), "xterm"),
        "XXXdefghijklmnop/ABCDEFGHIJKLMNOPQRSTUVWXYZabcdef_xterm"
    );
}

#[test]
fn quoting_is_exact() {
    assert_eq!(shell_quote("a'b"), "'a'\"'\"'b'");
    assert_eq!(shell_quote(""), "''");
    assert_eq!(cmd_quote("a\"b"), "\"a\"\"b\"");
}

#[test]
fn control_options_are_dropped_and_the_rest_prefixed() {
    let mut args = vec!["-J".to_string()];
    append_operational_options(
        &mut args,
        &vec!["Port=1".to_string(), "clearallforwardings=no".to_string()],
    );
    assert_eq!(args, ["-J", "-oClearAllForwardings=yes", "-oPort=1"]);
    assert!(option_has_key("LogLevel=ERROR", "loglevel"));
    assert!(!option_has_key("LogLevels=ERROR", "loglevel"));
    let mut args: Vec<String> = Vec::new();
    append_ssh_config_flag(&mut args, Some("/etc/ssh.conf"));
    append_ssh_config_flag(&mut args, None);
    assert_eq!(args, ["-F", "/etc/ssh.conf"]);
}

#[test]
fn destinations_and_ports_are_spelled_out() {
    assert_eq!(destination_of(Some("bob"), "h"), "bob@h");
    assert_eq!(destination_of(None, "h"), "h");
    assert_eq!(strip_brackets("[::1]"), "::1");
    assert_eq!(strip_brackets("host"), "host");
    assert_eq!(port_text(&parsed("", "h", ":22")).as_deref(), Some("22"));
    assert_eq!(port_text(&parsed("", "h", "")), None);
    assert!(terminal_is_etterminal("/usr/bin/etterminal"));
    assert!(!terminal_is_etterminal("/usr/bin/et"));
}

#[test]
fn invocations_say_when_they_are_complete() {
    assert_eq!(
        build_invocation(&request(), &credentials()).completion,
        InvocationCompletion::Credentials
    );
    assert_eq!(
        build_shell_probe(&request()).completion,
        InvocationCompletion::ShellProbe
    );
    assert_eq!(RemoteShell::default(), RemoteShell::Posix);
}

#[test]
fn probe_bytes_that_are_not_text_spoil_only_their_line() {
    assert!(matches!(
        parse_shell_probe(b"\xff__ET_COMSPEC__%ComSpec%\n"),
        Err(ClientError::Unsupported(_))
    ));
    assert_eq!(
        parse_shell_probe(b"\xff\n__ET_COMSPEC__%ComSpec%\n").unwrap(),
        RemoteShell::Posix
    );
    assert_eq!(
        shell_from_probe("__ET_COMSPEC__%ComSpec%\n").unwrap(),
        RemoteShell::Posix
    );
}

#[test]
fn probes_are_read_behind_any_number_of_lines() {
    let mut output = vec![b'\n'; 900_000];
    output.extend_from_slice(b"__ET_COMSPEC__%ComSpec%\n");
    assert_eq!(parse_shell_probe(&output).unwrap(), RemoteShell::Posix);
    assert!(parse_shell_probe(&vec![b'\n'; 900_000]).is_err());
    assert_eq!(
        parse_shell_probe(b"caf\xc3\xa9 \xff\n__ET_COMSPEC__cmd.exe\n").unwrap(),
        RemoteShell::Cmd
    );
}
