use std::sync::Mutex;
use std::time::Duration;

use et::bootstrap::SshInvocation;
use et::deadline::Deadline;
use et::error::ClientError;
use et::forward::{PortForwardSourceRequest, SocketEndpoint};
use et::ssh_config::{
    conclude_ssh_config, config_query, is_absolute_ssh_config_path,
    is_ssh_config_path_safe_for_proxy_jump, needs_baseline, parse_forward, parse_port,
    parse_ssh_config, parse_tcp_endpoint, parse_unix_endpoint, parse_yes_no, resolve_ssh_config,
    resolve_ssh_config_on_port, session_warnings, skipped_forward_warnings,
    unsupported_dynamic_forwards, validate_ssh_config_file, verify_setenv_block, ConfigFileState,
    ForwardPolicies, GatewayPorts, ResolvedSshConfig, SkipReport, SshConfigQuery,
    StreamLocalBindPolicy, MAX_UNIX_SOCKET_PATH,
};
use et::ssh_process::{ExitStatus, SshOutput, SshRunner};

fn success_status() -> ExitStatus {
    ExitStatus { code: Some(0) }
}

fn request(
    source_name: &str,
    source_port: Option<i32>,
    destination_name: &str,
    destination_port: Option<i32>,
) -> PortForwardSourceRequest {
    PortForwardSourceRequest {
        source: Some(SocketEndpoint {
            name: Some(source_name.to_owned()),
            port: source_port,
        }),
        destination: Some(SocketEndpoint {
            name: Some(destination_name.to_owned()),
            port: destination_port,
        }),
        environmentvariable: None,
    }
}

fn characters(text: &str) -> Vec<char> {
    text.chars().collect()
}

struct FakeRunner {
    stdout: Vec<u8>,
}

impl SshRunner for FakeRunner {
    fn run(&self, invocation: &SshInvocation, _: Deadline) -> Result<SshOutput, ClientError> {
        assert_eq!(
            invocation.args,
            ["-G", "-T", "-oPort=2222", "requested@server-alias"]
        );
        Ok(SshOutput {
            status: Some(success_status()),
            stdout: self.stdout.clone(),
        })
    }
}

struct VerifyingRunner {
    calls: Mutex<usize>,
    deadline: Deadline,
}

impl SshRunner for VerifyingRunner {
    fn run(
        &self,
        invocation: &SshInvocation,
        deadline: Deadline,
    ) -> Result<SshOutput, ClientError> {
        assert_eq!(deadline.expires_at(), self.deadline.expires_at());
        let mut calls = self.calls.lock().unwrap();
        let output = if *calls == 0 {
            assert_eq!(invocation.args, ["-G", "-T", "-oSetEnv=A=user", "host"]);
            "hostname host\nsetenv A=user\n"
        } else {
            assert_eq!(
                invocation.args,
                [
                    "-G",
                    "-T",
                    "-oSetEnv=ET_RS_CONFIG_SENTINEL=1",
                    "-oSetEnv=A=user",
                    "host"
                ]
            );
            "hostname host\nsetenv ET_RS_CONFIG_SENTINEL=1\n"
        };
        *calls += 1;
        Ok(SshOutput {
            status: Some(success_status()),
            stdout: output.as_bytes().to_vec(),
        })
    }
}

struct PortCapturingRunner {
    args: Mutex<Vec<String>>,
}

impl SshRunner for PortCapturingRunner {
    fn run(&self, invocation: &SshInvocation, _: Deadline) -> Result<SshOutput, ClientError> {
        self.args.lock().unwrap().clone_from(&invocation.args);
        // `ssh -G` reports the port it resolved, which is that of `-p` where one is given.
        let port = invocation
            .args
            .iter()
            .position(|arg| arg == "-p")
            .and_then(|index| invocation.args.get(index + 1))
            .map_or("22", String::as_str);
        Ok(SshOutput {
            status: Some(success_status()),
            stdout: format!("host jump-alias\nuser config-user\nhostname 127.0.0.1\nport {port}\n")
                .into_bytes(),
        })
    }
}

struct CapturingRunner {
    args: Mutex<Vec<String>>,
}

impl SshRunner for CapturingRunner {
    fn run(&self, invocation: &SshInvocation, _: Deadline) -> Result<SshOutput, ClientError> {
        self.args.lock().unwrap().clone_from(&invocation.args);
        Ok(SshOutput {
            status: Some(success_status()),
            stdout: b"host alias\nhostname 127.0.0.1\nport 22\n".to_vec(),
        })
    }
}

/// Answers as `ssh -G` does: the environment rows that the options ask for are printed raw, and
/// an option in front of another wins.
struct PrintingRunner {
    rows: String,
}

impl SshRunner for PrintingRunner {
    fn run(&self, invocation: &SshInvocation, _: Deadline) -> Result<SshOutput, ClientError> {
        let baseline = invocation
            .args
            .iter()
            .any(|arg| arg == "-oSetEnv=ET_RS_CONFIG_SENTINEL=1");
        let rows = if baseline {
            "setenv ET_RS_CONFIG_SENTINEL=1\n"
        } else {
            self.rows.as_str()
        };
        Ok(SshOutput {
            status: Some(success_status()),
            stdout: format!("host example.test\nhostname example.test\nport 22\n{rows}forwardagent no\n")
                .into_bytes(),
        })
    }
}

#[test]
fn ssh_config_hardening_query_does_not_suppress_forwardings() {
    let runner = FakeRunner {
        stdout: b"host server-alias\nuser config-user\nhostname 127.0.0.1\nport 22\n".to_vec(),
    };
    let resolved = resolve_ssh_config(
        &runner,
        "server-alias",
        Some("requested"),
        &["Port=2222".to_string()],
        None,
        true,
        false,
        Deadline::after(Duration::from_secs(1)),
    )
    .unwrap();
    assert_eq!(
        resolved,
        ResolvedSshConfig {
            hostname: "127.0.0.1".to_string(),
            user: Some("config-user".to_string()),
            port: 22,
            exit_on_forward_failure: false,
            local_forwards: Vec::new(),
            ..Default::default()
        }
    );
}

#[test]
fn effective_environment_rows_are_not_shell_words() {
    let config = parse_ssh_config(b"hostname host\nsetenv A=two words  \nsetenv B=a=b\nsetenv EMPTY=\nsetenv Q=\"quote\"\\literal\nsetenv A=ignored\nforwardagent yes\nidentityagent /tmp/agent space\nproxyjump user@[::1]:2222\n", true, false).unwrap();
    assert_eq!(
        config.set_env,
        [
            ("A".into(), "two words  ".into()),
            ("B".into(), "a=b".into()),
            ("EMPTY".into(), "".into()),
            ("Q".into(), "\"quote\"\\literal".into()),
        ]
    );
    assert!(config.forward_agent);
    assert_eq!(config.identity_agent.as_deref(), Some("/tmp/agent space"));
    assert_eq!(config.proxy_jump.as_deref(), Some("user@[::1]:2222"));
    let disabled = parse_ssh_config(
        b"hostname host\nforwardagent no\nidentityagent none\nproxyjump none\n",
        true,
        false,
    )
    .unwrap();
    assert!(!disabled.forward_agent);
    assert_eq!(disabled.identity_agent.as_deref(), Some("none"));
    assert_eq!(disabled.proxy_jump, None);
    let spaced = parse_ssh_config(
        b"hostname host\nidentityagent  /tmp/agent \nsetenv A= leading and trailing \n",
        true,
        false,
    )
    .unwrap();
    assert_eq!(spaced.identity_agent.as_deref(), Some(" /tmp/agent "));
    assert_eq!(
        spaced.set_env,
        [("A".into(), " leading and trailing ".into())]
    );
}

#[test]
fn effective_environment_rejects_invalid_names_values_and_agent_modes() {
    for row in [
        "setenv NO_EQUALS",
        "setenv =empty",
        "setenv BAD-NAME=x",
        "setenv 1NAME=x",
        "setenv A=nul\0value",
        "forwardagent /tmp/agent",
        "forwardagent yes extra",
    ] {
        assert!(
            parse_ssh_config(format!("hostname host\n{row}\n").as_bytes(), true, false).is_err(),
            "{row:?}"
        );
    }
    for (length, accepted) in [(4096, true), (4097, false)] {
        let output = format!("hostname host\nsetenv A={}\n", "x".repeat(length));
        assert_eq!(parse_ssh_config(output.as_bytes(), true, false).is_ok(), accepted);
    }
}

#[test]
fn jump_address_lookup_does_not_import_relay_session_settings() {
    let relay = parse_ssh_config(b"hostname relay\nuser relay-user\nport 2222\nforwardagent /tmp/relay-agent\nidentityagent $RELAY_AGENT\nsetenv BAD-NAME=relay-only\nproxyjump nested\n", false, false).unwrap();
    assert_eq!(relay.hostname, "relay");
    assert_eq!(relay.port, 2222);
    assert_eq!(relay.user.as_deref(), Some("relay-user"));
    assert!(!relay.forward_agent);
    assert!(relay.set_env.is_empty());
    assert!(relay.proxy_jump.is_none());
    assert!(relay.identity_agent.is_none());
}

#[test]
fn setenv_block_cannot_change_other_config_and_preserves_framing() {
    let baseline = b"hostname real\nsetenv ET_RS_CONFIG_SENTINEL=1\nforwardagent no\n";
    for injected in [
        "hostname evil\n",
        "proxyjump evil\n",
        "forwardagent yes\n",
        "unknown value\n",
        "\n",
        "setenv A=x\nforwardagent no\nsetenv B=y\n",
    ] {
        let original = format!("hostname real\nsetenv A=hello\n{injected}forwardagent no\n");
        assert!(
            verify_setenv_block(original.as_bytes(), baseline).is_err(),
            "{injected:?}"
        );
    }
    for newline in ["\n", "\r\n"] {
        let original = format!("hostname real{newline}setenv A= hello ={newline}setenv EMPTY={newline}forwardagent no{newline}");
        let baseline = String::from_utf8(baseline.to_vec())
            .unwrap()
            .replace('\n', newline);
        verify_setenv_block(original.as_bytes(), baseline.as_bytes()).unwrap();
        assert!(verify_setenv_block(
            original
                .replace("hostname real", "hostname changed")
                .as_bytes(),
            baseline.as_bytes()
        )
        .is_err());
    }
    assert!(
        verify_setenv_block(b"hostname real\nsetenv A=x\ny\nforwardagent no\n", baseline)
            .is_err()
    );
    // Raw ssh -G cannot distinguish two assignments from a newline that
    // spells another SetEnv row. Such output is confined to environment.
    verify_setenv_block(
        b"hostname real\nsetenv A=x\nsetenv B=y\nforwardagent no\n",
        baseline,
    )
    .unwrap();
    assert!(verify_setenv_block(baseline, b"hostname real\n").is_err());
    assert!(verify_setenv_block(
        baseline,
        b"setenv ET_RS_CONFIG_SENTINEL=1\nsetenv EXTRA=2\n"
    )
    .is_err());
}

#[test]
fn explicit_port_reaches_the_config_query_and_the_resolved_port() {
    let runner = PortCapturingRunner {
        args: Mutex::new(Vec::new()),
    };
    let resolved = resolve_ssh_config_on_port(
        &runner,
        SshConfigQuery {
            host_alias: "jump-alias",
            requested_user: None,
            explicit_port: Some(2200),
            ssh_options: &[],
            ssh_config: None,
            parse_local_forwards: false,
            windows: false,
        },
        Deadline::after(Duration::from_secs(1)),
    )
    .unwrap();
    let args = runner.args.lock().unwrap().clone();
    assert!(
        args.windows(2).any(|pair| pair == ["-p", "2200"]),
        "explicit port must be passed to `ssh -G`: {args:?}"
    );
    assert_eq!(
        resolved.port, 2200,
        "resolved port must honour the explicit port, not the default"
    );
}

#[test]
fn strict_exit_policy_ignores_unix_destination_pseudo_dynamic_row() {
    let resolved = parse_ssh_config(
        b"hostname host\nexitonforwardfailure yes\n\
          dynamicforward 15002\nlocalforward 15002 /tmp/destination.sock\n",
        true,
        false,
    )
    .unwrap();

    assert_eq!(resolved.local_forwards.len(), 1);
    assert!(resolved.exit_on_forward_failure);
}

#[test]
fn strict_exit_policy_skips_unsupported_requested_rows() {
    let resolved = parse_ssh_config(
        b"hostname host\nexitonforwardfailure yes\n\
          dynamicforward 1080\n\
          localforward relative/source.sock /tmp/destination.sock\n\
          localforward 10022 localhost:22\n",
        true,
        false,
    )
    .unwrap();

    assert!(resolved.exit_on_forward_failure);
    assert_eq!(
        resolved.local_forwards,
        [request("localhost", Some(10022), "localhost", Some(22))]
    );
}

#[test]
fn dynamic_forward_classifier_consumes_unix_destination_pseudo_rows_as_a_multiset() {
    let config = "hostname host\n\
        dynamicforward 15002\n\
        localforward 15002 /tmp/tcp-destination.sock\n\
        dynamicforward /tmp/unix-source.sock\n\
        localforward /tmp/unix-source.sock /tmp/unix-destination.sock\n\
        dynamicforward 1080\n";

    assert_eq!(unsupported_dynamic_forwards(config), ["1080"]);
}

#[test]
fn malformed_and_option_like_values_are_rejected() {
    assert!(matches!(
        parse_ssh_config(b"user somebody\n", true, false),
        Err(ClientError::SshConfigMalformed("hostname"))
    ));
    assert!(matches!(
        parse_ssh_config(b"hostname host\nuser -oProxyCommand=bad\n", true, false),
        Err(ClientError::InvalidSshComponent("user"))
    ));
}

#[test]
fn parses_exit_on_forward_failure_policy() {
    let default = parse_ssh_config(b"hostname host\n", true, false).unwrap();
    let best_effort =
        parse_ssh_config(b"hostname host\nexitonforwardfailure no\n", true, false).unwrap();
    let strict = parse_ssh_config(b"hostname host\nexitonforwardfailure yes\n", true, false).unwrap();

    assert!(!default.exit_on_forward_failure);
    assert!(!best_effort.exit_on_forward_failure);
    assert!(strict.exit_on_forward_failure);
}

#[test]
fn parses_supported_tcp_and_unix_destination_forwards() {
    let resolved = parse_ssh_config(
        b"hostname host\n\
      localforward 10022 [127.0.0.1]:22\n\
      localforward [::1]:18080 [::1]:80\n\
      localforward /tmp/local.sock /tmp/remote.sock\n\
      localforward /tmp/mixed.sock [127.0.0.1]:8080\n\
      localforward [127.0.0.1]:9090 /tmp/destination.sock\n\
      remoteforward 1492 [127.0.0.1]:1492\n",
        true,
        false,
    )
    .unwrap();

    assert_eq!(
        resolved.local_forwards,
        [
            request("localhost", Some(10022), "127.0.0.1", Some(22)),
            request("::1", Some(18080), "::1", Some(80)),
            request("/tmp/local.sock", None, "/tmp/remote.sock", None),
            request("/tmp/mixed.sock", None, "127.0.0.1", Some(8080)),
            request("127.0.0.1", Some(9090), "/tmp/destination.sock", None,),
        ]
    );
}

#[test]
fn ssh_config_hardening_clientspecified_distinguishes_omitted_and_empty_binds() {
    let resolved = parse_ssh_config(
        b"hostname host\ngatewayports clientspecified\n\
      localforward 15431 localhost:5432\n\
      localforward []:15432 localhost:5432\n\
      remoteforward 25431 localhost:5432\n\
      remoteforward []:25432 localhost:5432\n",
        true,
        false,
    )
    .unwrap();

    assert_eq!(
        resolved
            .local_forwards
            .iter()
            .map(|request| request.source.as_ref().unwrap().name.as_deref().unwrap())
            .collect::<Vec<_>>(),
        ["localhost", ""]
    );
}

#[test]
fn ssh_config_hardening_preserves_nonlocal_tcp_destinations() {
    let resolved = parse_ssh_config(
        b"hostname host\n\
      localforward 15432 db.internal:5432\n\
      localforward 15433 127.0.0.2:5432\n\
      localforward 15434 LocalHost:5432\n\
      remoteforward 25432 db.internal:5432\n\
      remoteforward 25433 [::1]:5432\n",
        true,
        false,
    )
    .unwrap();

    assert_eq!(
        resolved.local_forwards,
        [
            request("localhost", Some(15432), "db.internal", Some(5432)),
            request("localhost", Some(15433), "127.0.0.2", Some(5432)),
            request("localhost", Some(15434), "LocalHost", Some(5432)),
        ]
    );
}

#[test]
fn ssh_config_hardening_emitted_nondefault_streamlocal_policy_skips_unix_sources() {
    // Given / When
    let unlink = parse_ssh_config(
        b"hostname host\nstreamlocalbindunlink yes\n\
      localforward /tmp/source.sock /tmp/destination.sock\n\
      localforward 15433 localhost:5432\n",
        true,
        false,
    )
    .unwrap();
    // Then
    assert_eq!(
        unlink.local_forwards,
        [request("localhost", Some(15433), "localhost", Some(5432))]
    );
}

#[test]
fn ssh_config_hardening_malformed_record_remains_typed() {
    assert!(matches!(
        parse_ssh_config(
            b"hostname host\nexitonforwardfailure yes\n\
              localforward 1000 localhost:22 unexpected\n",
            true,
            false,
        ),
        Err(ClientError::SshConfigMalformedForward {
            directive: "localforward",
            reason: "expected exactly two fields",
        })
    ));
}

#[test]
fn rejects_forward_records_without_exactly_two_fields() {
    assert!(matches!(
        parse_ssh_config(b"hostname host\nlocalforward only-one\n", true, false),
        Err(ClientError::SshConfigMalformedForward {
            directive: "localforward",
            reason: "expected exactly two fields",
        })
    ));
}

#[test]
fn ssh_config_path_accepts_unix_and_windows_absolute_shapes() {
    assert!(is_absolute_ssh_config_path("/etc/et/ssh_config"));
    assert!(is_absolute_ssh_config_path(r"C:\Users\me\.ssh\config"));
    assert!(is_absolute_ssh_config_path(r"C:/Users/me/.ssh/config"));
    assert!(is_absolute_ssh_config_path(r"\\server\share\config"));
    assert!(!is_absolute_ssh_config_path("relative/config"));
    assert!(!is_absolute_ssh_config_path("./config"));
    assert!(!is_absolute_ssh_config_path("none"));
}

#[test]
fn ssh_config_path_rejects_shell_unsafe_and_relative_names() {
    assert!(is_ssh_config_path_safe_for_proxy_jump("/etc/et/ssh_config"));
    assert!(is_ssh_config_path_safe_for_proxy_jump(
        r"C:\Users\me\.ssh\config"
    ));
    assert!(!is_ssh_config_path_safe_for_proxy_jump("relative"));
    assert!(!is_ssh_config_path_safe_for_proxy_jump("/tmp/et config"));
    assert!(!is_ssh_config_path_safe_for_proxy_jump("/tmp/et;id"));
    assert!(!is_ssh_config_path_safe_for_proxy_jump("/tmp/et$(id)"));
    assert!(!is_ssh_config_path_safe_for_proxy_jump("/tmp/et`id`"));
    assert!(!is_ssh_config_path_safe_for_proxy_jump("/tmp/et\"quote\""));
}

#[test]
fn setenv_verification_uses_original_deadline_and_prepends_override() {
    let deadline = Deadline::after(Duration::from_secs(3));
    let runner = VerifyingRunner {
        calls: Mutex::new(0),
        deadline,
    };
    let resolved = resolve_ssh_config(
        &runner,
        "host",
        None,
        &["SetEnv=A=user".into()],
        None,
        true,
        false,
        deadline,
    )
    .unwrap();
    assert_eq!(*runner.calls.lock().unwrap(), 2);
    assert_eq!(resolved.set_env, [("A".into(), "user".into())]);
}

#[test]
fn real_openssh_multiline_setenv_cannot_inject_routing() {
    for value in [
        "hello\nhostname injected.example",
        "hello\nproxyjump evil",
        "hello\nforwardagent yes",
        "hello\nunknown value",
        "hello\rvalue",
    ] {
        let error = resolve_ssh_config(
            &PrintingRunner {
                rows: format!("setenv A={value}\n"),
            },
            "example.test",
            None,
            &[format!("SetEnv=\"A={value}\"")],
            None,
            true,
            false,
            Deadline::after(Duration::from_secs(3)),
        )
        .unwrap_err();
        assert!(
            matches!(error, ClientError::SshConfigMalformed(_)),
            "{error:?}"
        );
    }
    let resolved = resolve_ssh_config(
        &PrintingRunner {
            rows: "setenv A=one\nsetenv ET_RS_CONFIG_SENTINEL=user\n".into(),
        },
        "example.test",
        None,
        &["SetEnv=A=one ET_RS_CONFIG_SENTINEL=user".into()],
        None,
        true,
        false,
        Deadline::after(Duration::from_secs(3)),
    )
    .unwrap();
    assert_eq!(
        resolved.set_env,
        [
            ("A".into(), "one".into()),
            ("ET_RS_CONFIG_SENTINEL".into(), "user".into())
        ]
    );
}

#[test]
fn ssh_config_query_emits_selected_file_or_none() {
    for selected in [Some("/etc/et/ssh_config"), Some("none")] {
        let runner = CapturingRunner {
            args: Mutex::new(Vec::new()),
        };
        resolve_ssh_config(
            &runner,
            "alias",
            None,
            &[],
            selected,
            false,
            false,
            Deadline::after(Duration::from_secs(1)),
        )
        .unwrap();
        let args = runner.args.lock().unwrap().clone();
        assert_eq!(
            &args[..4],
            ["-G", "-T", "-F", selected.unwrap()],
            "{args:?}"
        );
    }
}

#[test]
fn ssh_config_file_validation_fails_closed() {
    let readable = Some(ConfigFileState {
        regular: true,
        readable: true,
    });
    validate_ssh_config_file("/tmp/ssh_config", readable).unwrap();
    assert!(matches!(
        validate_ssh_config_file("relative/config", readable),
        Err(ClientError::InvalidSshConfig(
            "must be an absolute path or 'none'"
        ))
    ));
    assert!(matches!(
        validate_ssh_config_file("/tmp/et config", readable),
        Err(ClientError::InvalidSshConfig(_))
    ));
    for state in [
        None,
        Some(ConfigFileState {
            regular: false,
            readable: true,
        }),
        Some(ConfigFileState {
            regular: true,
            readable: false,
        }),
    ] {
        assert!(matches!(
            validate_ssh_config_file("/tmp/ssh_config", state),
            Err(ClientError::InvalidSshConfig(
                "must name a readable, non-symlink regular file"
            ))
        ));
    }
}

#[test]
fn unsupported_records_skip_per_row() {
    let resolved = parse_ssh_config(
        b"hostname localhost\n\
          dynamicforward *:1080\n\
          localforward relative/source.sock /tmp/destination.sock\n\
          localforward /tmp/source.sock /tmp/destination.sock\n\
          localforward 15433 [localhost]:5432\n",
        true,
        false,
    )
    .unwrap();
    assert_eq!(
        resolved.local_forwards,
        [
            request("/tmp/source.sock", None, "/tmp/destination.sock", None),
            request("localhost", Some(15433), "localhost", Some(5432)),
        ]
    );
    let ignored = parse_ssh_config(b"hostname host\nlocalforward only-one\n", false, false).unwrap();
    assert!(ignored.local_forwards.is_empty());
}

#[test]
fn every_malformed_directive_is_named() {
    for (row, directive) in [
        ("exitonforwardfailure maybe", "exitonforwardfailure"),
        ("forwardagent maybe", "exitonforwardfailure"),
        ("gatewayports maybe", "gatewayports"),
        ("setenv NO_EQUALS", "setenv"),
    ] {
        let output = format!("hostname host\n{row}\n");
        match parse_ssh_config(output.as_bytes(), true, false) {
            Err(ClientError::SshConfigMalformed(found)) => assert_eq!(found, directive),
            other => panic!("{row}: {other:?}"),
        }
    }
    assert!(matches!(
        parse_ssh_config(b"hostname -bad\n", true, false),
        Err(ClientError::InvalidSshComponent("host"))
    ));
    assert!(matches!(
        parse_ssh_config(b"hostname h\xff\n", true, false),
        Err(ClientError::SshConfigMalformed("UTF-8 output"))
    ));
    assert!(matches!(
        parse_ssh_config(b"hostname h\nlocalforward 0 a:1\n", true, false),
        Err(ClientError::SshConfigMalformedForward {
            directive: "localforward",
            reason: "invalid source endpoint",
        })
    ));
    assert!(matches!(
        parse_ssh_config(b"hostname h\nlocalforward 1 a:0\n", true, false),
        Err(ClientError::SshConfigMalformedForward {
            directive: "localforward",
            reason: "invalid destination endpoint",
        })
    ));
}

#[test]
fn unreadable_ports_fall_back_to_the_default() {
    for row in ["", "port 70000\n", "port twenty\n", "port\n"] {
        let output = format!("hostname host\n{row}");
        assert_eq!(parse_ssh_config(output.as_bytes(), true, false).unwrap().port, 22);
    }
    let resolved = parse_ssh_config(b"hostname host\nport +2200\n", true, false).unwrap();
    assert_eq!(resolved.port, 2200);
}

#[test]
fn ports_and_endpoints_are_exact() {
    assert_eq!(parse_port(&characters("1")), Some(1));
    assert_eq!(parse_port(&characters("65535")), Some(65535));
    assert_eq!(parse_port(&characters("65536")), None);
    assert_eq!(parse_port(&characters("0")), None);
    let longest = format!("/{}", "x".repeat(MAX_UNIX_SOCKET_PATH - 1));
    assert!(parse_unix_endpoint(&characters(&longest)).is_some());
    assert!(parse_unix_endpoint(&characters(&format!("{longest}x"))).is_none());
    assert!(parse_unix_endpoint(&characters("relative.sock")).is_none());
    assert_eq!(
        parse_tcp_endpoint(&characters("[::1]:80"), false),
        Some(SocketEndpoint {
            name: Some("::1".into()),
            port: Some(80),
        })
    );
    assert_eq!(parse_tcp_endpoint(&characters("[]:80"), false), None);
    assert!(parse_tcp_endpoint(&characters("[]:80"), true).is_some());
}

#[test]
fn policies_are_read_from_their_words() {
    assert_eq!(GatewayPorts::parse("no").unwrap(), GatewayPorts::No);
    assert_eq!(GatewayPorts::parse("yes").unwrap(), GatewayPorts::Yes);
    assert_eq!(
        GatewayPorts::parse("clientspecified").unwrap(),
        GatewayPorts::ClientSpecified
    );
    assert!(matches!(
        GatewayPorts::parse("perhaps"),
        Err(ClientError::SshConfigMalformed("gatewayports"))
    ));
    assert!(parse_yes_no("yes").unwrap());
    assert!(!parse_yes_no("no").unwrap());
    assert!(parse_yes_no("true").is_err());
    assert_eq!(
        StreamLocalBindPolicy::parse("hostname h\n"),
        StreamLocalBindPolicy::Default
    );
    assert_eq!(
        StreamLocalBindPolicy::parse("streamlocalbindunlink yes\n"),
        StreamLocalBindPolicy::Unsupported
    );
}

#[test]
fn a_second_query_is_owed_where_the_environment_is_set() {
    assert!(needs_baseline(b"hostname h\nsetenv A=b\n"));
    assert!(!needs_baseline(b"hostname h\nsetenvx A=b\n"));
    let query = SshConfigQuery {
        host_alias: "h",
        requested_user: Some("u"),
        explicit_port: Some(7),
        ssh_options: &[],
        ssh_config: None,
        parse_local_forwards: false,
        windows: false,
    };
    assert_eq!(
        config_query(&query, true).args,
        ["-G", "-T", "-oSetEnv=ET_RS_CONFIG_SENTINEL=1", "-p", "7", "u@h"]
    );
    let resolved = conclude_ssh_config(b"hostname h\n", None, false, false).unwrap();
    assert_eq!(resolved.hostname, "h");
    assert!(matches!(
        conclude_ssh_config(b"hostname h\nsetenv A=b\n", Some(b"hostname other\n"), false, false),
        Err(ClientError::SshConfigMalformed(_))
    ));
}

#[test]
fn forwarding_rows_need_a_source_and_a_destination() {
    let policies = ForwardPolicies {
        gateway_ports: GatewayPorts::No,
        stream_local_bind: StreamLocalBindPolicy::parse(""),
        windows: false,
    };
    for row in ["", "   ", "localforward", "localforward 8080", "localforward 1 b:2 c"] {
        let row: Vec<char> = row.chars().collect();
        assert!(matches!(
            parse_forward(&row, policies),
            Err(ClientError::SshConfigMalformedForward {
                directive: "localforward",
                reason: "expected exactly two fields",
            })
        ));
    }
}

#[test]
fn jump_lookups_neither_import_nor_reject_session_options() {
    for row in [
        "exitonforwardfailure maybe",
        "exitonforwardfailure yes",
        "gatewayports sometimes",
        "localforward only-one",
        "setenv broken",
    ] {
        let output = format!("hostname relay\n{row}\n");
        let relay = parse_ssh_config(output.as_bytes(), false, false).unwrap();
        assert_eq!(relay.hostname, "relay");
        assert_eq!(relay.port, 22);
        assert!(!relay.exit_on_forward_failure);
        assert!(relay.local_forwards.is_empty());
    }
    assert!(matches!(
        parse_ssh_config(b"exitonforwardfailure maybe\n", false, false),
        Err(ClientError::SshConfigMalformed("hostname"))
    ));
}

#[test]
fn socket_paths_are_unsupported_on_windows() {
    let output = b"hostname host\n\
        localforward /tmp/source.sock localhost:22\n\
        localforward 10022 /tmp/destination.sock\n\
        localforward /tmp/source.sock nonsense\n\
        localforward 8080 localhost:80\n";
    assert!(parse_ssh_config(output, true, false).is_err());
    let resolved = parse_ssh_config(output, true, true).unwrap();
    assert_eq!(
        resolved.local_forwards,
        [request("localhost", Some(8080), "localhost", Some(80))]
    );
    assert_eq!(resolved.clone(), resolved);
}

#[test]
fn skipped_forwardings_are_warned_of_in_order() {
    let text = "hostname host\n\
        dynamicforward 1080\n\
        localforward relative/source.sock /tmp/destination.sock\n\
        localforward 8080 /tmp/a b\n\
        localforward 10022 /tmp/destination.sock\n\
        localforward 8080 localhost:80\n";
    let dynamic = "SSH dynamicforward is unsupported by ET protocol v6; skipping forwarding row";
    let relative =
        "SSH localforward relative stream-local path is unsupported; skipping forwarding row";
    let ambiguous =
        "SSH localforward ambiguous stream-local path is unsupported; skipping forwarding row";
    let platform = "SSH localforward stream-local forwarding is unsupported on this platform; \
        skipping forwarding row";
    assert_eq!(
        skipped_forward_warnings(text, false),
        [dynamic, relative, ambiguous]
    );
    assert_eq!(
        skipped_forward_warnings(text, true),
        [dynamic, relative, ambiguous, platform]
    );
    assert!(skipped_forward_warnings("gatewayports odd\ndynamicforward 1\n", false).is_empty());
    assert_eq!(
        skipped_forward_warnings(
            "localforward a/b 1\nlocalforward one\nlocalforward a/b 1\n",
            false
        ),
        [relative]
    );
}

#[test]
fn skipped_forwardings_are_told_once() {
    let answer = |code: i32, text: &str| SshOutput {
        status: Some(ExitStatus { code: Some(code) }),
        stdout: text.as_bytes().to_vec(),
    };
    let plain = answer(0, "hostname host\ndynamicforward 1080\n");
    let (next, warnings) = SkipReport::Configuration.observe(&plain, false);
    assert_eq!(warnings.len(), 1);
    let (_, warnings) = next.observe(&plain, false);
    assert!(warnings.is_empty());
    let (_, warnings) =
        SkipReport::Configuration.observe(&answer(255, "dynamicforward 1080\n"), false);
    assert!(warnings.is_empty());

    let setting = "dynamicforward 1080\nsetenv A=b\nhostname host\n";
    let baseline = "dynamicforward 1080\nsetenv ET_RS_CONFIG_SENTINEL=1\nhostname host\n";
    for (second, told) in [(baseline, 1), ("hostname other\n", 0)] {
        let (next, warnings) = SkipReport::Configuration.observe(&answer(0, setting), false);
        assert!(warnings.is_empty());
        let (_, warnings) = next.observe(&answer(0, second), false);
        assert_eq!(warnings.len(), told);
    }
    assert!(session_warnings(setting.as_bytes(), None, false).is_empty());
}
