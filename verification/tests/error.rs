use et::error::{ClientError, ConnError, ForwardConfigError};
use et::bytes::{append_bytes, find_bytes};
use et::text::{
    decimal_string, parse_number, signed_decimal_string, split_lines, split_words,
};

fn characters(text: &str) -> Vec<char> {
    text.chars().collect()
}

#[test]
fn every_error_has_a_message() {
    let errors = vec![
        ClientError::Host("h".into()),
        ClientError::Unsupported("u"),
        ClientError::InvalidSshComponent("host"),
        ClientError::SshSpawn("s".into()),
        ClientError::SshStdout("s".into()),
        ClientError::SshWait("s".into()),
        ClientError::SshTerminate("s".into()),
        ClientError::SshTimeout("o"),
        ClientError::SshNonZero(Some(255)),
        ClientError::SshNonZero(None),
        ClientError::SshOutputTooLarge(7),
        ClientError::SshConfigMalformed("port"),
        ClientError::SshConfigMalformedForward {
            directive: "localforward",
            reason: "r",
        },
        ClientError::InvalidSshConfig("c"),
        ClientError::MissingIdPasskeyMarker,
        ClientError::MalformedIdPasskeyMarker,
        ClientError::InvalidSessionId,
        ClientError::InvalidPasskey,
        ClientError::DnsTimeout("h:1".into()),
        ClientError::DnsWorker("w".into()),
        ClientError::DnsWorkerPanicked,
        ClientError::UnreachableEndpoint {
            endpoint: "h:1".into(),
            source: "refused".into(),
        },
        ClientError::BootstrapTimeout("o"),
        ClientError::ConnectIo {
            operation: "o",
            source: "s".into(),
        },
        ClientError::ServerInvalidKey(None),
        ClientError::ProtocolMismatch(Some("m".into())),
        ClientError::ReturningSessionRequiresRecovery,
        ClientError::ServerRejected {
            status: Some(9),
            message: Some("m".into()),
        },
        ClientError::Transport(ConnError::Backpressure),
        ClientError::UnexpectedInitialPacket(3),
        ClientError::MalformedInitialResponse("m".into()),
        ClientError::InitialResponseRejected("m".into()),
        ClientError::ForwardConfig(ForwardConfigError::MissingAgentSocket),
        ClientError::Terminal("t".into()),
    ];
    for error in errors {
        assert!(!error.message().is_empty(), "{error:?}");
        assert!(error.exit_code() != 0, "{error:?}");
    }
    for error in [
        ForwardConfigError::MissingAgentSocket,
        ForwardConfigError::Tunnel("t".into()),
        ForwardConfigError::InvalidEnvironmentName("A-B".into()),
        ForwardConfigError::TooManyEnvironmentNames(129),
        ForwardConfigError::EnvironmentPacketTooLarge {
            length: 9,
            limit: 8,
        },
        ForwardConfigError::JumphostPacketTooLarge {
            length: 9,
            limit: 8,
        },
    ] {
        assert!(!error.message().is_empty(), "{error:?}");
    }
    assert!(ConnError::Io("reset".into()).message().contains("reset"));
}

#[test]
fn numbers_are_written_and_read() {
    assert_eq!(decimal_string(0), "0");
    assert_eq!(decimal_string(u64::MAX), "18446744073709551615");
    assert_eq!(signed_decimal_string(i32::MIN), "-2147483648");
    assert_eq!(parse_number(&characters("+7"), 9), Some(7));
    assert_eq!(parse_number(&characters("10"), 9), None);
    assert_eq!(parse_number(&characters("-1"), 9), None);
    assert_eq!(parse_number(&characters(""), 9), None);
}

#[test]
fn text_is_split_into_lines_and_words() {
    let lines: Vec<String> = split_lines(&characters("a\r\nb\n\nc"))
        .into_iter()
        .map(|line| line.into_iter().collect())
        .collect();
    assert_eq!(lines, ["a", "b", "", "c"]);
    let words: Vec<String> = split_words(&characters("  a\u{2003}b\tc "))
        .into_iter()
        .map(|word| word.into_iter().collect())
        .collect();
    assert_eq!(words, ["a", "b", "c"]);
    assert_eq!(find_bytes(b"banner", b"nn"), Some(2));
    assert_eq!(find_bytes(b"banner", b"xx"), None);
    let mut out = b"a".to_vec();
    append_bytes(&mut out, b"bc");
    assert_eq!(out, b"abc");
}
