use et::client_environment::{
    bound_jumphost_locale_environment, bounded_locale_environment, extend_environment,
    ghostty_colorterm, locale_environment_capacity, locale_priority, normalize_terminal_type,
    posix_environment, reserved_environment_value_lengths, ssh_locale_environment,
    windows_environment, PacketLimits, MAX_LOSSY_FORWARD_ENV_VALUE,
};
use et::forward::{InitialPayload, PortForwardSourceRequest, SocketEndpoint};
use et::name_map::{text_precedes, NameMap};

const LIMITS: PacketLimits = PacketLimits {
    header: 2,
    packet: 65_536,
};

fn pairs(entries: &[(&str, &str)]) -> Vec<(String, String)> {
    entries
        .iter()
        .map(|(name, value)| (name.to_string(), value.to_string()))
        .collect()
}

fn payload(reversetunnels: Vec<PortForwardSourceRequest>) -> InitialPayload {
    InitialPayload {
        jumphost: Some(false),
        reversetunnels,
        environmentvariables: NameMap::new(),
        flowcontrol: None,
    }
}

fn field(length: usize) -> usize {
    prost::length_delimiter_len(length) + 1 + length
}

fn text(value: &Option<String>) -> usize {
    value.as_ref().map_or(0, |value| field(value.len()))
}

fn endpoint(value: &Option<SocketEndpoint>) -> usize {
    value.as_ref().map_or(0, |endpoint| {
        let port = endpoint
            .port
            .map_or(0, |port| 1 + prost::length_delimiter_len(port as usize));
        field(text(&endpoint.name) + port)
    })
}

/// The bytes of a packet that holds a payload.
fn packet_len(payload: &InitialPayload) -> usize {
    let tunnels: usize = payload
        .reversetunnels
        .iter()
        .map(|request| {
            field(
                endpoint(&request.source)
                    + endpoint(&request.destination)
                    + text(&request.environmentvariable),
            )
        })
        .sum();
    let environment: usize = payload
        .environmentvariables
        .entries
        .iter()
        .map(|(name, value)| field(field(name.len()) + field(value.len())))
        .sum();
    LIMITS.header + payload.jumphost.map_or(0, |_| 2) + tunnels + environment
}

fn jumphost_packet_len(
    payload: &InitialPayload,
    locale: &Vec<(String, String)>,
    colorterm: Option<&str>,
) -> usize {
    let mut modeled = payload.clone();
    modeled.jumphost = Some(true);
    extend_environment(&mut modeled.environmentvariables, locale, colorterm);
    packet_len(&modeled)
}

#[test]
fn effective_locale_controls_precede_other_categories() {
    assert!(locale_priority("LC_ALL") < locale_priority("LC_CTYPE"));
    assert!(locale_priority("LC_CTYPE") < locale_priority("LANG"));
    assert!(locale_priority("LANG") < locale_priority("LC_000"));
}

#[test]
fn jumphost_packet_budget_preserves_effective_locale_controls() {
    let request = PortForwardSourceRequest {
        source: None,
        destination: Some(SocketEndpoint {
            name: Some("remote-name-padding".to_owned()),
            port: None,
        }),
        environmentvariable: Some("ET_PIPE".to_owned()),
    };
    let payload = payload(vec![request; 128]);
    let mut locale = pairs(&[
        ("LC_ALL", "C"),
        ("LC_CTYPE", "C.UTF-8"),
        ("LANG", "ko_KR.UTF-8"),
    ]);
    locale.extend((0..15).map(|index| (format!("LC_000_{index:03}"), "x".repeat(4096))));
    assert!(jumphost_packet_len(&payload, &locale, Some("truecolor")) > LIMITS.packet);
    bound_jumphost_locale_environment(
        &payload,
        &mut locale,
        Some("truecolor"),
        LIMITS,
        &packet_len,
    )
    .unwrap();
    assert!(jumphost_packet_len(&payload, &locale, Some("truecolor")) <= LIMITS.packet);
    for name in ["LC_ALL", "LC_CTYPE", "LANG"] {
        assert!(locale.iter().any(|(candidate, _)| candidate == name));
    }
}

#[test]
fn jumphost_packets_that_never_fit_say_how_long_they_are() {
    let mut payload = payload(Vec::new());
    payload
        .environmentvariables
        .insert("A".to_owned(), "x".repeat(70_000));
    let mut locale = pairs(&[("LANG", "C")]);
    let length = packet_len(&payload);
    let result =
        bound_jumphost_locale_environment(&payload, &mut locale, None, LIMITS, &packet_len);
    assert_eq!(result, Err(length));
    assert!(locale.is_empty());
}

#[test]
fn dropped_variables_leave_nothing_of_their_name() {
    let mut payload = payload(Vec::new());
    payload
        .environmentvariables
        .insert("LANG".to_owned(), "x".repeat(70_000));
    let mut locale = pairs(&[("LC_ALL", "C"), ("LANG", &"y".repeat(70_000))]);
    bound_jumphost_locale_environment(&payload, &mut locale, None, LIMITS, &packet_len).unwrap();
    assert_eq!(locale, pairs(&[("LC_ALL", "C")]));
}

#[test]
fn locale_capacity_reserves_terminal_environment_entries() {
    assert_eq!(locale_environment_capacity(0), 128);
    assert_eq!(locale_environment_capacity(2), 126);
    assert_eq!(locale_environment_capacity(128), 0);
    assert_eq!(locale_environment_capacity(usize::MAX), 0);
}

#[test]
fn locale_capacity_counts_distinct_reserved_names() {
    let reserved = reserved_environment_value_lengths(
        &[("COLORTERM", 4), ("LC_COLLISION", 1)],
        Some("truecolor"),
        &["ET_PIPE", "ET_PIPE", "LC_COLLISION"],
    );
    assert_eq!(
        reserved
            .entries
            .into_iter()
            .map(|(name, _)| name)
            .collect::<Vec<_>>(),
        ["COLORTERM", "ET_PIPE", "LC_COLLISION"],
    );
    let reserved = reserved_environment_value_lengths(
        &[("COLORTERM", 4), ("LC_COLLISION", 1)],
        Some("truecolor"),
        &["ET_PIPE", "ET_PIPE", "LC_COLLISION"],
    );
    assert_eq!(reserved.get("COLORTERM"), Some(&"truecolor".len()));
    assert_eq!(reserved.get("ET_PIPE"), Some(&MAX_LOSSY_FORWARD_ENV_VALUE));
    assert_eq!(
        reserved.get("LC_COLLISION"),
        Some(&MAX_LOSSY_FORWARD_ENV_VALUE)
    );
}

#[test]
fn ghostty_term_uses_compatible_remote_fallback() {
    assert_eq!(normalize_terminal_type(None), "xterm-256color");
    assert_eq!(
        normalize_terminal_type(Some("xterm-ghostty")),
        "xterm-256color"
    );
    for term in [
        "xterm-256color",
        "screen-256color",
        "linux",
        "xterm-kitty",
        "arbitrary-term",
    ] {
        assert_eq!(normalize_terminal_type(Some(term)), term);
    }
}

#[test]
fn ghostty_truecolor_hint_is_forwarded_only_for_known_values() {
    assert_eq!(
        ghostty_colorterm(Some("xterm-ghostty"), Some("truecolor")),
        Some("truecolor")
    );
    assert_eq!(
        ghostty_colorterm(Some("xterm-ghostty"), Some("24bit")),
        Some("24bit")
    );
    assert_eq!(
        ghostty_colorterm(Some("xterm-ghostty"), Some("unexpected")),
        None
    );
    assert_eq!(
        ghostty_colorterm(Some("xterm-256color"), Some("truecolor")),
        None
    );
    assert_eq!(ghostty_colorterm(Some("xterm-ghostty"), None), None);
}

#[test]
fn locale_variables_are_chosen_and_put_in_order() {
    let variables = pairs(&[
        ("PATH", "/bin"),
        ("LC_TIME", "C"),
        ("LANG", "en"),
        ("LC_ALL", "C"),
        ("LC_BAD-NAME", "x"),
        ("LC_CTYPE", "C.UTF-8"),
        ("LC_BIG", &"x".repeat(4097)),
    ]);
    assert_eq!(
        ssh_locale_environment(&variables),
        pairs(&[
            ("LC_ALL", "C"),
            ("LC_CTYPE", "C.UTF-8"),
            ("LANG", "en"),
            ("LC_TIME", "C"),
        ])
    );
}

#[test]
fn earlier_candidates_win_and_reserved_names_are_passed_over() {
    let reserved = reserved_environment_value_lengths(&[("TAKEN", 3)], None, &[]);
    let candidates = pairs(&[("A", "1"), ("TAKEN", "x"), ("A", "2"), ("B", "3")]);
    assert_eq!(
        bounded_locale_environment(&candidates, &reserved, LIMITS).unwrap(),
        pairs(&[("A", "1"), ("B", "3")])
    );
    // A header of 2, a reserved pair of 7 + 5, and pairs of 3 + 3 bytes.
    let tight = PacketLimits {
        header: 2,
        packet: 25,
    };
    assert_eq!(
        bounded_locale_environment(&candidates, &reserved, tight).unwrap(),
        pairs(&[("A", "1")])
    );
    let none = PacketLimits {
        header: 2,
        packet: 13,
    };
    assert_eq!(
        bounded_locale_environment(&candidates, &reserved, none),
        Err(14)
    );
}

#[test]
fn explicit_variables_precede_the_locale() {
    assert_eq!(
        posix_environment(
            &pairs(&[("TERM", "x"), ("LANG", "explicit")]),
            pairs(&[("LANG", "inherited")])
        ),
        pairs(&[("LANG", "explicit"), ("LANG", "inherited")])
    );
    let reserved = reserved_environment_value_lengths(&[], None, &["ET_PIPE"]);
    assert_eq!(
        windows_environment(
            &pairs(&[("Path", "1"), ("PATH", "2"), ("term", "x"), ("et_pipe", "y")]),
            &reserved
        ),
        pairs(&[("Path", "1")])
    );
}

#[test]
fn names_stand_in_order_with_one_value_each() {
    let mut map: NameMap<String> = NameMap::new();
    map.insert("b".into(), "1".into());
    map.insert("a".into(), "2".into());
    map.insert("b".into(), "3".into());
    assert_eq!(map.len(), 2);
    assert_eq!(map.entries, pairs(&[("a", "2"), ("b", "3")]));
    assert!(map.contains_key("a"));
    map.remove("a");
    map.remove("missing");
    assert!(!map.contains_key("a"));
    assert_eq!(map.get("b").map(String::as_str), Some("3"));
    assert!(text_precedes("a", "ab"));
    assert!(!text_precedes("b", "ab"));
}
