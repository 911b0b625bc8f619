use et::terminal_last_login::{
    format_line, load_from_record, login_time, native_layout, record_position, sanitize_host,
    write_line, Layout,
};
use et::terminal_motd::{
    append_terminal_bytes, bounded_message, directory_message_candidates, load_defaults_from,
    load_from, output_chunks, DirectoryEntry, FileMessage, MAX_MOTD_ENTRIES, MAX_MOTD_MESSAGE,
    MAX_MOTD_TOTAL, MAX_OUTPUT_CHUNK,
};

const RECORD_BYTES: usize = 292;
const TEST_TIMESTAMP: u32 = 1_788_475_267;

fn message(bytes: &[u8]) -> FileMessage {
    FileMessage::Message(bounded_message(bytes.to_vec()))
}

/// One named file of a directory: its name, whether it is shown, and what
/// reading it gives.
type File = (&'static str, bool, fn() -> FileMessage);

/// Loads the messages of directories, the first of which counts most.
fn load_directories(directories: &[Vec<File>]) -> Option<Vec<u8>> {
    let listing: Vec<Vec<DirectoryEntry>> = directories
        .iter()
        .map(|files| {
            files
                .iter()
                .map(|(name, shown, _)| DirectoryEntry {
                    name: name.as_bytes().to_vec(),
                    shown: *shown,
                })
                .collect()
        })
        .collect();
    let groups = directory_message_candidates(&listing);
    let groups = groups
        .entries
        .iter()
        .map(|(_, places)| {
            places
                .iter()
                .map(|(directory, entry)| directories[*directory][*entry].2())
                .collect()
        })
        .collect();
    load_from(false, None, &Vec::new(), &groups)
}

fn record(timestamp: u32, host: &[u8]) -> Vec<u8> {
    let mut record = vec![0u8; RECORD_BYTES];
    record[..4].copy_from_slice(&timestamp.to_ne_bytes());
    let host = &host[..host.len().min(256)];
    record[36..36 + host.len()].copy_from_slice(host);
    record
}

fn load(timestamp: u32, host: &[u8], utc_offset: i32) -> Option<Vec<u8>> {
    load_from_record(&record(timestamp, host), native_layout(false), utc_offset)
}

#[test]
fn load_suppresses_everything_when_home_has_hushlogin() {
    let motd = message(b"banner\n");
    assert_eq!(load_from(true, Some(&motd), &Vec::new(), &Vec::new()), None);
    assert!(load_from(false, Some(&motd), &Vec::new(), &Vec::new()).is_some());
}

#[test]
fn load_skips_missing_empty_and_nonregular_override_files() {
    for source in [
        message(b""),
        FileMessage::Unreadable,
        FileMessage::NotRegular,
    ] {
        assert_eq!(
            load_from(false, Some(&source), &Vec::new(), &Vec::new()),
            None,
            "{source:?}"
        );
    }
}

#[test]
fn load_bounds_each_message_and_total_directory_output() {
    let groups: Vec<Vec<FileMessage>> = (0..5)
        .map(|_| vec![message(&vec![b'x'; MAX_MOTD_MESSAGE * 3])])
        .collect();
    let output = load_from(false, None, &Vec::new(), &groups).unwrap();
    assert_eq!(output.len(), MAX_MOTD_TOTAL);
    assert!(output.ends_with(b"\r\n"));
}

#[test]
fn load_preserves_framing_when_newline_messages_hit_total_bound() {
    let groups: Vec<Vec<FileMessage>> = (0..5)
        .map(|_| {
            let mut text = vec![b'x'; MAX_MOTD_MESSAGE];
            *text.last_mut().unwrap() = b'\n';
            vec![message(&text)]
        })
        .collect();
    let output = load_from(false, None, &Vec::new(), &groups).unwrap();
    assert_eq!(output.len(), MAX_MOTD_TOTAL);
    assert!(output.ends_with(b"\r\n"));
}

#[test]
fn load_shows_only_the_first_readable_default_file() {
    let none = Vec::new();
    assert_eq!(
        load_from(
            false,
            None,
            &vec![message(b"first\n"), message(b"second\n")],
            &none
        )
        .unwrap(),
        b"first\r\n"
    );
    assert_eq!(
        load_from(
            false,
            None,
            &vec![FileMessage::Unreadable, message(b"second\n")],
            &none
        )
        .unwrap(),
        b"second\r\n"
    );
    assert_eq!(
        load_from(
            false,
            None,
            &vec![FileMessage::NotRegular, message(b"fallback\n")],
            &none
        )
        .unwrap(),
        b"fallback\r\n"
    );
}

#[test]
fn load_shows_dynamic_message_before_static_defaults() {
    assert_eq!(
        load_defaults_from(
            false,
            &vec![message(b"dynamic\n")],
            &vec![message(b"static\n")],
            &Vec::new(),
        )
        .unwrap(),
        b"dynamic\r\nstatic\r\n"
    );
}

#[test]
fn load_preserves_source_spacing_including_final_blank_lines() {
    assert_eq!(
        load_defaults_from(
            false,
            &vec![message(b"dynamic\n\n")],
            &vec![message(b"static\n\n\n")],
            &Vec::new(),
        )
        .unwrap(),
        b"dynamic\r\n\r\nstatic\r\n\r\n\r\n"
    );
}

#[test]
fn load_orders_directory_union_and_honors_priority_overrides() {
    let high: Vec<File> = vec![
        ("40-silenced", true, || FileMessage::NotRegular),
        ("20-shared", true, || message(b"high\n")),
        ("10-first", true, || message(b"first\n")),
    ];
    let middle: Vec<File> = vec![("20-shared", true, || message(b"middle\n"))];
    let low: Vec<File> = vec![
        ("20-shared", true, || message(b"low\n")),
        ("30-last", true, || message(b"last\n")),
        ("40-silenced", true, || message(b"must-not-appear\n")),
    ];
    let output = load_directories(&[high, middle, low]).unwrap();
    assert!(output.starts_with(b"first\r\nhigh\r\nlast\r\n"));
}

#[test]
fn load_falls_back_when_higher_priority_directory_entry_is_unreadable() {
    let high: Vec<File> = vec![("20-shared", true, || FileMessage::Unreadable)];
    let low: Vec<File> = vec![("20-shared", true, || message(b"fallback\n"))];
    assert_eq!(load_directories(&[high, low]).unwrap(), b"fallback\r\n");
}

#[test]
fn load_terminates_message_without_trailing_newline() {
    let motd = message(b"maintenance tonight");
    assert_eq!(
        load_from(false, Some(&motd), &Vec::new(), &Vec::new()).unwrap(),
        b"maintenance tonight\r\n"
    );
}

#[test]
fn load_preserves_raw_bytes_and_normalizes_only_lone_line_feeds() {
    let motd = message(b"a\r\nb\n\x1b[31mc\x07\xff\xfe\n");
    assert_eq!(
        load_from(false, Some(&motd), &Vec::new(), &Vec::new()).unwrap(),
        b"a\r\nb\r\n\x1b[31mc\x07\xff\xfe\r\n"
    );
}

#[test]
fn messages_and_chunks_are_bounded() {
    assert_eq!(
        bounded_message(vec![b'x'; MAX_MOTD_MESSAGE + 9]).len(),
        MAX_MOTD_MESSAGE
    );
    let mut output = b"one\r\n".to_vec();
    append_terminal_bytes(&mut output, b"two\n");
    assert_eq!(output, b"one\r\ntwo\r\n");
    let mut full = vec![b'z'; MAX_MOTD_TOTAL + 3];
    append_terminal_bytes(&mut full, b"more\n");
    assert_eq!(full, vec![b'z'; MAX_MOTD_TOTAL + 3]);
    let text = vec![b'y'; MAX_OUTPUT_CHUNK + 1];
    let chunks = output_chunks(&text);
    assert_eq!(
        chunks.iter().map(Vec::len).collect::<Vec<_>>(),
        [MAX_OUTPUT_CHUNK, 1]
    );
    assert_eq!(chunks.concat(), text);
}

#[test]
fn directories_list_a_bounded_number_of_shown_names() {
    let entry = |name: String| DirectoryEntry {
        name: name.into_bytes(),
        shown: true,
    };
    let many: Vec<DirectoryEntry> = (0..MAX_MOTD_ENTRIES + 5)
        .map(|i| entry(format!("m{i:05}")))
        .collect();
    assert_eq!(
        directory_message_candidates(&vec![many]).len(),
        MAX_MOTD_ENTRIES
    );
    let unreadable = DirectoryEntry {
        name: vec![0xff],
        shown: true,
    };
    let found = directory_message_candidates(&vec![vec![entry("b".into()), unreadable]]);
    assert!(found.contains_key("b"));
}

#[test]
fn load_formats_host_record_with_fixed_offset() {
    assert_eq!(
        load(TEST_TIMESTAMP, b"127.0.0.1", 0).unwrap(),
        b"Last login: Thu Sep  3 22:41:07 2026 from 127.0.0.1\r\n"
    );
}

#[test]
fn load_omits_from_clause_when_host_is_empty() {
    assert_eq!(
        load(TEST_TIMESTAMP, b"", 0).unwrap(),
        b"Last login: Thu Sep  3 22:41:07 2026\r\n"
    );
}

#[test]
fn load_applies_server_timezone_offset() {
    assert_eq!(
        load(TEST_TIMESTAMP, b"127.0.0.1", 9 * 60 * 60).unwrap(),
        b"Last login: Fri Sep  4 07:41:07 2026 from 127.0.0.1\r\n"
    );
}

#[test]
fn load_omits_zero_timestamp() {
    assert_eq!(load(0, b"127.0.0.1", 0), None);
}

#[test]
fn load_omits_short_record() {
    assert_eq!(load_from_record(b"short", native_layout(false), 0), None);
}

#[test]
fn load_drops_host_clause_for_control_bytes() {
    assert_eq!(
        load(TEST_TIMESTAMP, b"bad\r\n\x1b[31mhost", 0).unwrap(),
        b"Last login: Thu Sep  3 22:41:07 2026\r\n"
    );
    assert_eq!(sanitize_host(b"host\0junk"), Some(b"host".to_vec()));
}

#[test]
fn load_preserves_ipv6_literal_host() {
    assert_eq!(
        load(TEST_TIMESTAMP, b"2001:db8::1", 0).unwrap(),
        b"Last login: Thu Sep  3 22:41:07 2026 from 2001:db8::1\r\n"
    );
}

#[test]
fn load_bounds_full_host_field() {
    let output = load(TEST_TIMESTAMP, &[b'x'; 256], 0).unwrap();
    assert_eq!(output.len(), 12 + 24 + 6 + 256 + 2);
    assert!(output.ends_with(b"\r\n"));
}

#[test]
fn aarch64_layout_decodes_independent_literal_fixture() {
    let mut record = vec![0u8; 296];
    record[..8].copy_from_slice(&i64::from(TEST_TIMESTAMP).to_ne_bytes());
    record[40..48].copy_from_slice(b"10.0.0.1");
    let layout = Layout {
        record_bytes: 296,
        timestamp_bytes: 8,
        host_offset: 40,
    };
    assert_eq!(native_layout(true), layout);
    assert_eq!(
        load_from_record(&record, layout, 0).unwrap(),
        b"Last login: Thu Sep  3 22:41:07 2026 from 10.0.0.1\r\n"
    );
}

#[test]
fn login_lines_are_put_together_from_their_parts() {
    assert_eq!(record_position(2, native_layout(false)), Some(584));
    assert_eq!(
        login_time(&record(7, b""), native_layout(false)),
        Some(7)
    );
    assert_eq!(
        write_line("now", &Some(b"h".to_vec())),
        b"Last login: now from h\r\n"
    );
    assert_eq!(
        format_line(0, &None, 0).unwrap(),
        b"Last login: Thu Jan  1 00:00:00 1970\r\n"
    );
    assert_eq!(format_line(i64::MAX, &None, 0), None);
}
