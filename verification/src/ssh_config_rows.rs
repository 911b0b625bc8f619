//! What the rows of an `ssh` configuration do, one by one.
use vstd::prelude::*;
use vstd::utf8::{decode_utf8, encode_utf8, encode_utf8_decode_utf8, encode_utf8_valid_utf8};

use crate::bootstrap::{controls_sharing, ssh_destination, SshInvocation};
use crate::deadline::Deadline;
use crate::error::ClientError;
use crate::forward::{EndpointModel, RequestModel};
use crate::ssh_config::{
    assignment_of, assignments, assigns, bracket_end, changes_stream_bind, conclude_ssh_config,
    config_of, config_query, destination_endpoint_of, first_fault, first_setting, forward_of,
    has_key, is_absolute_ssh_config_path, is_ssh_config_path_safe_for_proxy_jump, last_row,
    needs_baseline, parse_forward, parse_ssh_config, policies_of, port_of, query_options,
    requested_dynamic_forwards, resolve_ssh_config, resolve_ssh_config_on_port, row_fault,
    row_warnings, safe_path, safe_path_char, second_word, session_warnings, setenv_confined,
    skipped_forward_warnings, source_endpoint_of, stream_bind_policy, strict_forwarding,
    supported_forwards, tcp_endpoint_of, validate_ssh_config_file, verbatim_value,
    verify_setenv_block, windows_absolute, ConfigFileState, ConfigModel, ForwardModel,
    ForwardPolicies, ForwardRecord, GatewayPorts, ResolvedSshConfig, SkipReport, SshConfigQuery,
    StreamLocalBindPolicy,
};
use crate::ssh_process::{SshOutput, SshRunner};
use crate::terminal_protocol::is_environment_name;
use crate::text::{
    all_digits, ascii, decimal, decimal_reads_back, is_alphanumeric, is_digit, is_inked, is_space,
    leading_blanks_add_no_word, lemma_first_index, lemma_first_ink, lemma_first_space,
    lemma_last_index, lines, lowered, same_ignoring_case, trim_start, words,
    words_are_read_from_the_front,
};

verus! {

/// A row as `ssh -G` prints it: a key, a space and a value.
pub open spec fn row_of(key: Seq<char>, value: Seq<char>) -> Seq<char> {
    key + (seq![' '] + value)
}

/// A key without whitespace that spells `name`, in any case.
pub open spec fn is_key(key: Seq<char>, name: Seq<char>) -> bool {
    key.len() > 0 && is_inked(key) && same_ignoring_case(key, name)
}

/// A value that is one word.
pub open spec fn is_word(value: Seq<char>) -> bool {
    value.len() > 0 && is_inked(value)
}

proof fn lemma_row(key: Seq<char>, value: Seq<char>)
    requires
        key.len() > 0,
        is_inked(key),
    ensures
        words(row_of(key, value)) == seq![key] + words(value),
        verbatim_value(row_of(key, value)) == value,
        forall|name: Seq<char>| #[trigger]
            has_key(row_of(key, value), name) == same_ignoring_case(key, name),
        is_word(value) ==> second_word(row_of(key, value)) == Some(value) && words(value) == seq![
            value,
        ],
{
    let row = row_of(key, value);
    let rest = seq![' '] + value;
    words_are_read_from_the_front(key, rest);
    leading_blanks_add_no_word(' ', value);
    assert(words(row)[0] == key);
    assert(row[0] == key[0]);
    lemma_first_ink(row, 0);
    assert(trim_start(row) =~= row);
    let k = key.len() as int;
    assert forall|i: int| 0 <= i < k implies !is_space(#[trigger] row[i]) by {
        assert(row[i] == key[i]);
    }
    assert(row[k] == ' ');
    lemma_first_space(row, k);
    assert(row.skip(k + 1) =~= value);
    if is_word(value) {
        words_are_read_from_the_front(value, Seq::empty());
        assert(value + Seq::<char>::empty() =~= value);
        assert(words(Seq::<char>::empty()) =~= Seq::<Seq<char>>::empty()) by {
            assert(trim_start(Seq::<char>::empty()).len() == 0);
        }
        assert(words(value) =~= seq![value]);
        assert(words(row)[1] == value);
    }
}

/// What one more row at the end does to every reading of the rows.
proof fn lemma_push(rows: Seq<Seq<char>>, row: Seq<char>, policies: ForwardPolicies)
    ensures
        forall|key: Seq<char>| #[trigger]
            last_row(rows.push(row), key) == if has_key(row, key) {
                Some(row)
            } else {
                last_row(rows, key)
            },
        assignments(rows.push(row)) == if has_key(row, "setenv"@) {
            match assignment_of(row) {
                Some((name, value)) if !assigns(assignments(rows), name) => assignments(rows).push(
                    (name, value),
                ),
                _ => assignments(rows),
            }
        } else {
            assignments(rows)
        },
        supported_forwards(rows.push(row), policies) == if has_key(row, "localforward"@) {
            match forward_of(words(row).skip(1), policies) {
                Ok(ForwardModel::Supported(request)) => supported_forwards(rows, policies).push(
                    request,
                ),
                _ => supported_forwards(rows, policies),
            }
        } else {
            supported_forwards(rows, policies)
        },
        first_fault(rows.push(row), policies) == match first_fault(rows, policies) {
            Some(fault) => Some(fault),
            None => row_fault(row, policies),
        },
{
    assert(rows.push(row).drop_last() =~= rows);
    lemma_first_fault_push(rows, row, policies);
}

proof fn lemma_first_fault_push(rows: Seq<Seq<char>>, row: Seq<char>, policies: ForwardPolicies)
    ensures
        first_fault(rows.push(row), policies) == match first_fault(rows, policies) {
            Some(fault) => Some(fault),
            None => row_fault(row, policies),
        },
    decreases rows.len(),
{
    reveal_with_fuel(first_fault, 2);
    if rows.len() == 0 {
        assert(rows.push(row).skip(1) =~= Seq::<Seq<char>>::empty());
    } else {
        lemma_first_fault_push(rows.skip(1), row, policies);
        assert(rows.push(row).skip(1) =~= rows.skip(1).push(row));
    }
}

proof fn lemma_first_setting_push(rows: Seq<Seq<char>>, row: Seq<char>, key: Seq<char>)
    ensures
        first_setting(rows.push(row), key) == match first_setting(rows, key) {
            Some(value) => Some(value),
            None => if has_key(row, key) {
                second_word(row)
            } else {
                None
            },
        },
    decreases rows.len(),
{
    reveal_with_fuel(first_setting, 2);
    if rows.len() == 0 {
        assert(rows.push(row).skip(1) =~= Seq::<Seq<char>>::empty());
    } else {
        lemma_first_setting_push(rows.skip(1), row, key);
        assert(rows.push(row).skip(1) =~= rows.skip(1).push(row));
    }
}

proof fn lemma_stream_push(rows: Seq<Seq<char>>, row: Seq<char>)
    ensures
        stream_bind_policy(rows.push(row)) == if changes_stream_bind(row) {
            StreamLocalBindPolicy::Unsupported
        } else {
            stream_bind_policy(rows)
        },
{
    let all = rows.push(row);
    if changes_stream_bind(row) {
        assert(all[rows.len() as int] == row);
    } else if stream_bind_policy(rows) == StreamLocalBindPolicy::Unsupported {
        let i = choose|i: int| 0 <= i < rows.len() && changes_stream_bind(#[trigger] rows[i]);
        assert(all[i] == rows[i]);
    } else {
        assert forall|i: int| 0 <= i < all.len() implies !changes_stream_bind(
            #[trigger] all[i],
        ) by {
            if i < rows.len() {
                assert(all[i] == rows[i]);
            }
        }
    }
}

/// The keys that mean something are different.
proof fn lemma_keys()
    ensures
        lowered("hostname"@).len() == 8,
        lowered("user"@).len() == 4 && lowered("user"@)[0] == 'u',
        lowered("port"@).len() == 4 && lowered("port"@)[0] == 'p',
        lowered("proxyjump"@).len() == 9,
        lowered("forwardagent"@).len() == 12 && lowered("forwardagent"@)[0] == 'f',
        lowered("localforward"@).len() == 12 && lowered("localforward"@)[0] == 'l',
        lowered("gatewayports"@).len() == 12 && lowered("gatewayports"@)[0] == 'g',
        lowered("identityagent"@).len() == 13,
        lowered("setenv"@).len() == 6,
        lowered("exitonforwardfailure"@).len() == 20,
        lowered("streamlocalbindunlink"@).len() == 21,
        lowered("streamlocalbindmask"@).len() == 19,
{
    reveal_strlit("hostname");
    reveal_strlit("user");
    reveal_strlit("port");
    reveal_strlit("proxyjump");
    reveal_strlit("forwardagent");
    reveal_strlit("localforward");
    reveal_strlit("gatewayports");
    reveal_strlit("identityagent");
    reveal_strlit("setenv");
    reveal_strlit("exitonforwardfailure");
    reveal_strlit("streamlocalbindunlink");
    reveal_strlit("streamlocalbindmask");
}

/// A row that is not one of the settings of forwarding leaves them alone.
proof fn lemma_settings_push(rows: Seq<Seq<char>>, row: Seq<char>, windows: bool)
    requires
        !has_key(row, "gatewayports"@),
        !has_key(row, "exitonforwardfailure"@),
        !changes_stream_bind(row),
    ensures
        policies_of(rows.push(row), windows) == policies_of(rows, windows),
        strict_forwarding(rows.push(row)) == strict_forwarding(rows),
{
    lemma_first_setting_push(rows, row, "gatewayports"@);
    lemma_first_setting_push(rows, row, "exitonforwardfailure"@);
    lemma_stream_push(rows, row);
}

/// The last row with an address, a user or a port counts, for a session and
/// for a lookup alike, and each of them changes nothing else.
pub proof fn addresses_are_taken_from_the_last_row(
    rows: Seq<Seq<char>>,
    key: Seq<char>,
    value: Seq<char>,
    port: u16,
    session: bool,
    windows: bool,
    config: ConfigModel,
)
    requires
        config_of(rows, session, windows) == Ok::<ConfigModel, ClientError>(config),
        is_word(value),
        value[0] != '-',
    ensures
        is_key(key, "hostname"@) ==> config_of(rows.push(row_of(key, value)), session, windows)
            == Ok::<ConfigModel, ClientError>(ConfigModel { hostname: value, ..config }),
        is_key(key, "user"@) ==> config_of(rows.push(row_of(key, value)), session, windows)
            == Ok::<ConfigModel, ClientError>(ConfigModel { user: Some(value), ..config }),
        is_key(key, "port"@) ==> config_of(
            rows.push(row_of(key, decimal(port as nat))),
            session,
            windows,
        ) == Ok::<ConfigModel, ClientError>(ConfigModel { port, ..config }),
{
    lemma_keys();
    let policies = match policies_of(rows, windows) {
        Some(policies) => policies,
        None => arbitrary(),
    };
    if is_key(key, "hostname"@) || is_key(key, "user"@) {
        let row = row_of(key, value);
        lemma_row(key, value);
        lemma_push(rows, row, policies);
        lemma_settings_push(rows, row, windows);
    }
    if is_key(key, "port"@) {
        let text = decimal(port as nat);
        decimal_reads_back(port as nat);
        assert forall|i: int| 0 <= i < text.len() implies !is_space(#[trigger] text[i]) by {
            assert(is_digit(text[i]));
        }
        let row = row_of(key, text);
        lemma_row(key, text);
        lemma_push(rows, row, policies);
        lemma_settings_push(rows, row, windows);
        assert(is_digit(text[0]));
    }
}

/// A session's jumphost and agent are those of the last row that names them,
/// as it is printed; a jumphost that is called `none` is none.
pub proof fn session_rows_count(
    rows: Seq<Seq<char>>,
    key: Seq<char>,
    value: Seq<char>,
    windows: bool,
    config: ConfigModel,
)
    requires
        config_of(rows, true, windows) == Ok::<ConfigModel, ClientError>(config),
    ensures
        is_key(key, "proxyjump"@) ==> config_of(rows.push(row_of(key, value)), true, windows) == Ok::<
            ConfigModel,
            ClientError,
        >(
            ConfigModel {
                proxy_jump: if value == "none"@ {
                    None
                } else {
                    Some(value)
                },
                ..config
            },
        ),
        is_key(key, "identityagent"@) ==> config_of(rows.push(row_of(key, value)), true, windows)
            == Ok::<ConfigModel, ClientError>(ConfigModel { identity_agent: Some(value), ..config }),
        is_key(key, "forwardagent"@) && value == "yes"@ ==> config_of(
            rows.push(row_of(key, value)),
            true,
            windows,
        ) == Ok::<ConfigModel, ClientError>(ConfigModel { forward_agent: true, ..config }),
        is_key(key, "forwardagent"@) && value == "no"@ ==> config_of(
            rows.push(row_of(key, value)),
            true,
            windows,
        ) == Ok::<ConfigModel, ClientError>(ConfigModel { forward_agent: false, ..config }),
        is_key(key, "forwardagent"@) && value != "yes"@ && value != "no"@ ==> config_of(
            rows.push(row_of(key, value)),
            true,
            windows,
        ) is Err,
{
    lemma_keys();
    reveal_strlit("yes");
    reveal_strlit("no");
    let policies = policies_of(rows, windows)->0;
    if key.len() > 0 && is_inked(key) {
        let row = row_of(key, value);
        lemma_row(key, value);
        lemma_push(rows, row, policies);
        if is_key(key, "proxyjump"@) || is_key(key, "identityagent"@) || is_key(
            key,
            "forwardagent"@,
        ) {
            lemma_settings_push(rows, row, windows);
        }
    }
}

/// An assignment is added behind the others, name and value as they are
/// printed, unless its name is assigned already.
pub proof fn assignments_are_collected(
    rows: Seq<Seq<char>>,
    key: Seq<char>,
    name: Seq<char>,
    value: Seq<char>,
    windows: bool,
    config: ConfigModel,
)
    requires
        config_of(rows, true, windows) == Ok::<ConfigModel, ClientError>(config),
        is_key(key, "setenv"@),
        is_environment_name(name),
        !name.contains('='),
        encode_utf8(value).len() <= 4096,
        !value.contains('\0') && !value.contains('\r'),
    ensures
        (forall|i: int| 0 <= i < config.set_env.len() ==> (#[trigger] config.set_env[i]).0 != name)
            ==> config_of(rows.push(row_of(key, name + (seq!['='] + value))), true, windows) == Ok::<
            ConfigModel,
            ClientError,
        >(ConfigModel { set_env: config.set_env.push((name, value)), ..config }),
        (exists|i: int| 0 <= i < config.set_env.len() && (#[trigger] config.set_env[i]).0 == name)
            ==> config_of(rows.push(row_of(key, name + (seq!['='] + value))), true, windows) == Ok::<
            ConfigModel,
            ClientError,
        >(config),
{
    lemma_keys();
    let policies = policies_of(rows, windows)->0;
    let text = name + (seq!['='] + value);
    let row = row_of(key, text);
    lemma_row(key, text);
    lemma_push(rows, row, policies);
    lemma_settings_push(rows, row, windows);
    let k = name.len() as int;
    assert forall|i: int| 0 <= i < k implies text[i] != '=' by {
        assert(text[i] == name[i]);
        assert(name.contains(name[i]));
    }
    assert(text[k] == '=');
    lemma_first_index(text, '=', k);
    assert(text.take(k) =~= name);
    assert(text.skip(k + 1) =~= value);
    assert(assignment_of(row) == Some((name, value)));
}

/// The first setting counts: strict forwarding is off unless the first row
/// about it says `yes`.
pub proof fn first_settings_count(rows: Seq<Seq<char>>, key: Seq<char>, value: Seq<char>)
    requires
        is_key(key, "exitonforwardfailure"@),
        is_word(value),
    ensures
        (forall|i: int| 0 <= i < rows.len() ==> !has_key(#[trigger] rows[i], "exitonforwardfailure"@))
            ==> strict_forwarding(rows) == Some(false) && strict_forwarding(
            rows.push(row_of(key, value)),
        ) == if value == "yes"@ {
            Some(true)
        } else if value == "no"@ {
            Some(false)
        } else {
            None
        },
        strict_forwarding(rows) == Some(true) ==> strict_forwarding(rows.push(row_of(key, value)))
            == Some(true),
{
    lemma_row(key, value);
    lemma_first_setting_push(rows, row_of(key, value), "exitonforwardfailure"@);
    if forall|i: int|
        0 <= i < rows.len() ==> !has_key(#[trigger] rows[i], "exitonforwardfailure"@) {
        lemma_no_setting(rows, "exitonforwardfailure"@);
    }
}

proof fn lemma_no_setting(rows: Seq<Seq<char>>, key: Seq<char>)
    requires
        forall|i: int| 0 <= i < rows.len() ==> !has_key(#[trigger] rows[i], key),
    ensures
        first_setting(rows, key) is None,
    decreases rows.len(),
{
    if rows.len() > 0 {
        assert(!has_key(rows[0], key));
        assert forall|i: int| 0 <= i < rows.skip(1).len() implies !has_key(
            #[trigger] rows.skip(1)[i],
            key,
        ) by {
            assert(rows.skip(1)[i] == rows[i + 1]);
        }
        lemma_no_setting(rows.skip(1), key);
    }
}

/// The defaults that `ssh -G` prints for sockets change nothing: with or
/// without them a configuration is the same. Any other way to bind them is
/// not supported.
pub proof fn default_socket_settings_change_nothing(
    rows: Seq<Seq<char>>,
    mask: Seq<char>,
    session: bool,
    windows: bool,
)
    ensures
        config_of(rows.push("streamlocalbindunlink no"@), session, windows) == config_of(
            rows,
            session,
            windows,
        ),
        config_of(rows.push("streamlocalbindmask 0177"@), session, windows) == config_of(
            rows,
            session,
            windows,
        ),
        config_of(rows.push("streamlocalbindmask 177"@), session, windows) == config_of(
            rows,
            session,
            windows,
        ),
        stream_bind_policy(Seq::empty()) == StreamLocalBindPolicy::Default,
        is_word(mask) && mask != "0177"@ && mask != "177"@ ==> stream_bind_policy(
            rows.push(row_of("streamlocalbindmask"@, mask)),
        ) == StreamLocalBindPolicy::Unsupported,
        is_word(mask) && !same_ignoring_case(mask, "no"@) ==> stream_bind_policy(
            rows.push(row_of("streamlocalbindunlink"@, mask)),
        ) == StreamLocalBindPolicy::Unsupported,
{
    lemma_keys();
    reveal_strlit("streamlocalbindunlink");
    reveal_strlit("streamlocalbindmask");
    reveal_strlit("no");
    reveal_strlit("0177");
    reveal_strlit("177");
    reveal_strlit("streamlocalbindunlink no");
    reveal_strlit("streamlocalbindmask 0177");
    reveal_strlit("streamlocalbindmask 177");
    let unlink = "streamlocalbindunlink"@;
    let mode = "streamlocalbindmask"@;
    assert("streamlocalbindunlink no"@ =~= row_of(unlink, "no"@));
    assert("streamlocalbindmask 0177"@ =~= row_of(mode, "0177"@));
    assert("streamlocalbindmask 177"@ =~= row_of(mode, "177"@));
    lemma_row(unlink, "no"@);
    lemma_row(mode, "0177"@);
    lemma_row(mode, "177"@);
    lemma_quiet_row(rows, unlink, "no"@, session, windows);
    lemma_quiet_row(rows, mode, "0177"@, session, windows);
    lemma_quiet_row(rows, mode, "177"@, session, windows);
    if is_word(mask) {
        lemma_row(mode, mask);
        lemma_row(unlink, mask);
        lemma_stream_push(rows, row_of(mode, mask));
        lemma_stream_push(rows, row_of(unlink, mask));
    }
}

/// A row whose key means nothing here changes nothing, and neither does one
/// that repeats a default.
proof fn lemma_quiet_row(
    rows: Seq<Seq<char>>,
    key: Seq<char>,
    value: Seq<char>,
    session: bool,
    windows: bool,
)
    requires
        key.len() > 0,
        is_inked(key),
        !changes_stream_bind(row_of(key, value)),
        !same_ignoring_case(key, "hostname"@) && !same_ignoring_case(key, "user"@)
            && !same_ignoring_case(key, "port"@) && !same_ignoring_case(key, "proxyjump"@)
            && !same_ignoring_case(key, "forwardagent"@) && !same_ignoring_case(
            key,
            "localforward"@,
        ) && !same_ignoring_case(key, "gatewayports"@) && !same_ignoring_case(
            key,
            "identityagent"@,
        ) && !same_ignoring_case(key, "setenv"@) && !same_ignoring_case(
            key,
            "exitonforwardfailure"@,
        ),
    ensures
        config_of(rows.push(row_of(key, value)), session, windows) == config_of(
            rows,
            session,
            windows,
        ),
{
    let row = row_of(key, value);
    lemma_row(key, value);
    lemma_settings_push(rows, row, windows);
    let policies = match policies_of(rows, windows) {
        Some(policies) => policies,
        None => arbitrary(),
    };
    lemma_push(rows, row, policies);
}

/// A row with a key that means nothing to a session changes nothing.
pub proof fn other_rows_change_nothing(
    rows: Seq<Seq<char>>,
    key: Seq<char>,
    value: Seq<char>,
    session: bool,
    windows: bool,
)
    requires
        key.len() > 0,
        is_inked(key),
        forall|name: Seq<char>|
            #![trigger same_ignoring_case(key, name)]
            name == "hostname"@ || name == "user"@ || name == "port"@ || name == "proxyjump"@
                || name == "forwardagent"@ || name == "localforward"@ || name == "gatewayports"@
                || name == "identityagent"@ || name == "setenv"@ || name
                == "exitonforwardfailure"@ || name == "streamlocalbindunlink"@ || name
                == "streamlocalbindmask"@ ==> !same_ignoring_case(key, name),
    ensures
        config_of(rows.push(row_of(key, value)), session, windows) == config_of(
            rows,
            session,
            windows,
        ),
{
    lemma_row(key, value);
    lemma_quiet_row(rows, key, value, session, windows);
}

// Forwarding rows.

proof fn lemma_port(port: u16)
    requires
        port != 0,
    ensures
        port_of(decimal(port as nat)) == Some(port as i32),
        decimal(port as nat).len() > 0,
        all_digits(decimal(port as nat)),
        !decimal(port as nat).contains(':'),
        is_digit(decimal(port as nat)[0]),
{
    let text = decimal(port as nat);
    decimal_reads_back(port as nat);
    assert(is_digit(text[0]));
    if text.contains(':') {
        let i = choose|i: int| 0 <= i < text.len() && text[i] == ':';
        assert(is_digit(text[i]));
    }
}

proof fn lemma_bracket_end(host: Seq<char>, rest: Seq<char>)
    requires
        !host.contains(']'),
    ensures
        bracket_end(host + (seq![']', ':'] + rest)) == host.len(),
    decreases host.len(),
{
    let all = host + (seq![']', ':'] + rest);
    if host.len() == 0 {
        assert(all[0] == ']' && all[1] == ':');
    } else {
        assert(host.contains(host[0]));
        assert(all[0] == host[0]);
        let tail = host.skip(1);
        assert forall|i: int| 0 <= i < tail.len() implies tail[i] != ']' by {
            assert(tail[i] == host[i + 1]);
            assert(host.contains(host[i + 1]));
        }
        lemma_bracket_end(tail, rest);
        assert(all.skip(1) =~= tail + (seq![']', ':'] + rest));
    }
}

/// `host:port` and `[host]:port` are read as the host and the port, the
/// latter also where the host holds colons.
pub proof fn tcp_endpoints_read_back(host: Seq<char>, port: u16, allow_empty_host: bool)
    requires
        port != 0,
        host.len() > 0,
    ensures
        !host.contains(':') && host[0] != '[' ==> tcp_endpoint_of(
            host + (seq![':'] + decimal(port as nat)),
            allow_empty_host,
        ) == Some(EndpointModel { name: Some(host), port: Some(port as i32) }),
        !host.contains(']') ==> tcp_endpoint_of(
            seq!['['] + (host + (seq![']', ':'] + decimal(port as nat))),
            allow_empty_host,
        ) == Some(EndpointModel { name: Some(host), port: Some(port as i32) }),
{
    let text = decimal(port as nat);
    lemma_port(port);
    if !host.contains(':') && host[0] != '[' {
        let all = host + (seq![':'] + text);
        let k = host.len() as int;
        assert forall|i: int| k < i < all.len() implies all[i] != ':' by {
            assert(all[i] == text[i - k - 1]);
            assert(text.contains(text[i - k - 1]));
        }
        assert(all[k] == ':');
        lemma_last_index(all, ':', k);
        assert(all.take(k) =~= host);
        assert(all.skip(k + 1) =~= text);
    }
    if !host.contains(']') {
        let body = host + (seq![']', ':'] + text);
        let all = seq!['['] + body;
        assert(all.skip(1) =~= body);
        lemma_bracket_end(host, text);
        assert(body.take(host.len() as int) =~= host);
        assert(body.skip(host.len() as int + 2) =~= text);
    }
}

/// A source that is a port alone listens on this machine, or on every
/// interface where gateway ports are on. A source with a host listens there,
/// and `*` stands for every interface. A path is a socket.
pub proof fn sources_listen_where_they_say(host: Seq<char>, port: u16, gateway_ports: GatewayPorts)
    requires
        port != 0,
    ensures
        source_endpoint_of(decimal(port as nat), gateway_ports, true) == Some(
            EndpointModel {
                name: Some(
                    if gateway_ports == GatewayPorts::Yes {
                        Seq::empty()
                    } else {
                        "localhost"@
                    },
                ),
                port: Some(port as i32),
            },
        ),
        host.len() > 0 && !host.contains(':') && host[0] != '[' && host[0] != '/' && host != "*"@
            ==> source_endpoint_of(
            host + (seq![':'] + decimal(port as nat)),
            gateway_ports,
            true,
        ) == Some(EndpointModel { name: Some(host), port: Some(port as i32) }),
        source_endpoint_of(
            "*"@ + (seq![':'] + decimal(port as nat)),
            gateway_ports,
            true,
        ) == Some(EndpointModel { name: Some(Seq::empty()), port: Some(port as i32) }),
        host.len() > 1 && host[0] == '/' && encode_utf8(host).len() <= 107
            && !host.contains('\0') ==> source_endpoint_of(host, gateway_ports, true) == Some(
            EndpointModel { name: Some(host), port: None },
        ) && destination_endpoint_of(host) == Some(EndpointModel { name: Some(host), port: None }),
        host.len() > 0 && !host.contains(':') && host[0] != '[' && host[0] != '/'
            ==> destination_endpoint_of(host + (seq![':'] + decimal(port as nat))) == Some(
            EndpointModel { name: Some(host), port: Some(port as i32) },
        ),
{
    reveal_strlit("*");
    reveal_strlit("[*]");
    lemma_port(port);
    let text = decimal(port as nat);
    let star = "*"@ + (seq![':'] + text);
    tcp_endpoints_read_back("*"@, port, true);
    assert(star[1] == ':');
    assert(!is_digit(star[1]));
    assert(!all_digits(star));
    if host.len() > 0 && !host.contains(':') && host[0] != '[' && host[0] != '/' {
        tcp_endpoints_read_back(host, port, true);
        tcp_endpoints_read_back(host, port, false);
        let all = host + (seq![':'] + text);
        assert(all[host.len() as int] == ':');
        assert(!is_digit(all[host.len() as int]));
        assert(!all_digits(all));
        assert(all[0] == host[0]);
    }
}

/// A row that forwards a port adds the forwarding behind the others, from its
/// source to its destination, and changes nothing else.
pub proof fn forwarding_rows_add_up(
    rows: Seq<Seq<char>>,
    key: Seq<char>,
    port: u16,
    host: Seq<char>,
    target: u16,
    windows: bool,
    config: ConfigModel,
)
    requires
        config_of(rows, true, windows) == Ok::<ConfigModel, ClientError>(config),
        is_key(key, "localforward"@),
        port != 0 && target != 0,
        is_word(host),
        !host.contains(':') && !host.contains('/') && host[0] != '[',
    ensures
        ({
            let gateway = first_setting(rows, "gatewayports"@) == Some("yes"@);
            let request = RequestModel {
                source: Some(
                    EndpointModel {
                        name: Some(
                            if gateway {
                                Seq::empty()
                            } else {
                                "localhost"@
                            },
                        ),
                        port: Some(port as i32),
                    },
                ),
                destination: Some(
                    EndpointModel { name: Some(host), port: Some(target as i32) },
                ),
                environmentvariable: None,
            };
            config_of(
                rows.push(
                    row_of(
                        key,
                        decimal(port as nat) + (seq![' '] + (host + (seq![':'] + decimal(
                            target as nat,
                        )))),
                    ),
                ),
                true,
                windows,
            ) == Ok::<ConfigModel, ClientError>(
                ConfigModel { local_forwards: config.local_forwards.push(request), ..config },
            )
        }),
{
    lemma_keys();
    reveal_strlit("yes");
    reveal_strlit("no");
    reveal_strlit("clientspecified");
    let policies = policies_of(rows, windows)->0;
    let source = decimal(port as nat);
    let destination = host + (seq![':'] + decimal(target as nat));
    let value = source + (seq![' '] + destination);
    let row = row_of(key, value);
    lemma_port(port);
    lemma_port(target);
    lemma_row(key, value);
    assert(is_inked(source)) by {
        assert forall|i: int| 0 <= i < source.len() implies !is_space(#[trigger] source[i]) by {
            assert(is_digit(source[i]));
        }
    }
    assert(is_inked(destination)) by {
        assert forall|i: int| 0 <= i < destination.len() implies !is_space(
            #[trigger] destination[i],
        ) by {
            if i < host.len() {
                assert(destination[i] == host[i]);
            } else if i > host.len() {
                assert(destination[i] == decimal(target as nat)[i - host.len() - 1]);
                assert(is_digit(decimal(target as nat)[i - host.len() - 1]));
            }
        }
    }
    lemma_row(source, destination);
    assert(value =~= row_of(source, destination));
    words_are_read_from_the_front(destination, Seq::empty());
    let fields = words(row).skip(1);
    assert(fields =~= seq![source, destination]) by {
        lemma_row(key, destination);
    }
    assert(!source.contains('/')) by {
        if source.contains('/') {
            let i = choose|i: int| 0 <= i < source.len() && source[i] == '/';
            assert(is_digit(source[i]));
        }
    }
    assert(!destination.contains('/')) by {
        if destination.contains('/') {
            let i = choose|i: int| 0 <= i < destination.len() && destination[i] == '/';
            if i < host.len() {
                assert(destination[i] == host[i]);
                assert(host.contains(host[i]));
            } else {
                assert(i > host.len());
                assert(is_digit(decimal(target as nat)[i - host.len() - 1]));
            }
        }
    }
    assert(host[0] != '/') by {
        assert(host.contains(host[0]));
    }
    assert(destination[0] == host[0]);
    sources_listen_where_they_say(host, port, policies.gateway_ports);
    sources_listen_where_they_say(host, target, policies.gateway_ports);
    assert(source[0] != '/') by {
        assert(source.contains(source[0]));
    }
    let request = RequestModel {
        source: source_endpoint_of(source, policies.gateway_ports, true),
        destination: destination_endpoint_of(destination),
        environmentvariable: None,
    };
    assert(fields[0] == source && fields[1] == destination);
    assert(forward_of(fields, policies) == Ok::<ForwardModel, ClientError>(
        ForwardModel::Supported(request),
    ));
    lemma_push(rows, row, policies);
    lemma_settings_push(rows, row, windows);
    assert(row_fault(row, policies) is None);
    assert(supported_forwards(rows.push(row), policies) == config.local_forwards.push(request));
    assert("yes"@.len() == 3 && "no"@.len() == 2 && "clientspecified"@.len() == 15);
    if first_setting(rows, "gatewayports"@) is Some {
        let setting = first_setting(rows, "gatewayports"@)->0;
        assert(policies.gateway_ports == GatewayPorts::Yes <==> setting == "yes"@);
    }
}

/// A row that forwards one socket to another adds that forwarding behind the
/// others, as long as nothing but the defaults is set for sockets. With other
/// settings, and on Windows, it is skipped and changes nothing.
pub proof fn socket_rows_add_up(
    rows: Seq<Seq<char>>,
    key: Seq<char>,
    source: Seq<char>,
    destination: Seq<char>,
    windows: bool,
    config: ConfigModel,
)
    requires
        config_of(rows, true, windows) == Ok::<ConfigModel, ClientError>(config),
        is_key(key, "localforward"@),
        is_word(source) && source.len() > 1 && source[0] == '/' && !source.contains('\0')
            && encode_utf8(source).len() <= 107,
        is_word(destination) && destination.len() > 1 && destination[0] == '/'
            && !destination.contains('\0') && encode_utf8(destination).len() <= 107,
    ensures
        config_of(rows.push(row_of(key, source + (seq![' '] + destination))), true, windows) == Ok::<
            ConfigModel,
            ClientError,
        >(
            if windows || stream_bind_policy(rows) != StreamLocalBindPolicy::Default {
                config
            } else {
                ConfigModel {
                    local_forwards: config.local_forwards.push(
                        RequestModel {
                            source: Some(EndpointModel { name: Some(source), port: None }),
                            destination: Some(
                                EndpointModel { name: Some(destination), port: None },
                            ),
                            environmentvariable: None,
                        },
                    ),
                    ..config
                }
            },
        ),
{
    lemma_keys();
    let policies = policies_of(rows, windows)->0;
    let value = source + (seq![' '] + destination);
    let row = row_of(key, value);
    lemma_row(key, value);
    lemma_row(source, destination);
    assert(value =~= row_of(source, destination));
    let fields = words(row).skip(1);
    assert(fields =~= seq![source, destination]);
    assert(fields[0] == source && fields[1] == destination);
    sources_listen_where_they_say(source, 1, policies.gateway_ports);
    sources_listen_where_they_say(destination, 1, policies.gateway_ports);
    lemma_push(rows, row, policies);
    lemma_settings_push(rows, row, windows);
}

/// A session is refused over a forwarding row that has too few words, or a
/// port that is none: nothing of what the user asked for is left out silently.
pub proof fn malformed_forwardings_are_refused(
    rows: Seq<Seq<char>>,
    key: Seq<char>,
    word: Seq<char>,
    windows: bool,
    config: ConfigModel,
)
    requires
        config_of(rows, true, windows) == Ok::<ConfigModel, ClientError>(config),
        is_key(key, "localforward"@),
        is_word(word),
        !word.contains('/'),
    ensures
        config_of(rows.push(row_of(key, word)), true, windows) is Err,
        config_of(rows.push(row_of(key, seq!['0'] + (seq![' '] + word))), true, windows) is Err,
{
    lemma_keys();
    let policies = policies_of(rows, windows)->0;
    let short = row_of(key, word);
    lemma_row(key, word);
    assert(words(short).skip(1) =~= seq![word]);
    lemma_push(rows, short, policies);
    lemma_settings_push(rows, short, windows);
    assert(!exists|i: int|
        0 <= i < seq![word].len() && (#[trigger] seq![word][i]).contains('/')) by {
        if exists|i: int| 0 <= i < seq![word].len() && (#[trigger] seq![word][i]).contains('/') {
            let i = choose|i: int|
                0 <= i < seq![word].len() && (#[trigger] seq![word][i]).contains('/');
            assert(seq![word][i] == word);
        }
    }
    let zero = seq!['0'];
    assert(is_inked(zero));
    let value = zero + (seq![' '] + word);
    let row = row_of(key, value);
    lemma_row(key, value);
    lemma_row(zero, word);
    assert(value =~= row_of(zero, word));
    let fields = words(row).skip(1);
    assert(fields =~= seq![zero, word]);
    assert(fields[0] == zero && fields[1] == word);
    assert(!zero.contains('/'));
    assert(word[0] != '/') by {
        assert(word.contains(word[0]));
    }
    assert(is_digit('0'));
    assert(all_digits(zero));
    decimal_reads_back(0);
    assert(decimal(0) =~= zero) by {
        lemma_zero_is_spelled();
    }
    assert(port_of(zero) is None);
    assert(source_endpoint_of(zero, policies.gateway_ports, true) is None);
    lemma_push(rows, row, policies);
    lemma_settings_push(rows, row, windows);
}

proof fn lemma_zero_is_spelled()
    ensures
        decimal(0) =~= seq!['0'],
{
    reveal_with_fuel(decimal, 2);
}

/// Every forwarding of a configuration that is taken is either set up or told
/// of as skipped.
pub proof fn forwardings_are_set_up_or_told(rows: Seq<Seq<char>>, policies: ForwardPolicies)
    requires
        first_fault(rows, policies) is None,
    ensures
        supported_forwards(rows, policies).len() + row_warnings(rows, policies).len() == rows.filter(
            |row: Seq<char>| has_key(row, "localforward"@),
        ).len(),
    decreases rows.len(),
{
    let is_forward = |row: Seq<char>| has_key(row, "localforward"@);
    if rows.len() == 0 {
        reveal(Seq::filter);
    } else {
        let head = rows[0];
        let rest = rows.skip(1);
        reveal_with_fuel(first_fault, 2);
        assert(row_fault(head, policies) is None);
        assert(first_fault(rest, policies) is None);
        forwardings_are_set_up_or_told(rest, policies);
        lemma_supported_from_the_front(rows, policies);
        lemma_filter_from_the_front(rows, is_forward);
        lemma_keys();
        if has_key(head, "localforward"@) {
            lemma_only_one_key(head);
        }
    }
}

/// A forwarding row is no other row that can be refused.
proof fn lemma_only_one_key(row: Seq<char>)
    requires
        has_key(row, "localforward"@),
    ensures
        !has_key(row, "setenv"@),
        !has_key(row, "forwardagent"@),
{
    lemma_keys();
}

proof fn lemma_supported_from_the_front(rows: Seq<Seq<char>>, policies: ForwardPolicies)
    requires
        rows.len() > 0,
    ensures
        supported_forwards(rows, policies).len() == supported_forwards(
            rows.skip(1),
            policies,
        ).len() + (if has_key(rows[0], "localforward"@) && (forward_of(
            words(rows[0]).skip(1),
            policies,
        ) matches Ok(ForwardModel::Supported(_))) {
            1int
        } else {
            0int
        }),
    decreases rows.len(),
{
    if rows.len() == 1 {
        assert(rows.drop_last() =~= Seq::<Seq<char>>::empty());
        assert(rows.skip(1) =~= Seq::<Seq<char>>::empty());
        assert(supported_forwards(rows.drop_last(), policies).len() == 0);
        assert(rows.last() == rows[0]);
    } else {
        let before = rows.drop_last();
        lemma_supported_from_the_front(before, policies);
        assert(before[0] == rows[0]);
        assert(rows.skip(1).drop_last() =~= before.skip(1));
        assert(rows.skip(1).last() == rows.last());
    }
}

proof fn lemma_filter_from_the_front(rows: Seq<Seq<char>>, keep: spec_fn(Seq<char>) -> bool)
    requires
        rows.len() > 0,
    ensures
        rows.filter(keep).len() == rows.skip(1).filter(keep).len() + (if keep(rows[0]) {
            1int
        } else {
            0int
        }),
    decreases rows.len(),
{
    reveal(Seq::filter);
    if rows.len() == 1 {
        assert(rows.drop_last() =~= Seq::<Seq<char>>::empty());
        assert(rows.skip(1) =~= Seq::<Seq<char>>::empty());
        assert(rows.drop_last().filter(keep).len() == 0);
        assert(rows.last() == rows[0]);
    } else {
        let before = rows.drop_last();
        lemma_filter_from_the_front(before, keep);
        assert(before[0] == rows[0]);
        assert(rows.skip(1).drop_last() =~= before.skip(1));
        assert(rows.skip(1).last() == rows.last());
    }
}

/// A query asks `ssh` for the configuration of its own destination: for the
/// user and the host last, and with the port and the file that were given.
pub proof fn queries_name_their_destination(
    query: &SshConfigQuery<'_>,
    baseline: bool,
    invocation: SshInvocation,
)
    requires
        call_ensures(config_query, (query, baseline), invocation),
    ensures
        invocation.program@ == "ssh"@,
        invocation.args@.len() >= 3,
        invocation.args@[0]@ == "-G"@,
        query.requested_user is None ==> invocation.args@.last()@ == query.host_alias@,
        (query.requested_user matches Some(user)) ==> invocation.args@.last()@
            == query.requested_user->0@ + (seq!['@'] + query.host_alias@),
        query.ssh_config is None && !baseline && query.explicit_port is Some
            ==> invocation.args@[2]@ == "-p"@ && invocation.args@[3]@ == decimal(
            query.explicit_port->0 as nat,
        ),
        !baseline && query.ssh_config is Some ==> invocation.args@[2]@ == "-F"@
            && invocation.args@[3]@ == query.ssh_config->0@,
        query.ssh_options@.len() == 0 && query.ssh_config is None && query.explicit_port is None
            && !baseline ==> invocation.args@.len() == 3,
{
    reveal_strlit("@");
    let args = invocation.args.deep_view();
    assert(args.len() == invocation.args@.len());
    assert(args[0] == invocation.args@[0]@);
    assert(args.last() == invocation.args@.last()@);
    let destination = ssh_destination(query.requested_user.deep_view(), query.host_alias@);
    assert(args.last() == destination);
    if let Some(user) = query.requested_user {
        assert(destination =~= user@ + (seq!['@'] + query.host_alias@));
    }
    if args.len() > 3 {
        assert(args[2] == invocation.args@[2]@ && args[3] == invocation.args@[3]@);
    }
    if query.ssh_options@.len() == 0 {
        assert(query.ssh_options.deep_view() =~= Seq::<Seq<char>>::empty());
    }
}

/// An output that sets variables is held against its baseline: it does where a
/// line of it begins with `setenv`, the first one or any other.
pub proof fn variables_need_a_baseline(
    stdout: &[u8],
    before: Seq<u8>,
    rest: Seq<u8>,
    r: bool,
)
    requires
        call_ensures(needs_baseline, (stdout,), r),
    ensures
        stdout@ == before + (seq![10u8] + (ascii("setenv "@) + rest)) ==> r,
        stdout@ == ascii("setenv "@) + rest ==> r,
        stdout@.len() < 7 ==> !r,
{
    reveal_strlit("setenv ");
    let word = ascii("setenv "@);
    assert(word.len() == 7);
    if stdout@ == before + (seq![10u8] + (word + rest)) {
        let k = before.len() as int + 1;
        assert(stdout@.subrange(k, k + 7) =~= word);
        assert(crate::bytes::occurs_at(stdout@, word, k));
        assert(stdout@[k - 1] == 10);
    }
    if stdout@ == word + rest {
        assert(stdout@.subrange(0, 0 + word.len() as int) =~= word);
        assert(crate::bytes::occurs_at(stdout@, word, 0));
    }
}

/// A configuration file is used where its path is absolute and plain and it
/// is a file that can be read.
pub proof fn plain_files_are_accepted(
    path: &str,
    state: Option<ConfigFileState>,
    r: Result<(), ClientError>,
)
    requires
        call_ensures(validate_ssh_config_file, (path, state), r),
        path@.len() > 0 && path@[0] == '/',
        !windows_absolute(path@),
    ensures
        r is Ok <==> (state matches Some(found) && found.regular && found.readable) && (forall|
            i: int,
        |
            0 <= i < path@.len() ==> is_alphanumeric(#[trigger] path@[i]) || path@[i] == '/'
                || path@[i] == '.' || path@[i] == '_' || path@[i] == '-'),
{
    if forall|i: int|
        0 <= i < path@.len() ==> is_alphanumeric(#[trigger] path@[i]) || path@[i] == '/' || path@[i]
            == '.' || path@[i] == '_' || path@[i] == '-' {
        assert(safe_path(path@));
    } else {
        let i = choose|i: int|
            0 <= i < path@.len() && !(is_alphanumeric(#[trigger] path@[i]) || path@[i] == '/'
                || path@[i] == '.' || path@[i] == '_' || path@[i] == '-');
        assert(!safe_path_char(path@[i], false));
    }
}

/// The output of `ssh -G` is read row by row, whatever ends its lines, and one
/// that is no text is refused.
pub proof fn outputs_are_read_as_rows(
    stdout: &[u8],
    text: Seq<char>,
    session: bool,
    windows: bool,
    r: Result<ResolvedSshConfig, ClientError>,
)
    requires
        call_ensures(parse_ssh_config, (stdout, session, windows), r),
        stdout@ == encode_utf8(text),
    ensures
        r is Ok <==> config_of(lines(text), session, windows) is Ok,
        r is Ok ==> config_of(lines(text), session, windows) == Ok::<ConfigModel, ClientError>(
            r->Ok_0.deep_view(),
        ),
        r is Err ==> config_of(lines(text), session, windows) == Err::<ConfigModel, ClientError>(
            r->Err_0,
        ),
{
    encode_utf8_valid_utf8(text);
    encode_utf8_decode_utf8(text);
}

/// A configuration that sets variables counts only where its baseline shows
/// that they add nothing else; then, and where it sets none, it is read as it
/// is.
pub proof fn unverified_variables_are_refused(
    stdout: &[u8],
    baseline: Option<&[u8]>,
    session: bool,
    windows: bool,
    needed: bool,
    verified: Result<(), ClientError>,
    r: Result<ResolvedSshConfig, ClientError>,
    plain: Result<ResolvedSshConfig, ClientError>,
)
    requires
        call_ensures(needs_baseline, (stdout,), needed),
        needed ==> baseline is Some,
        baseline is Some ==> call_ensures(verify_setenv_block, (stdout, baseline->0), verified),
        call_ensures(conclude_ssh_config, (stdout, baseline, session, windows), r),
        call_ensures(parse_ssh_config, (stdout, session, windows), plain),
    ensures
        needed && verified is Err ==> r is Err,
        !needed || verified is Ok ==> (r is Ok <==> plain is Ok),
        (!needed || verified is Ok) && r is Ok ==> r->Ok_0.deep_view() == plain->Ok_0.deep_view(),
        verified is Ok && needed ==> setenv_confined(
            decode_utf8(stdout@),
            decode_utf8(baseline->0@),
        ),
{
}

/// Options of a query are passed on in their order, without those that steer
/// connection sharing.
pub proof fn query_options_keep_their_order(
    first: Seq<Seq<char>>,
    second: Seq<Seq<char>>,
    option: Seq<char>,
)
    ensures
        query_options(first + second) == query_options(first) + query_options(second),
        !controls_sharing(option) ==> query_options(seq![option]) == seq!["-o"@ + option],
        controls_sharing(option) ==> query_options(seq![option]).len() == 0,
    decreases second.len(),
{
    if second.len() == 0 {
        assert(first + second =~= first);
        assert(query_options(first) + query_options(second) =~= query_options(first));
    } else {
        query_options_keep_their_order(first, second.drop_last(), option);
        assert((first + second).drop_last() =~= first + second.drop_last());
        assert(query_options(first + second) =~= query_options(first) + query_options(second));
    }
    let alone = seq![option];
    assert(alone.drop_last() =~= Seq::<Seq<char>>::empty());
    assert(alone.last() == option);
    assert(query_options(alone.drop_last()) =~= Seq::<Seq<char>>::empty());
    assert(Seq::<Seq<char>>::empty().push("-o"@ + option) =~= seq!["-o"@ + option]);
}

/// Every dynamic forwarding that the user asked for is told of as skipped,
/// and so is every local one that is not set up.
pub proof fn skipped_forwardings_are_told(
    text: &str,
    windows: bool,
    out: Vec<String>,
    policies: ForwardPolicies,
)
    requires
        call_ensures(skipped_forward_warnings, (text, windows), out),
        policies_of(lines(text@), windows) == Some(policies),
        strict_forwarding(lines(text@)) is Some,
        first_fault(lines(text@), policies) is None,
    ensures
        out@.len() + supported_forwards(lines(text@), policies).len() == requested_dynamic_forwards(
            lines(text@),
        ).len() + lines(text@).filter(|row: Seq<char>| has_key(row, "localforward"@)).len(),
{
    forwardings_are_set_up_or_told(lines(text@), policies);
    assert(out.deep_view().len() == out@.len());
}

/// A path from the root of a Unix system is absolute, and so is one from a
/// drive; what a shell on the way could take for more than a path is not
/// handed through it.
pub proof fn plain_paths_are_handed_through(path: &str, absolute: bool, safe: bool)
    requires
        call_ensures(is_absolute_ssh_config_path, (path,), absolute),
        call_ensures(is_ssh_config_path_safe_for_proxy_jump, (path,), safe),
    ensures
        path@.len() > 0 && path@[0] == '/' ==> absolute,
        path@.len() == 0 ==> !absolute,
        safe ==> absolute,
        path@.contains(' ') || path@.contains(';') || path@.contains('$') || path@.contains('\'')
            || path@.contains('"') || path@.contains('`') || path@.contains('\n') ==> !safe,
        path@.len() > 0 && path@[0] == '/' && (forall|i: int|
            0 <= i < path@.len() ==> is_alphanumeric(#[trigger] path@[i]) || path@[i] == '/'
                || path@[i] == '.' || path@[i] == '_' || path@[i] == '-') ==> safe,
{
    if path@.len() == 0 {
        assert(path@ =~= Seq::<char>::empty());
        assert(encode_utf8(path@).len() == 0);
    }
    if safe {
        assert forall|i: int| 0 <= i < path@.len() implies safe_path_char(
            #[trigger] path@[i],
            windows_absolute(path@),
        ) by {}
    }
}

/// What stands behind the key of a forwarding is read whatever the key is.
pub proof fn keys_do_not_count(
    row: &[char],
    other: &[char],
    policies: ForwardPolicies,
    r: Result<ForwardRecord, ClientError>,
    s: Result<ForwardRecord, ClientError>,
)
    requires
        words(row@).len() > 0,
        words(other@).len() > 0,
        words(row@).skip(1) == words(other@).skip(1),
        call_ensures(parse_forward, (row, policies), r),
        call_ensures(parse_forward, (other, policies), s),
    ensures
        r is Ok <==> s is Ok,
        r is Ok ==> r->Ok_0.deep_view() == s->Ok_0.deep_view(),
        r is Err ==> r == s,
{
}

/// What a session skips is told with its first answer, or with the second
/// where the first sets variables; a failed answer ends the waiting, and
/// nothing is told twice.
pub proof fn skips_are_told_once(
    output: &SshOutput,
    first: Vec<u8>,
    plain: &[u8],
    stdout: &[u8],
    windows: bool,
    begun: (SkipReport, Vec<String>),
    continued: (SkipReport, Vec<String>),
    over: (SkipReport, Vec<String>),
    alone: Vec<String>,
    paired: Vec<String>,
)
    requires
        call_ensures(SkipReport::observe, (SkipReport::Configuration, output, windows), begun),
        call_ensures(SkipReport::observe, (SkipReport::Baseline(first), output, windows), continued),
        call_ensures(SkipReport::observe, (SkipReport::Nothing, output, windows), over),
        stdout@ == output.stdout@,
        plain@ == first@,
        call_ensures(session_warnings, (stdout, None, windows), alone),
        call_ensures(session_warnings, (plain, Some(stdout), windows), paired),
    ensures
        over.0 is Nothing && over.1@.len() == 0,
        output.status matches Some(status) && status.code != Some(0i32) ==> begun.0 is Nothing
            && begun.1@.len() == 0 && continued.0 is Nothing && continued.1@.len() == 0,
        (output.status is None || output.status->0.code == Some(0i32)) ==> continued.0 is Nothing
            && continued.1.deep_view() == paired.deep_view(),
        (output.status is None || output.status->0.code == Some(0i32)) ==> (match begun.0 {
            SkipReport::Baseline(kept) => kept@ == output.stdout@ && begun.1@.len() == 0,
            _ => begun.0 is Nothing && begun.1.deep_view() == alone.deep_view(),
        }),
{
}

/// Without a port of its own a lookup names the host, the user, the options
/// and the file that it was asked with.
pub proof fn lookups_ask_what_they_are_asked<R: SshRunner + ?Sized>(
    runner: &R,
    host_alias: &str,
    user: Option<&str>,
    options: &[String],
    file: Option<&str>,
    forwards: bool,
    windows: bool,
    deadline: Deadline,
    r: Result<ResolvedSshConfig, ClientError>,
)
    requires
        call_ensures(
            resolve_ssh_config::<R>,
            (runner, host_alias, user, options, file, forwards, windows, deadline),
            r,
        ),
    ensures
        exists|query: SshConfigQuery<'_>|
            #[trigger] call_ensures(resolve_ssh_config_on_port::<R>, (runner, query, deadline), r)
                && query.host_alias@ == host_alias@ && query.requested_user == user
                && query.explicit_port is None && query.ssh_options@ == options@
                && query.ssh_config == file && query.parse_local_forwards == forwards
                && query.windows == windows,
{
}

} // verus!
