//! What `ssh -G` says about a destination.
use vstd::prelude::*;
use vstd::slice::slice_subrange;
use vstd::utf8::{decode_utf8, encode_utf8, valid_utf8};

use crate::bootstrap::{
    append_ssh_config_flag, config_flags, controls_sharing, destination_fault, destination_of,
    is_control_option, ssh_destination, validate_ssh_destination, InvocationCompletion,
    SshInvocation,
};
use crate::bytes::occurs_at;
use crate::deadline::Deadline;
use crate::error::{joined, ClientError};
use crate::forward::{EndpointModel, PortForwardSourceRequest, RequestModel, SocketEndpoint};
use crate::ssh_process::{checked_answer, checked_output, run_checked, SshOutput, SshRunner};
use crate::terminal_protocol::{
    is_environment_name, valid_environment_name, MAX_ENV_VALUE,
};
use crate::text::{
    all_digits, char_is_digit, char_is_alphanumeric, chars_of, copy_of, decimal, decimal_string,
    find_char, first_index, first_space, is_alphanumeric, is_digit, last_index,
    lemma_chars_deep_view, lines, parse_number, parsed_number, push_text, rfind_char,
    same_ignoring_case, spells, spells_ignoring_case, split_lines, split_words, starts_with,
    string_of, trim_start, trim_start_chars, utf8_text, words,
};

verus! {

// Rows: one setting on a line, its key first.

/// Whether the first word of a row is `key`, in any case.
pub open spec fn has_key(row: Seq<char>, key: Seq<char>) -> bool {
    words(row).len() > 0 && same_ignoring_case(words(row)[0], key)
}

/// The second word of a row.
pub open spec fn second_word(row: Seq<char>) -> Option<Seq<char>> {
    if words(row).len() > 1 {
        Some(words(row)[1])
    } else {
        None
    }
}

/// Everything behind the whitespace character that ends the key. OpenSSH
/// prints values verbatim, without shell quoting.
pub open spec fn verbatim_value(row: Seq<char>) -> Seq<char> {
    let text = trim_start(row);
    if first_space(text) < text.len() {
        text.skip(first_space(text) + 1)
    } else {
        Seq::empty()
    }
}

/// The value of the first row that has `key` and a value.
pub open spec fn first_setting(rows: Seq<Seq<char>>, key: Seq<char>) -> Option<Seq<char>>
    decreases rows.len(),
{
    if rows.len() == 0 {
        None
    } else if has_key(rows[0], key) && second_word(rows[0]) is Some {
        second_word(rows[0])
    } else {
        first_setting(rows.skip(1), key)
    }
}

/// The last row that has `key`.
pub open spec fn last_row(rows: Seq<Seq<char>>, key: Seq<char>) -> Option<Seq<char>>
    decreases rows.len(),
{
    if rows.len() == 0 {
        None
    } else if has_key(rows.last(), key) {
        Some(rows.last())
    } else {
        last_row(rows.drop_last(), key)
    }
}

fn row_has_key(row: &[char], key: &str) -> (r: bool)
    ensures
        r == has_key(row@, key@),
{
    let fields = split_words(row);
    proof {
        if fields@.len() > 0 {
            lemma_chars_deep_view(fields@[0]);
            assert(fields.deep_view()[0] == fields@[0].deep_view());
        }
    }
    fields.len() > 0 && spells_ignoring_case(fields[0].as_slice(), key)
}

fn row_second_word(row: &[char]) -> (r: Option<String>)
    ensures
        r.deep_view() == second_word(row@),
{
    let fields = split_words(row);
    if fields.len() > 1 {
        proof {
            lemma_chars_deep_view(fields@[1]);
            assert(fields.deep_view()[1] == fields@[1].deep_view());
        }
        Some(string_of(fields[1].as_slice()))
    } else {
        None
    }
}

fn row_verbatim_value(row: &[char]) -> (out: Vec<char>)
    ensures
        out@ == verbatim_value(row@),
{
    let text = trim_start_chars(row);
    let mut k: usize = 0;
    while k < text.len() && !crate::text::char_is_space(text[k])
        invariant
            k <= text@.len(),
            forall|i: int| 0 <= i < k ==> !crate::text::is_space(#[trigger] text@[i]),
        decreases text@.len() - k,
    {
        k += 1;
    }
    proof {
        crate::text::lemma_first_space(text@, k as int);
    }
    if k < text.len() {
        let out = copy_of(slice_subrange(text, k + 1, text.len()));
        assert(out@ =~= verbatim_value(row@));
        out
    } else {
        Vec::new()
    }
}

fn find_first_setting(rows: &Vec<Vec<char>>, key: &str) -> (r: Option<String>)
    ensures
        r.deep_view() == first_setting(rows.deep_view(), key@),
{
    let ghost all = rows.deep_view();
    let mut i: usize = 0;
    assert(all.skip(0) =~= all);
    while i < rows.len()
        invariant
            i <= rows@.len(),
            all == rows.deep_view(),
            first_setting(all.skip(i as int), key@) == first_setting(all, key@),
        decreases rows@.len() - i,
    {
        proof {
            lemma_chars_deep_view(rows@[i as int]);
            assert(all.skip(i as int)[0] == rows@[i as int]@);
            assert(all.skip(i as int).skip(1) =~= all.skip(i + 1));
        }
        let row = rows[i].as_slice();
        if row_has_key(row, key) {
            let value = row_second_word(row);
            if value.is_some() {
                return value;
            }
        }
        i += 1;
    }
    None
}

fn find_last_row(rows: &Vec<Vec<char>>, key: &str) -> (r: Option<Vec<char>>)
    ensures
        match r {
            Some(row) => last_row(rows.deep_view(), key@) == Some(row@),
            None => last_row(rows.deep_view(), key@) is None,
        },
{
    let ghost all = rows.deep_view();
    let mut i: usize = rows.len();
    assert(all.take(i as int) =~= all);
    while i > 0
        invariant
            i <= rows@.len(),
            all == rows.deep_view(),
            last_row(all.take(i as int), key@) == last_row(all, key@),
        decreases i,
    {
        i -= 1;
        proof {
            lemma_chars_deep_view(rows@[i as int]);
            assert(all.take(i + 1).last() == rows@[i as int]@);
            assert(all.take(i + 1).drop_last() =~= all.take(i as int));
        }
        if row_has_key(rows[i].as_slice(), key) {
            return Some(copy_of(rows[i].as_slice()));
        }
    }
    None
}

// Policies.

#[derive(Debug, Clone, Copy, PartialEq, Eq, Structural)]
pub enum GatewayPorts {
    No,
    Yes,
    ClientSpecified,
}

#[derive(Debug, Clone, Copy, PartialEq, Eq, Structural)]
pub enum StreamLocalBindPolicy {
    Default,
    Unsupported,
}

/// The settings that decide how forwarding rows are read.
#[derive(Debug, Clone, Copy, PartialEq, Eq, Structural)]
pub struct ForwardPolicies {
    pub gateway_ports: GatewayPorts,
    pub stream_local_bind: StreamLocalBindPolicy,
    /// The client runs on Windows, where no row can name a socket path.
    pub windows: bool,
}

pub open spec fn gateway_ports_of(value: Seq<char>) -> Option<GatewayPorts> {
    if value == "no"@ {
        Some(GatewayPorts::No)
    } else if value == "yes"@ {
        Some(GatewayPorts::Yes)
    } else if value == "clientspecified"@ {
        Some(GatewayPorts::ClientSpecified)
    } else {
        None
    }
}

impl GatewayPorts {
    pub fn parse(value: &str) -> (r: Result<Self, ClientError>)
        ensures
            match r {
                Ok(ports) => gateway_ports_of(value@) == Some(ports),
                Err(error) => gateway_ports_of(value@) is None && error
                    == ClientError::SshConfigMalformed("gatewayports"),
            },
    {
        let chars = chars_of(value);
        let chars = chars.as_slice();
        proof {
            reveal_strlit("no");
            reveal_strlit("yes");
            reveal_strlit("clientspecified");
        }
        if spells(chars, "no") {
            Ok(GatewayPorts::No)
        } else if spells(chars, "yes") {
            Ok(GatewayPorts::Yes)
        } else if spells(chars, "clientspecified") {
            Ok(GatewayPorts::ClientSpecified)
        } else {
            Err(ClientError::SshConfigMalformed("gatewayports"))
        }
    }
}

/// A row that asks for stream-local sockets to be bound in a way that is not
/// supported: unlinked first, or with a mask of its own.
pub open spec fn changes_stream_bind(row: Seq<char>) -> bool {
    second_word(row) matches Some(value) && {
        ||| has_key(row, "streamlocalbindunlink"@) && !same_ignoring_case(value, "no"@)
        ||| has_key(row, "streamlocalbindmask"@) && value != "0177"@ && value != "177"@
    }
}

pub open spec fn stream_bind_policy(rows: Seq<Seq<char>>) -> StreamLocalBindPolicy {
    if exists|i: int| 0 <= i < rows.len() && changes_stream_bind(#[trigger] rows[i]) {
        StreamLocalBindPolicy::Unsupported
    } else {
        StreamLocalBindPolicy::Default
    }
}

fn row_changes_stream_bind(row: &[char]) -> (r: bool)
    ensures
        r == changes_stream_bind(row@),
{
    match row_second_word(row) {
        Some(value) => {
            let value = chars_of(value.as_str());
            let value = value.as_slice();
            (row_has_key(row, "streamlocalbindunlink") && !spells_ignoring_case(value, "no")) || (
            row_has_key(row, "streamlocalbindmask") && !spells(value, "0177") && !spells(
                value,
                "177",
            ))
        },
        None => false,
    }
}

impl StreamLocalBindPolicy {
    fn of_rows(rows: &Vec<Vec<char>>) -> (policy: Self)
        ensures
            policy == stream_bind_policy(rows.deep_view()),
    {
        let ghost all = rows.deep_view();
        let mut i: usize = 0;
        while i < rows.len()
            invariant
                i <= rows@.len(),
                all == rows.deep_view(),
                forall|j: int| 0 <= j < i ==> !changes_stream_bind(#[trigger] all[j]),
            decreases rows@.len() - i,
        {
            proof {
                lemma_chars_deep_view(rows@[i as int]);
                assert(all[i as int] == rows@[i as int]@);
            }
            if row_changes_stream_bind(rows[i].as_slice()) {
                return StreamLocalBindPolicy::Unsupported;
            }
            i += 1;
        }
        StreamLocalBindPolicy::Default
    }

    /// The policy that the rows of a configuration ask for.
    pub fn parse(text: &str) -> (policy: Self)
        ensures
            policy == stream_bind_policy(lines(text@)),
    {
        let rows = split_lines(chars_of(text).as_slice());
        StreamLocalBindPolicy::of_rows(&rows)
    }
}

pub open spec fn yes_no_of(value: Seq<char>) -> Option<bool> {
    if value == "yes"@ {
        Some(true)
    } else if value == "no"@ {
        Some(false)
    } else {
        None
    }
}

pub fn parse_yes_no(value: &str) -> (r: Result<bool, ClientError>)
    ensures
        match r {
            Ok(flag) => yes_no_of(value@) == Some(flag),
            Err(error) => yes_no_of(value@) is None && error == ClientError::SshConfigMalformed(
                "exitonforwardfailure",
            ),
        },
{
    let chars = chars_of(value);
    let chars = chars.as_slice();
    proof {
        reveal_strlit("no");
        reveal_strlit("yes");
    }
    if spells(chars, "yes") {
        Ok(true)
    } else if spells(chars, "no") {
        Ok(false)
    } else {
        Err(ClientError::SshConfigMalformed("exitonforwardfailure"))
    }
}

// Endpoints.

/// A TCP port that is not zero.
pub open spec fn port_of(value: Seq<char>) -> Option<i32> {
    match parsed_number(value, 65535) {
        Some(port) if port != 0 => Some(port as i32),
        _ => None,
    }
}

pub fn parse_port(value: &[char]) -> (r: Option<i32>)
    ensures
        r == port_of(value@),
{
    match parse_number(value, 65535) {
        Some(port) => {
            if port != 0 {
                Some(port as i32)
            } else {
                None
            }
        },
        None => None,
    }
}

/// How many bytes the path of a Unix socket may hold.
pub const MAX_UNIX_SOCKET_PATH: usize = 107;

/// An absolute path that a Unix socket can have.
pub open spec fn unix_endpoint_of(value: Seq<char>) -> Option<EndpointModel> {
    if value.len() == 0 || value[0] != '/' || value == seq!['/'] || encode_utf8(value).len()
        > MAX_UNIX_SOCKET_PATH || value.contains('\0') {
        None
    } else {
        Some(EndpointModel { name: Some(value), port: None })
    }
}

pub fn parse_unix_endpoint(value: &[char]) -> (r: Option<SocketEndpoint>)
    ensures
        r.deep_view() == unix_endpoint_of(value@),
{
    if value.len() == 0 || value[0] != '/' || value.len() == 1 {
        assert(value@.len() == 1 && value@[0] == '/' ==> value@ =~= seq!['/']);
        return None;
    }
    let text = string_of(value);
    if text.as_str().as_bytes().len() > MAX_UNIX_SOCKET_PATH || find_char(value, '\0')
        < value.len() {
        return None;
    }
    Some(SocketEndpoint { name: Some(text), port: None })
}

/// The first position of a closing bracket with a colon behind it, or the
/// length.
pub open spec fn bracket_end(s: Seq<char>) -> int
    decreases s.len(),
{
    if s.len() < 2 {
        s.len() as int
    } else if s[0] == ']' && s[1] == ':' {
        0
    } else {
        1 + bracket_end(s.skip(1))
    }
}

/// `[host]:port` with brackets around the host, or `host:port` with a host
/// that holds no colon.
pub open spec fn tcp_endpoint_of(value: Seq<char>, allow_empty_host: bool) -> Option<
    EndpointModel,
> {
    if value.len() > 0 && value[0] == '[' {
        let bracketed = value.skip(1);
        let k = bracket_end(bracketed);
        if k >= bracketed.len() {
            None
        } else {
            let host = bracketed.take(k);
            let port = bracketed.skip(k + 2);
            if (!allow_empty_host && host.len() == 0) || port.contains(':') {
                None
            } else {
                with_port(host, port)
            }
        }
    } else {
        let k = last_index(value, ':');
        if k < 0 {
            None
        } else {
            let host = value.take(k);
            if host.len() == 0 || host.contains(':') {
                None
            } else {
                with_port(host, value.skip(k + 1))
            }
        }
    }
}

pub open spec fn with_port(host: Seq<char>, port: Seq<char>) -> Option<EndpointModel> {
    match port_of(port) {
        Some(port) => Some(EndpointModel { name: Some(host), port: Some(port) }),
        None => None,
    }
}

fn endpoint_with_port(host: &[char], port: &[char]) -> (r: Option<SocketEndpoint>)
    ensures
        r.deep_view() == with_port(host@, port@),
{
    match parse_port(port) {
        Some(port) => Some(SocketEndpoint { name: Some(string_of(host)), port: Some(port) }),
        None => None,
    }
}

fn find_bracket_end(s: &[char]) -> (k: usize)
    ensures
        k == bracket_end(s@),
        k <= s@.len(),
        k < s@.len() ==> k + 2 <= s@.len(),
{
    let mut i: usize = 0;
    assert(s@.skip(0) =~= s@);
    while i < s.len() && s.len() - i >= 2 && !(s[i] == ']' && s[i + 1] == ':')
        invariant
            i <= s@.len(),
            i + bracket_end(s@.skip(i as int)) == bracket_end(s@),
        decreases s@.len() - i,
    {
        assert(s@.skip(i as int).skip(1) =~= s@.skip(i + 1));
        i += 1;
    }
    if s.len() - i < 2 {
        s.len()
    } else {
        i
    }
}

pub fn parse_tcp_endpoint(value: &[char], allow_empty_host: bool) -> (r: Option<SocketEndpoint>)
    ensures
        r.deep_view() == tcp_endpoint_of(value@, allow_empty_host),
{
    if value.len() > 0 && value[0] == '[' {
        let bracketed = slice_subrange(value, 1, value.len());
        assert(bracketed@ =~= value@.skip(1));
        let k = find_bracket_end(bracketed);
        if k >= bracketed.len() {
            return None;
        }
        let host = slice_subrange(bracketed, 0, k);
        let port = slice_subrange(bracketed, k + 2, bracketed.len());
        assert(host@ =~= bracketed@.take(k as int));
        assert(port@ =~= bracketed@.skip(k + 2));
        if (!allow_empty_host && host.len() == 0) || find_char(port, ':') < port.len() {
            return None;
        }
        endpoint_with_port(host, port)
    } else {
        match rfind_char(value, ':') {
            Some(k) => {
                let host = slice_subrange(value, 0, k);
                let port = slice_subrange(value, k + 1, value.len());
                assert(host@ =~= value@.take(k as int));
                assert(port@ =~= value@.skip(k + 1));
                if host.len() == 0 || find_char(host, ':') < host.len() {
                    return None;
                }
                endpoint_with_port(host, port)
            },
            None => None,
        }
    }
}

/// The address that a source listens on. An empty name stands for every
/// interface.
pub open spec fn bind_name(
    requested: Option<Seq<char>>,
    gateway_ports: GatewayPorts,
    is_local_forward: bool,
) -> Seq<char> {
    match requested {
        Some(name) => if name == "*"@ || name == "[*]"@ {
            Seq::empty()
        } else {
            name
        },
        None => if is_local_forward && gateway_ports == GatewayPorts::Yes {
            Seq::empty()
        } else {
            "localhost"@
        },
    }
}

pub open spec fn bound_source(
    endpoint: EndpointModel,
    gateway_ports: GatewayPorts,
    is_local_forward: bool,
) -> EndpointModel {
    EndpointModel {
        name: Some(bind_name(endpoint.name, gateway_ports, is_local_forward)),
        port: endpoint.port,
    }
}

pub fn normalize_tcp_source(
    endpoint: SocketEndpoint,
    gateway_ports: GatewayPorts,
    is_local_forward: bool,
) -> (r: SocketEndpoint)
    ensures
        r.deep_view() == bound_source(endpoint.deep_view(), gateway_ports, is_local_forward),
{
    let port = endpoint.port;
    let name = match endpoint.name {
        Some(name) => {
            let chars = chars_of(name.as_str());
            if spells(chars.as_slice(), "*") || spells(chars.as_slice(), "[*]") {
                String::new()
            } else {
                name
            }
        },
        None => {
            if is_local_forward && gateway_ports == GatewayPorts::Yes {
                String::new()
            } else {
                "localhost".to_owned()
            }
        },
    };
    SocketEndpoint { name: Some(name), port }
}

/// The endpoint that a forwarding row listens on: a socket path, a port
/// alone, or a host and a port.
pub open spec fn source_endpoint_of(
    value: Seq<char>,
    gateway_ports: GatewayPorts,
    is_local_forward: bool,
) -> Option<EndpointModel> {
    match unix_endpoint_of(value) {
        Some(endpoint) => Some(endpoint),
        None => if value.len() > 0 && all_digits(value) {
            match port_of(value) {
                Some(port) => Some(
                    bound_source(
                        EndpointModel { name: None, port: Some(port) },
                        gateway_ports,
                        is_local_forward,
                    ),
                ),
                None => None,
            }
        } else {
            match tcp_endpoint_of(value, true) {
                Some(endpoint) => Some(bound_source(endpoint, gateway_ports, is_local_forward)),
                None => None,
            }
        },
    }
}

fn is_all_digits(s: &[char]) -> (r: bool)
    ensures
        r == all_digits(s@),
{
    let mut i: usize = 0;
    while i < s.len()
        invariant
            i <= s@.len(),
            forall|j: int| 0 <= j < i ==> is_digit(#[trigger] s@[j]),
        decreases s@.len() - i,
    {
        if !char_is_digit(s[i]) {
            assert(!is_digit(s@[i as int]));
            return false;
        }
        i += 1;
    }
    true
}

pub fn parse_source_endpoint(
    value: &[char],
    gateway_ports: GatewayPorts,
    is_local_forward: bool,
) -> (r: Option<SocketEndpoint>)
    ensures
        r.deep_view() == source_endpoint_of(value@, gateway_ports, is_local_forward),
{
    let unix = parse_unix_endpoint(value);
    if unix.is_some() {
        return unix;
    }
    if value.len() > 0 && is_all_digits(value) {
        return match parse_port(value) {
            Some(port) => {
                let endpoint = SocketEndpoint { name: None, port: Some(port) };
                assert(endpoint.deep_view() == EndpointModel { name: None, port: Some(port) });
                Some(normalize_tcp_source(endpoint, gateway_ports, is_local_forward))
            },
            None => None,
        };
    }
    match parse_tcp_endpoint(value, true) {
        Some(endpoint) => Some(normalize_tcp_source(endpoint, gateway_ports, is_local_forward)),
        None => None,
    }
}

/// The endpoint that a forwarding row connects to.
pub open spec fn destination_endpoint_of(value: Seq<char>) -> Option<EndpointModel> {
    match unix_endpoint_of(value) {
        Some(endpoint) => Some(endpoint),
        None => tcp_endpoint_of(value, false),
    }
}

pub fn parse_destination_endpoint(value: &[char]) -> (r: Option<SocketEndpoint>)
    ensures
        r.deep_view() == destination_endpoint_of(value@),
{
    let unix = parse_unix_endpoint(value);
    if unix.is_some() {
        return unix;
    }
    parse_tcp_endpoint(value, false)
}

// Forwarding rows.

/// A forwarding row, or why it is skipped.
#[derive(Debug)]
pub enum ForwardRecord {
    Supported(PortForwardSourceRequest),
    Unsupported(&'static str),
}

/// The contents of a [`ForwardRecord`].
pub enum ForwardModel {
    Supported(RequestModel),
    Unsupported(&'static str),
}

impl DeepView for ForwardRecord {
    type V = ForwardModel;

    open spec fn deep_view(&self) -> ForwardModel {
        match self {
            ForwardRecord::Supported(request) => ForwardModel::Supported(request.deep_view()),
            ForwardRecord::Unsupported(reason) => ForwardModel::Unsupported(*reason),
        }
    }
}

/// A path that does not begin at the root.
pub open spec fn relative_stream_path(value: Seq<char>) -> bool {
    !(value.len() > 0 && value[0] == '/') && value.contains('/')
}

pub fn is_relative_stream_path(value: &[char]) -> (r: bool)
    ensures
        r == relative_stream_path(value@),
{
    !(value.len() > 0 && value[0] == '/') && find_char(value, '/') < value.len()
}

pub open spec fn malformed_forward(reason: &'static str) -> ClientError {
    ClientError::SshConfigMalformedForward { directive: "localforward", reason }
}

/// Whether a row names a socket path where the platform has none.
pub open spec fn unsupported_socket(fields: Seq<Seq<char>>, policies: ForwardPolicies) -> bool {
    policies.windows && ((fields[0].len() > 0 && fields[0][0] == '/') || (fields[1].len() > 0
        && fields[1][0] == '/'))
}

/// What the words behind the key of a `localforward` row ask for.
pub open spec fn forward_of(fields: Seq<Seq<char>>, policies: ForwardPolicies) -> Result<
    ForwardModel,
    ClientError,
> {
    if fields.len() != 2 {
        if exists|i: int| 0 <= i < fields.len() && (#[trigger] fields[i]).contains('/') {
            Ok(ForwardModel::Unsupported("ambiguous stream-local path is unsupported"))
        } else {
            Err(malformed_forward("expected exactly two fields"))
        }
    } else if relative_stream_path(fields[0]) || relative_stream_path(fields[1]) {
        Ok(ForwardModel::Unsupported("relative stream-local path is unsupported"))
    } else if fields[0].len() > 0 && fields[0][0] == '/' && policies.stream_local_bind
        == StreamLocalBindPolicy::Unsupported {
        Ok(ForwardModel::Unsupported("stream-local bind policy is unsupported"))
    } else if unsupported_socket(fields, policies) {
        Ok(ForwardModel::Unsupported("stream-local forwarding is unsupported on this platform"))
    } else {
        match (
            source_endpoint_of(fields[0], policies.gateway_ports, true),
            destination_endpoint_of(fields[1]),
        ) {
            (None, _) => Err(malformed_forward("invalid source endpoint")),
            (_, None) => Err(malformed_forward("invalid destination endpoint")),
            (Some(source), Some(destination)) => Ok(
                ForwardModel::Supported(
                    RequestModel {
                        source: Some(source),
                        destination: Some(destination),
                        environmentvariable: None,
                    },
                ),
            ),
        }
    }
}

/// The words behind the key of a row.
pub open spec fn behind_key(row: Seq<char>) -> Seq<Seq<char>> {
    if words(row).len() == 0 {
        Seq::empty()
    } else {
        words(row).skip(1)
    }
}

/// Reads the words behind the key of a `localforward` row.
pub fn parse_forward(row: &[char], policies: ForwardPolicies) -> (r: Result<
    ForwardRecord,
    ClientError,
>)
    ensures
        match (r, forward_of(behind_key(row@), policies)) {
            (Ok(record), Ok(model)) => record.deep_view() == model,
            (Err(error), Err(fault)) => error == fault,
            _ => false,
        },
{
    let fields = split_words(row);
    if fields.len() == 0 {
        return Err(
            ClientError::SshConfigMalformedForward {
                directive: "localforward",
                reason: "expected exactly two fields",
            },
        );
    }
    let ghost all = words(row@).skip(1);
    proof {
        assert forall|i: int| 0 <= i < all.len() implies #[trigger] all[i] == fields@[i + 1]@ by {
            lemma_chars_deep_view(fields@[i + 1]);
            assert(fields.deep_view()[i + 1] == fields@[i + 1].deep_view());
        }
    }
    if fields.len() != 3 {
        let mut i: usize = 1;
        while i < fields.len()
            invariant
                1 <= i <= fields@.len(),
                all.len() == fields@.len() - 1,
                all.len() != 2,
                all == behind_key(row@),
                forall|k: int| 0 <= k < all.len() ==> #[trigger] all[k] == fields@[k + 1]@,
                forall|j: int| 0 <= j < i - 1 ==> !(#[trigger] all[j]).contains('/'),
            decreases fields@.len() - i,
        {
            assert(all[i - 1] == fields@[i as int]@);
            if find_char(fields[i].as_slice(), '/') < fields[i].len() {
                return Ok(ForwardRecord::Unsupported("ambiguous stream-local path is unsupported"));
            }
            i += 1;
        }
        return Err(
            ClientError::SshConfigMalformedForward {
                directive: "localforward",
                reason: "expected exactly two fields",
            },
        );
    }
    let source = fields[1].as_slice();
    let destination = fields[2].as_slice();
    assert(source@ == all[0]);
    assert(destination@ == all[1]);
    if is_relative_stream_path(source) || is_relative_stream_path(destination) {
        return Ok(ForwardRecord::Unsupported("relative stream-local path is unsupported"));
    }
    if source.len() > 0 && source[0] == '/' {
        match policies.stream_local_bind {
            StreamLocalBindPolicy::Default => {},
            StreamLocalBindPolicy::Unsupported => {
                return Ok(ForwardRecord::Unsupported("stream-local bind policy is unsupported"));
            },
        }
    }
    if policies.windows && ((source.len() > 0 && source[0] == '/') || (destination.len() > 0
        && destination[0] == '/')) {
        return Ok(
            ForwardRecord::Unsupported("stream-local forwarding is unsupported on this platform"),
        );
    }
    let source = match parse_source_endpoint(source, policies.gateway_ports, true) {
        Some(source) => source,
        None => {
            return Err(
                ClientError::SshConfigMalformedForward {
                    directive: "localforward",
                    reason: "invalid source endpoint",
                },
            );
        },
    };
    match parse_destination_endpoint(destination) {
        Some(destination) => Ok(
            ForwardRecord::Supported(
                PortForwardSourceRequest {
                    source: Some(source),
                    destination: Some(destination),
                    environmentvariable: None,
                },
            ),
        ),
        None => Err(
            ClientError::SshConfigMalformedForward {
                directive: "localforward",
                reason: "invalid destination endpoint",
            },
        ),
    }
}

/// The sources of the `dynamicforward` rows, in order.
pub open spec fn dynamic_sources(rows: Seq<Seq<char>>) -> Seq<Seq<char>>
    decreases rows.len(),
{
    if rows.len() == 0 {
        Seq::empty()
    } else if has_key(rows.last(), "dynamicforward"@) && second_word(rows.last()) is Some {
        dynamic_sources(rows.drop_last()).push(second_word(rows.last())->0)
    } else {
        dynamic_sources(rows.drop_last())
    }
}

/// The source of a `localforward` row with a socket path as destination.
/// OpenSSH prints a `dynamicforward` row beside each of these.
pub open spec fn path_forward_source(row: Seq<char>) -> Option<Seq<char>> {
    let fields = words(row);
    if has_key(row, "localforward"@) && fields.len() > 2 && fields[2].len() > 0 && fields[2][0]
        == '/' {
        Some(fields[1])
    } else {
        None
    }
}

/// The list without the first occurrence of a value.
pub open spec fn without_first(list: Seq<Seq<char>>, value: Seq<char>) -> Seq<Seq<char>> {
    if first_index(list, value) < list.len() {
        list.remove(first_index(list, value))
    } else {
        list
    }
}

/// What is left of a list of dynamic sources when each of the rows takes away
/// the row that OpenSSH printed beside it.
pub open spec fn left_over(list: Seq<Seq<char>>, rows: Seq<Seq<char>>) -> Seq<Seq<char>>
    decreases rows.len(),
{
    if rows.len() == 0 {
        list
    } else {
        let rest = left_over(list, rows.drop_last());
        match path_forward_source(rows.last()) {
            Some(source) => without_first(rest, source),
            None => rest,
        }
    }
}

/// The dynamic forwardings that the user really asked for.
pub open spec fn requested_dynamic_forwards(rows: Seq<Seq<char>>) -> Seq<Seq<char>> {
    left_over(dynamic_sources(rows), rows)
}

fn row_path_forward_source(row: &[char]) -> (r: Option<String>)
    ensures
        r.deep_view() == path_forward_source(row@),
{
    let fields = split_words(row);
    if fields.len() > 2 {
        proof {
            lemma_chars_deep_view(fields@[1]);
            lemma_chars_deep_view(fields@[2]);
            assert(fields.deep_view()[1] == fields@[1].deep_view());
            assert(fields.deep_view()[2] == fields@[2].deep_view());
        }
        if fields[2].len() > 0 && fields[2][0] == '/' && row_has_key(row, "localforward") {
            return Some(string_of(fields[1].as_slice()));
        }
    }
    None
}

fn remove_first(list: &mut Vec<String>, value: &str)
    ensures
        final(list).deep_view() == without_first(old(list).deep_view(), value@),
{
    let ghost before = list.deep_view();
    let mut i: usize = 0;
    while i < list.len()
        invariant
            i <= list@.len(),
            list.deep_view() == before,
            before == old(list).deep_view(),
            forall|j: int| 0 <= j < i ==> before[j] != value@,
        decreases list@.len() - i,
    {
        assert(before[i as int] == list@[i as int]@);
        if crate::text::same_text(list[i].as_str(), value) {
            proof {
                crate::text::lemma_first_index(before, value@, i as int);
            }
            list.remove(i);
            assert(list.deep_view() =~= before.remove(i as int));
            return;
        }
        i += 1;
    }
    proof {
        crate::text::lemma_first_index(before, value@, i as int);
    }
}

fn dynamic_forwards_of(rows: &Vec<Vec<char>>) -> (out: Vec<String>)
    ensures
        out.deep_view() == requested_dynamic_forwards(rows.deep_view()),
{
    let ghost all = rows.deep_view();
    let mut out: Vec<String> = Vec::new();
    let mut i: usize = 0;
    assert(out.deep_view() =~= dynamic_sources(all.take(0)));
    while i < rows.len()
        invariant
            i <= rows@.len(),
            all == rows.deep_view(),
            out.deep_view() == dynamic_sources(all.take(i as int)),
        decreases rows@.len() - i,
    {
        proof {
            lemma_chars_deep_view(rows@[i as int]);
            assert(all.take(i + 1).last() == rows@[i as int]@);
            assert(all.take(i + 1).drop_last() =~= all.take(i as int));
        }
        let row = rows[i].as_slice();
        if row_has_key(row, "dynamicforward") {
            match row_second_word(row) {
                Some(source) => {
                    push_text(&mut out, source.as_str());
                },
                None => {},
            }
        }
        i += 1;
    }
    assert(all.take(i as int) =~= all);
    let ghost list = out.deep_view();
    let mut i: usize = 0;
    assert(left_over(list, all.take(0)) =~= list);
    while i < rows.len()
        invariant
            i <= rows@.len(),
            all == rows.deep_view(),
            out.deep_view() == left_over(list, all.take(i as int)),
        decreases rows@.len() - i,
    {
        proof {
            lemma_chars_deep_view(rows@[i as int]);
            assert(all.take(i + 1).last() == rows@[i as int]@);
            assert(all.take(i + 1).drop_last() =~= all.take(i as int));
        }
        match row_path_forward_source(rows[i].as_slice()) {
            Some(source) => {
                remove_first(&mut out, source.as_str());
            },
            None => {},
        }
        i += 1;
    }
    assert(all.take(i as int) =~= all);
    out
}

/// The dynamic forwardings that a configuration asks for. None of them is
/// supported.
pub fn unsupported_dynamic_forwards(text: &str) -> (out: Vec<String>)
    ensures
        out.deep_view() == requested_dynamic_forwards(lines(text@)),
{
    let rows = split_lines(chars_of(text).as_slice());
    dynamic_forwards_of(&rows)
}

/// The sources of the `localforward` rows with a socket path as destination.
pub open spec fn path_forward_sources(rows: Seq<Seq<char>>) -> Seq<Seq<char>>
    decreases rows.len(),
{
    if rows.len() == 0 {
        Seq::empty()
    } else {
        match path_forward_source(rows.last()) {
            Some(source) => path_forward_sources(rows.drop_last()).push(source),
            None => path_forward_sources(rows.drop_last()),
        }
    }
}

/// The rows that OpenSSH printed beside socket destinations are taken away as
/// a multiset: each of them accounts for one dynamic row with its source.
pub proof fn printed_rows_are_consumed_as_a_multiset(rows: Seq<Seq<char>>)
    ensures
        requested_dynamic_forwards(rows).to_multiset() == dynamic_sources(rows).to_multiset().sub(
            path_forward_sources(rows).to_multiset(),
        ),
{
    lemma_left_over_multiset(dynamic_sources(rows), rows);
}

proof fn lemma_left_over_multiset(list: Seq<Seq<char>>, rows: Seq<Seq<char>>)
    ensures
        left_over(list, rows).to_multiset() =~= list.to_multiset().sub(
            path_forward_sources(rows).to_multiset(),
        ),
    decreases rows.len(),
{
    broadcast use vstd::seq_lib::group_to_multiset_ensures;

    if rows.len() == 0 {
        assert(path_forward_sources(rows).to_multiset() =~= vstd::multiset::Multiset::empty());
    } else {
        lemma_left_over_multiset(list, rows.drop_last());
        let rest = left_over(list, rows.drop_last());
        match path_forward_source(rows.last()) {
            Some(source) => {
                crate::text::lemma_first_index_bounds(rest, source);
                let k = first_index(rest, source);
                let taken = path_forward_sources(rows.drop_last());
                assert(path_forward_sources(rows) == taken.push(source));
                assert(taken.push(source).to_multiset() =~= taken.to_multiset().insert(source));
                if k < rest.len() {
                    assert(rest.remove(k).to_multiset() =~= rest.to_multiset().remove(source));
                } else {
                    assert(rest.to_multiset().count(source) == 0);
                }
            },
            None => {},
        }
    }
}

// The whole output.

#[derive(Debug, Clone, PartialEq)]
pub struct ResolvedSshConfig {
    pub hostname: String,
    pub user: Option<String>,
    pub port: u16,
    pub exit_on_forward_failure: bool,
    pub local_forwards: Vec<PortForwardSourceRequest>,
    pub set_env: Vec<(String, String)>,
    pub proxy_jump: Option<String>,
    pub forward_agent: bool,
    pub identity_agent: Option<String>,
}

/// The contents of a [`ResolvedSshConfig`].
pub struct ConfigModel {
    pub hostname: Seq<char>,
    pub user: Option<Seq<char>>,
    pub port: u16,
    pub exit_on_forward_failure: bool,
    pub local_forwards: Seq<RequestModel>,
    pub set_env: Seq<(Seq<char>, Seq<char>)>,
    pub proxy_jump: Option<Seq<char>>,
    pub forward_agent: bool,
    pub identity_agent: Option<Seq<char>>,
}

impl DeepView for ResolvedSshConfig {
    type V = ConfigModel;

    open spec fn deep_view(&self) -> ConfigModel {
        ConfigModel {
            hostname: self.hostname@,
            user: self.user.deep_view(),
            port: self.port,
            exit_on_forward_failure: self.exit_on_forward_failure,
            local_forwards: self.local_forwards.deep_view(),
            set_env: self.set_env.deep_view(),
            proxy_jump: self.proxy_jump.deep_view(),
            forward_agent: self.forward_agent,
            identity_agent: self.identity_agent.deep_view(),
        }
    }
}

impl Default for ResolvedSshConfig {
    fn default() -> (config: Self)
        ensures
            config.hostname@ == Seq::<char>::empty(),
            config.user is None,
            config.port == 0,
            !config.exit_on_forward_failure,
            config.local_forwards@ == Seq::<PortForwardSourceRequest>::empty(),
            config.set_env@ == Seq::<(String, String)>::empty(),
            config.proxy_jump is None,
            !config.forward_agent,
            config.identity_agent is None,
    {
        ResolvedSshConfig {
            hostname: String::new(),
            user: None,
            port: 0,
            exit_on_forward_failure: false,
            local_forwards: Vec::new(),
            set_env: Vec::new(),
            proxy_jump: None,
            forward_agent: false,
            identity_agent: None,
        }
    }
}

/// The name and the value that a `setenv` row assigns, where they are
/// allowed.
pub open spec fn assignment_of(row: Seq<char>) -> Option<(Seq<char>, Seq<char>)> {
    let value = verbatim_value(row);
    let k = first_index(value, '=');
    if k >= value.len() {
        None
    } else {
        let name = value.take(k);
        let text = value.skip(k + 1);
        if is_environment_name(name) && encode_utf8(text).len() <= MAX_ENV_VALUE && !text.contains(
            '\0',
        ) && !text.contains('\r') {
            Some((name, text))
        } else {
            None
        }
    }
}

fn row_assignment(row: &[char]) -> (r: Option<(String, String)>)
    ensures
        r.deep_view() == assignment_of(row@),
{
    let value = row_verbatim_value(row);
    let k = find_char(value.as_slice(), '=');
    if k >= value.len() {
        return None;
    }
    let name = string_of(slice_subrange(value.as_slice(), 0, k));
    let rest = slice_subrange(value.as_slice(), k + 1, value.len());
    let text = string_of(rest);
    assert(name@ =~= value@.take(k as int));
    assert(text@ =~= value@.skip(k + 1));
    if !valid_environment_name(name.as_str()) || text.as_str().as_bytes().len() > MAX_ENV_VALUE
        || find_char(rest, '\0') < rest.len() || find_char(rest, '\r') < rest.len() {
        return None;
    }
    Some((name, text))
}

/// Whether an environment holds a variable of the given name.
pub open spec fn assigns(environment: Seq<(Seq<char>, Seq<char>)>, name: Seq<char>) -> bool {
    exists|i: int| 0 <= i < environment.len() && (#[trigger] environment[i]).0 == name
}

/// The assignments of the `setenv` rows, in order. The first one of a name
/// stands.
pub open spec fn assignments(rows: Seq<Seq<char>>) -> Seq<(Seq<char>, Seq<char>)>
    decreases rows.len(),
{
    if rows.len() == 0 {
        Seq::empty()
    } else {
        let earlier = assignments(rows.drop_last());
        if has_key(rows.last(), "setenv"@) {
            match assignment_of(rows.last()) {
                Some((name, value)) if !assigns(earlier, name) => earlier.push((name, value)),
                _ => earlier,
            }
        } else {
            earlier
        }
    }
}

/// The supported `localforward` rows, in order.
pub open spec fn supported_forwards(rows: Seq<Seq<char>>, policies: ForwardPolicies) -> Seq<
    RequestModel,
>
    decreases rows.len(),
{
    if rows.len() == 0 {
        Seq::empty()
    } else {
        let earlier = supported_forwards(rows.drop_last(), policies);
        if has_key(rows.last(), "localforward"@) {
            match forward_of(words(rows.last()).skip(1), policies) {
                Ok(ForwardModel::Supported(request)) => earlier.push(request),
                _ => earlier,
            }
        } else {
            earlier
        }
    }
}

/// What is wrong with one row of a session's configuration.
pub open spec fn row_fault(row: Seq<char>, policies: ForwardPolicies) -> Option<ClientError> {
    if has_key(row, "setenv"@) {
        if assignment_of(row) is None {
            Some(ClientError::SshConfigMalformed("setenv"))
        } else {
            None
        }
    } else if has_key(row, "forwardagent"@) {
        if yes_no_of(verbatim_value(row)) is None {
            Some(ClientError::SshConfigMalformed("exitonforwardfailure"))
        } else {
            None
        }
    } else if has_key(row, "localforward"@) {
        match forward_of(words(row).skip(1), policies) {
            Err(fault) => Some(fault),
            Ok(_) => None,
        }
    } else {
        None
    }
}

/// What is wrong with the first faulty row.
pub open spec fn first_fault(rows: Seq<Seq<char>>, policies: ForwardPolicies) -> Option<ClientError>
    decreases rows.len(),
{
    if rows.len() == 0 {
        None
    } else {
        match row_fault(rows[0], policies) {
            Some(fault) => Some(fault),
            None => first_fault(rows.skip(1), policies),
        }
    }
}

/// The second word of the last row with `key`.
pub open spec fn last_word(rows: Seq<Seq<char>>, key: Seq<char>) -> Option<Seq<char>> {
    match last_row(rows, key) {
        Some(row) => second_word(row),
        None => None,
    }
}

/// The verbatim value of the last row with `key`.
pub open spec fn last_verbatim(rows: Seq<Seq<char>>, key: Seq<char>) -> Option<Seq<char>> {
    match last_row(rows, key) {
        Some(row) => Some(verbatim_value(row)),
        None => None,
    }
}

/// The port of the last `port` row, where it is one, and 22 otherwise.
pub open spec fn ssh_port(rows: Seq<Seq<char>>) -> u16 {
    match last_word(rows, "port"@) {
        Some(word) => match parsed_number(word, 65535) {
            Some(port) => port as u16,
            None => 22,
        },
        None => 22,
    }
}

/// How the rows of a configuration say that forwarding rows are read.
pub open spec fn policies_of(rows: Seq<Seq<char>>, windows: bool) -> Option<ForwardPolicies> {
    let gateway_ports = match first_setting(rows, "gatewayports"@) {
        Some(value) => gateway_ports_of(value),
        None => Some(GatewayPorts::No),
    };
    match gateway_ports {
        Some(gateway_ports) => Some(
            ForwardPolicies { gateway_ports, stream_local_bind: stream_bind_policy(rows), windows },
        ),
        None => None,
    }
}

/// Whether a forwarding that cannot be set up ends the session.
pub open spec fn strict_forwarding(rows: Seq<Seq<char>>) -> Option<bool> {
    match first_setting(rows, "exitonforwardfailure"@) {
        Some(value) => yes_no_of(value),
        None => Some(false),
    }
}

/// What is wrong with the settings and the rows of a session.
pub open spec fn session_fault(rows: Seq<Seq<char>>, windows: bool) -> Option<ClientError> {
    match (policies_of(rows, windows), strict_forwarding(rows)) {
        (None, _) => Some(ClientError::SshConfigMalformed("gatewayports")),
        (_, None) => Some(ClientError::SshConfigMalformed("exitonforwardfailure")),
        (Some(policies), Some(_)) => first_fault(rows, policies),
    }
}

/// The address, the user and the port that the rows describe, and nothing of
/// a session.
pub open spec fn address_of(rows: Seq<Seq<char>>) -> Result<ConfigModel, ClientError> {
    match last_word(rows, "hostname"@) {
        None => Err(ClientError::SshConfigMalformed("hostname")),
        Some(hostname) => {
            let user = last_word(rows, "user"@);
            match destination_fault(hostname, user) {
                Some(fault) => Err(fault),
                None => Ok(
                    ConfigModel {
                        hostname,
                        user,
                        port: ssh_port(rows),
                        exit_on_forward_failure: false,
                        local_forwards: Seq::empty(),
                        set_env: Seq::empty(),
                        proxy_jump: None,
                        forward_agent: false,
                        identity_agent: None,
                    },
                ),
            }
        },
    }
}

/// The configuration that the rows describe. A lookup of a jumphost, which is
/// not for a session, takes the address, the user and the port alone, and
/// refuses nothing else.
pub open spec fn config_of(rows: Seq<Seq<char>>, session: bool, windows: bool) -> Result<
    ConfigModel,
    ClientError,
> {
    if !session {
        address_of(rows)
    } else {
        match (session_fault(rows, windows), address_of(rows)) {
            (Some(fault), _) => Err(fault),
            (None, Err(fault)) => Err(fault),
            (None, Ok(address)) => Ok(
                ConfigModel {
                    exit_on_forward_failure: strict_forwarding(rows)->0,
                    local_forwards: supported_forwards(rows, policies_of(rows, windows)->0),
                    set_env: assignments(rows),
                    proxy_jump: match last_verbatim(rows, "proxyjump"@) {
                        Some(value) if value != "none"@ => Some(value),
                        _ => None,
                    },
                    forward_agent: last_verbatim(rows, "forwardagent"@) == Some("yes"@),
                    identity_agent: last_verbatim(rows, "identityagent"@),
                    ..address
                },
            ),
        }
    }
}

/// A lookup of a jumphost is not concerned with the options of a session: it
/// fails only over the address and the user, and imports none of them.
pub proof fn lookups_ignore_session_options(rows: Seq<Seq<char>>, windows: bool)
    ensures
        config_of(rows, false, windows) is Err == (last_word(rows, "hostname"@) is None
            || destination_fault(last_word(rows, "hostname"@)->0, last_word(rows, "user"@)) is Some),
        config_of(rows, false, windows) matches Ok(config) ==> {
            &&& Some(config.hostname) == last_word(rows, "hostname"@)
            &&& config.user == last_word(rows, "user"@)
            &&& config.port == ssh_port(rows)
            &&& !config.exit_on_forward_failure && !config.forward_agent
            &&& config.local_forwards.len() == 0 && config.set_env.len() == 0
            &&& config.proxy_jump is None && config.identity_agent is None
        },
{
}

fn find_last_word(rows: &Vec<Vec<char>>, key: &str) -> (r: Option<String>)
    ensures
        r.deep_view() == last_word(rows.deep_view(), key@),
{
    match find_last_row(rows, key) {
        Some(row) => row_second_word(row.as_slice()),
        None => None,
    }
}

fn find_last_verbatim(rows: &Vec<Vec<char>>, key: &str) -> (r: Option<String>)
    ensures
        r.deep_view() == last_verbatim(rows.deep_view(), key@),
{
    match find_last_row(rows, key) {
        Some(row) => Some(string_of(row_verbatim_value(row.as_slice()).as_slice())),
        None => None,
    }
}

fn find_row_fault(row: &[char], policies: ForwardPolicies) -> (r: Option<ClientError>)
    ensures
        r == row_fault(row@, policies),
{
    if row_has_key(row, "setenv") {
        if row_assignment(row).is_none() {
            return Some(ClientError::SshConfigMalformed("setenv"));
        }
        None
    } else if row_has_key(row, "forwardagent") {
        match parse_yes_no(string_of(row_verbatim_value(row).as_slice()).as_str()) {
            Ok(_) => None,
            Err(error) => Some(error),
        }
    } else if row_has_key(row, "localforward") {
        match parse_forward(row, policies) {
            Ok(_) => None,
            Err(error) => Some(error),
        }
    } else {
        None
    }
}

fn find_first_fault(rows: &Vec<Vec<char>>, policies: ForwardPolicies) -> (r: Option<ClientError>)
    ensures
        r == first_fault(rows.deep_view(), policies),
{
    let ghost all = rows.deep_view();
    let mut i: usize = 0;
    assert(all.skip(0) =~= all);
    while i < rows.len()
        invariant
            i <= rows@.len(),
            all == rows.deep_view(),
            first_fault(all.skip(i as int), policies) == first_fault(all, policies),
        decreases rows@.len() - i,
    {
        proof {
            lemma_chars_deep_view(rows@[i as int]);
            assert(all.skip(i as int)[0] == rows@[i as int]@);
            assert(all.skip(i as int).skip(1) =~= all.skip(i + 1));
        }
        let fault = find_row_fault(rows[i].as_slice(), policies);
        if fault.is_some() {
            return fault;
        }
        i += 1;
    }
    None
}

fn environment_assigns(environment: &Vec<(String, String)>, name: &str) -> (r: bool)
    ensures
        r == assigns(environment.deep_view(), name@),
{
    let ghost all = environment.deep_view();
    let mut i: usize = 0;
    while i < environment.len()
        invariant
            i <= environment@.len(),
            all == environment.deep_view(),
            forall|j: int| 0 <= j < i ==> (#[trigger] all[j]).0 != name@,
        decreases environment@.len() - i,
    {
        assert(all[i as int] == environment@[i as int].deep_view());
        if crate::text::same_text(environment[i].0.as_str(), name) {
            return true;
        }
        i += 1;
    }
    false
}

fn collect_assignments(rows: &Vec<Vec<char>>) -> (out: Vec<(String, String)>)
    ensures
        out.deep_view() == assignments(rows.deep_view()),
{
    let ghost all = rows.deep_view();
    let mut out: Vec<(String, String)> = Vec::new();
    let mut i: usize = 0;
    assert(out.deep_view() =~= assignments(all.take(0)));
    while i < rows.len()
        invariant
            i <= rows@.len(),
            all == rows.deep_view(),
            out.deep_view() == assignments(all.take(i as int)),
        decreases rows@.len() - i,
    {
        let ghost before = out.deep_view();
        proof {
            lemma_chars_deep_view(rows@[i as int]);
            assert(all.take(i + 1).last() == rows@[i as int]@);
            assert(all.take(i + 1).drop_last() =~= all.take(i as int));
        }
        let row = rows[i].as_slice();
        if row_has_key(row, "setenv") {
            match row_assignment(row) {
                Some(assignment) => {
                    if !environment_assigns(&out, assignment.0.as_str()) {
                        let ghost model = assignment.deep_view();
                        out.push(assignment);
                        assert(out.deep_view() =~= before.push(model));
                    }
                },
                None => {},
            }
        }
        i += 1;
    }
    assert(all.take(i as int) =~= all);
    out
}

fn collect_forwards(rows: &Vec<Vec<char>>, policies: ForwardPolicies) -> (out: Vec<
    PortForwardSourceRequest,
>)
    ensures
        out.deep_view() == supported_forwards(rows.deep_view(), policies),
{
    let ghost all = rows.deep_view();
    let mut out: Vec<PortForwardSourceRequest> = Vec::new();
    let mut i: usize = 0;
    assert(out.deep_view() =~= supported_forwards(all.take(0), policies));
    while i < rows.len()
        invariant
            i <= rows@.len(),
            all == rows.deep_view(),
            out.deep_view() == supported_forwards(all.take(i as int), policies),
        decreases rows@.len() - i,
    {
        let ghost before = out.deep_view();
        proof {
            lemma_chars_deep_view(rows@[i as int]);
            assert(all.take(i + 1).last() == rows@[i as int]@);
            assert(all.take(i + 1).drop_last() =~= all.take(i as int));
        }
        let row = rows[i].as_slice();
        if row_has_key(row, "localforward") {
            match parse_forward(row, policies) {
                Ok(ForwardRecord::Supported(request)) => {
                    let ghost model = request.deep_view();
                    out.push(request);
                    assert(out.deep_view() =~= before.push(model));
                },
                _ => {},
            }
        }
        i += 1;
    }
    assert(all.take(i as int) =~= all);
    out
}

/// Whether `r` is what the output of `ssh -G` says.
pub open spec fn read_from(
    stdout: Seq<u8>,
    session: bool,
    windows: bool,
    r: Result<ResolvedSshConfig, ClientError>,
) -> bool {
    if !valid_utf8(stdout) {
        r == Err::<ResolvedSshConfig, ClientError>(ClientError::SshConfigMalformed("UTF-8 output"))
    } else {
        match (r, config_of(lines(decode_utf8(stdout)), session, windows)) {
            (Ok(config), Ok(model)) => config.deep_view() == model,
            (Err(error), Err(fault)) => error == fault,
            _ => false,
        }
    }
}

/// The address, the user and the port.
fn read_address(rows: &Vec<Vec<char>>) -> (r: Result<ResolvedSshConfig, ClientError>)
    ensures
        match (r, address_of(rows.deep_view())) {
            (Ok(config), Ok(model)) => config.deep_view() == model,
            (Err(error), Err(fault)) => error == fault,
            _ => false,
        },
{
    let hostname = match find_last_word(rows, "hostname") {
        Some(hostname) => hostname,
        None => {
            return Err(ClientError::SshConfigMalformed("hostname"));
        },
    };
    let user = find_last_word(rows, "user");
    match validate_ssh_destination(hostname.as_str(), crate::bootstrap::text_of(&user)) {
        Ok(()) => {},
        Err(error) => {
            return Err(error);
        },
    }
    let port: u16 = match find_last_word(rows, "port") {
        Some(word) => match parse_number(chars_of(word.as_str()).as_slice(), 65535) {
            Some(port) => {
                assert(port <= 65535);
                port as u16
            },
            None => 22,
        },
        None => 22,
    };
    let config = ResolvedSshConfig {
        hostname,
        user,
        port,
        exit_on_forward_failure: false,
        local_forwards: Vec::new(),
        set_env: Vec::new(),
        proxy_jump: None,
        forward_agent: false,
        identity_agent: None,
    };
    assert(config.local_forwards.deep_view() =~= Seq::<RequestModel>::empty());
    assert(config.set_env.deep_view() =~= Seq::<(Seq<char>, Seq<char>)>::empty());
    Ok(config)
}

/// How forwarding rows are read, and whether one that cannot be set up ends
/// the session.
fn read_settings(rows: &Vec<Vec<char>>, windows: bool) -> (r: Result<
    (ForwardPolicies, bool),
    ClientError,
>)
    ensures
        match (policies_of(rows.deep_view(), windows), strict_forwarding(rows.deep_view())) {
            (None, _) => r == Err::<(ForwardPolicies, bool), ClientError>(
                ClientError::SshConfigMalformed("gatewayports"),
            ),
            (_, None) => r == Err::<(ForwardPolicies, bool), ClientError>(
                ClientError::SshConfigMalformed("exitonforwardfailure"),
            ),
            (Some(policies), Some(strict)) => r == Ok::<(ForwardPolicies, bool), ClientError>(
                (policies, strict),
            ),
        },
{
    let gateway_ports = match find_first_setting(rows, "gatewayports") {
        Some(value) => match GatewayPorts::parse(value.as_str()) {
            Ok(ports) => ports,
            Err(error) => {
                return Err(error);
            },
        },
        None => GatewayPorts::No,
    };
    let policies = ForwardPolicies {
        gateway_ports,
        stream_local_bind: StreamLocalBindPolicy::of_rows(rows),
        windows,
    };
    match find_first_setting(rows, "exitonforwardfailure") {
        Some(value) => match parse_yes_no(value.as_str()) {
            Ok(strict) => Ok((policies, strict)),
            Err(error) => Err(error),
        },
        None => Ok((policies, false)),
    }
}

/// Reads the output of `ssh -G`, on Windows or elsewhere.
pub fn parse_ssh_config(stdout: &[u8], parse_local_forwards: bool, windows: bool) -> (r: Result<
    ResolvedSshConfig,
    ClientError,
>)
    ensures
        read_from(stdout@, parse_local_forwards, windows, r),
{
    let text = match utf8_text(stdout) {
        Some(text) => text,
        None => {
            return Err(ClientError::SshConfigMalformed("UTF-8 output"));
        },
    };
    let rows = split_lines(chars_of(text).as_slice());
    // The options of a relay host's own sessions are none of a lookup's
    // business.
    if !parse_local_forwards {
        return read_address(&rows);
    }
    let (policies, strict) = match read_settings(&rows, windows) {
        Ok(settings) => settings,
        Err(error) => {
            return Err(error);
        },
    };
    match find_first_fault(&rows, policies) {
        Some(fault) => {
            return Err(fault);
        },
        None => {},
    }
    let address = match read_address(&rows) {
        Ok(address) => address,
        Err(error) => {
            return Err(error);
        },
    };
    let proxy_jump = match find_last_verbatim(&rows, "proxyjump") {
        Some(value) => {
            if crate::text::same_text(value.as_str(), "none") {
                None
            } else {
                Some(value)
            }
        },
        None => None,
    };
    let forward_agent = match find_last_verbatim(&rows, "forwardagent") {
        Some(value) => crate::text::same_text(value.as_str(), "yes"),
        None => false,
    };
    Ok(
        ResolvedSshConfig {
            hostname: address.hostname,
            user: address.user,
            port: address.port,
            exit_on_forward_failure: strict,
            local_forwards: collect_forwards(&rows, policies),
            set_env: collect_assignments(&rows),
            proxy_jump,
            forward_agent,
            identity_agent: find_last_verbatim(&rows, "identityagent"),
        },
    )
}

// What is skipped.

/// What the log says of a dynamic forwarding.
pub open spec fn dynamic_warning() -> Seq<char> {
    "SSH dynamicforward is unsupported by ET protocol v6; skipping forwarding row"@
}

/// What the log says of a `localforward` row that is skipped, and why.
pub open spec fn local_warning(reason: Seq<char>) -> Seq<char> {
    "SSH localforward "@ + reason + "; skipping forwarding row"@
}

/// The warning for one row, where there is one.
pub open spec fn row_warning(row: Seq<char>, policies: ForwardPolicies) -> Option<Seq<char>> {
    if has_key(row, "localforward"@) {
        match forward_of(words(row).skip(1), policies) {
            Ok(ForwardModel::Unsupported(reason)) => Some(local_warning(reason@)),
            _ => None,
        }
    } else {
        None
    }
}

/// The warnings for the `localforward` rows, in order, up to a row that is
/// refused.
pub open spec fn row_warnings(rows: Seq<Seq<char>>, policies: ForwardPolicies) -> Seq<Seq<char>>
    decreases rows.len(),
{
    if rows.len() == 0 || row_fault(rows[0], policies) is Some {
        Seq::empty()
    } else {
        match row_warning(rows[0], policies) {
            Some(warning) => seq![warning] + row_warnings(rows.skip(1), policies),
            None => row_warnings(rows.skip(1), policies),
        }
    }
}

/// The warnings for the configuration of a session: one for every dynamic
/// forwarding, then one for every `localforward` row that is skipped. Nothing
/// is skipped where the settings of forwarding are refused.
pub open spec fn warnings_of(rows: Seq<Seq<char>>, windows: bool) -> Seq<Seq<char>> {
    match (policies_of(rows, windows), strict_forwarding(rows)) {
        (Some(policies), Some(_)) => Seq::new(
            requested_dynamic_forwards(rows).len(),
            |i: int| dynamic_warning(),
        ) + row_warnings(rows, policies),
        _ => Seq::empty(),
    }
}

fn find_row_warning(row: &[char], policies: ForwardPolicies) -> (r: Option<String>)
    ensures
        r.deep_view() == row_warning(row@, policies),
{
    if !row_has_key(row, "localforward") {
        return None;
    }
    match parse_forward(row, policies) {
        Ok(ForwardRecord::Unsupported(reason)) => {
            let mut warning = joined("SSH localforward ", reason);
            warning.append("; skipping forwarding row");
            Some(warning)
        },
        _ => None,
    }
}

/// What the log says while the configuration of a session is read: one line
/// for every forwarding that is skipped.
pub fn skipped_forward_warnings(text: &str, windows: bool) -> (out: Vec<String>)
    ensures
        out.deep_view() == warnings_of(lines(text@), windows),
{
    let rows = split_lines(chars_of(text).as_slice());
    let ghost all = rows.deep_view();
    let mut out: Vec<String> = Vec::new();
    assert(out.deep_view() =~= Seq::<Seq<char>>::empty());
    let policies = match read_settings(&rows, windows) {
        Ok((policies, _)) => policies,
        Err(_) => {
            return out;
        },
    };
    let dynamic = unsupported_dynamic_forwards(text);
    assert(dynamic.deep_view().len() == dynamic@.len());
    let mut i: usize = 0;
    while i < dynamic.len()
        invariant
            i <= dynamic@.len(),
            out.deep_view() == Seq::new(i as nat, |k: int| dynamic_warning()),
        decreases dynamic@.len() - i,
    {
        push_text(
            &mut out,
            "SSH dynamicforward is unsupported by ET protocol v6; skipping forwarding row",
        );
        i += 1;
        assert(out.deep_view() =~= Seq::new(i as nat, |k: int| dynamic_warning()));
    }
    let ghost start = out.deep_view();
    let mut i: usize = 0;
    assert(all.skip(0) =~= all);
    assert(out.deep_view() + row_warnings(all, policies) =~= start + row_warnings(all, policies));
    while i < rows.len()
        invariant
            i <= rows@.len(),
            all == rows.deep_view(),
            out.deep_view() + row_warnings(all.skip(i as int), policies) == start + row_warnings(
                all,
                policies,
            ),
            start + row_warnings(all, policies) == warnings_of(all, windows),
            all == lines(text@),
        decreases rows@.len() - i,
    {
        let ghost before = out.deep_view();
        proof {
            lemma_chars_deep_view(rows@[i as int]);
            assert(all.skip(i as int)[0] == rows@[i as int]@);
            assert(all.skip(i as int).skip(1) =~= all.skip(i + 1));
        }
        let row = rows[i].as_slice();
        if find_row_fault(row, policies).is_some() {
            assert(before + Seq::<Seq<char>>::empty() =~= before);
            return out;
        }
        match find_row_warning(row, policies) {
            Some(warning) => {
                push_text(&mut out, warning.as_str());
                assert(before.push(warning@) + row_warnings(all.skip(i + 1), policies) =~= before
                    + (seq![warning@] + row_warnings(all.skip(i + 1), policies)));
            },
            None => {},
        }
        i += 1;
    }
    assert(out.deep_view() + row_warnings(all.skip(i as int), policies) =~= out.deep_view());
    out
}

// `SetEnv` values are printed unescaped, so that a line feed in one of them
// could pass for a row of its own.

/// The pieces of a text, each with the line feed that ends it.
pub open spec fn pieces(s: Seq<char>) -> Seq<Seq<char>>
    decreases s.len(),
    via pieces_decreases
{
    let k = first_index(s, '\n');
    if s.len() == 0 {
        Seq::empty()
    } else if k == s.len() {
        seq![s]
    } else {
        seq![s.take(k + 1)] + pieces(s.skip(k + 1))
    }
}

#[via_fn]
proof fn pieces_decreases(s: Seq<char>) {
    crate::text::lemma_first_index_bounds(s, '\n');
}

/// The pieces put together again.
pub open spec fn together(list: Seq<Seq<char>>) -> Seq<char>
    decreases list.len(),
{
    if list.len() == 0 {
        Seq::empty()
    } else {
        together(list.drop_last()) + list.last()
    }
}

pub open spec fn is_setenv_row(row: Seq<char>) -> bool {
    "setenv "@.is_prefix_of(row)
}

/// The row that the baseline query puts in place of all the others.
pub open spec fn is_sentinel(piece: Seq<char>) -> bool {
    piece == "setenv ET_RS_CONFIG_SENTINEL=1\n"@ || piece == "setenv ET_RS_CONFIG_SENTINEL=1\r\n"@
}

/// Where the baseline's only `setenv` row stands, and that it is the sentinel.
pub open spec fn sentinel_at(list: Seq<Seq<char>>, i: int) -> bool {
    &&& 0 <= i < list.len()
    &&& is_sentinel(list[i])
    &&& forall|j: int| 0 <= j < list.len() && j != i ==> !is_setenv_row(#[trigger] list[j])
}

/// Complete `setenv` rows and nothing else.
pub open spec fn environment_rows(text: Seq<char>) -> bool {
    &&& text.len() > 0
    &&& text.last() == '\n'
    &&& forall|i: int|
        0 <= i < lines(text).len() ==> is_setenv_row(#[trigger] lines(text)[i]) && !lines(
            text,
        )[i].contains('\r')
}

/// Whether `original` is `baseline` with `setenv` rows in place of the piece
/// at `i`.
pub open spec fn replaces_piece(original: Seq<char>, baseline: Seq<char>, i: int) -> bool {
    let head = together(pieces(baseline).take(i));
    let tail = together(pieces(baseline).skip(i + 1));
    &&& head.is_prefix_of(original)
    &&& tail.is_suffix_of(original.skip(head.len() as int))
    &&& environment_rows(
        original.subrange(head.len() as int, original.len() - tail.len()),
    )
}

/// Whether two outputs differ in their `setenv` rows alone.
pub open spec fn setenv_confined(original: Seq<char>, baseline: Seq<char>) -> bool {
    exists|i: int|
        #[trigger] sentinel_at(pieces(baseline), i) && replaces_piece(original, baseline, i)
}

fn split_pieces(s: &[char]) -> (out: Vec<Vec<char>>)
    ensures
        out.deep_view() == pieces(s@),
{
    let mut out: Vec<Vec<char>> = Vec::new();
    let mut rest: &[char] = s;
    assert(out.deep_view() =~= Seq::<Seq<char>>::empty());
    loop
        invariant_except_break
            out.deep_view() + pieces(rest@) == pieces(s@),
        ensures
            out.deep_view() == pieces(s@),
        decreases rest@.len(),
    {
        let ghost before = rest@;
        let ghost done = out.deep_view();
        if rest.len() == 0 {
            assert(out.deep_view() + pieces(before) =~= out.deep_view());
            break;
        }
        let k = find_char(rest, '\n');
        let end: usize = if k == rest.len() {
            k
        } else {
            k + 1
        };
        let piece = copy_of(slice_subrange(rest, 0, end));
        let ghost text = piece@;
        proof {
            lemma_chars_deep_view(piece);
            assert(text =~= before.take(end as int));
        }
        out.push(piece);
        assert(out.deep_view() =~= done + seq![text]);
        if k == rest.len() {
            assert(text =~= before);
            break;
        }
        rest = slice_subrange(rest, end, rest.len());
        assert(done + (seq![text] + pieces(rest@)) =~= out.deep_view() + pieces(rest@));
    }
    out
}

fn join_pieces(list: &Vec<Vec<char>>, from: usize, to: usize) -> (out: Vec<char>)
    requires
        from <= to <= list@.len(),
    ensures
        out@ == together(list.deep_view().subrange(from as int, to as int)),
{
    let ghost all = list.deep_view();
    let mut out: Vec<char> = Vec::new();
    let mut i: usize = from;
    assert(all.subrange(from as int, from as int) =~= Seq::<Seq<char>>::empty());
    while i < to
        invariant
            from <= i <= to <= list@.len(),
            all == list.deep_view(),
            out@ == together(all.subrange(from as int, i as int)),
        decreases to - i,
    {
        let ghost before = out@;
        proof {
            lemma_chars_deep_view(list@[i as int]);
        }
        let piece = list[i].as_slice();
        let mut k: usize = 0;
        while k < piece.len()
            invariant
                k <= piece@.len(),
                out@ == before + piece@.take(k as int),
            decreases piece@.len() - k,
        {
            out.push(piece[k]);
            k += 1;
            assert(piece@.take(k as int) =~= piece@.take(k - 1).push(piece@[k - 1]));
        }
        assert(piece@.take(k as int) =~= piece@);
        proof {
            let longer = all.subrange(from as int, i + 1);
            assert(longer.drop_last() =~= all.subrange(from as int, i as int));
            assert(longer.last() == piece@);
        }
        i += 1;
    }
    out
}

fn row_is_setenv(row: &[char]) -> (r: bool)
    ensures
        r == is_setenv_row(row@),
{
    starts_with(row, chars_of("setenv ").as_slice())
}

fn find_sentinel(list: &Vec<Vec<char>>) -> (r: Option<usize>)
    ensures
        match r {
            Some(i) => sentinel_at(list.deep_view(), i as int),
            None => forall|i: int| !sentinel_at(list.deep_view(), i),
        },
{
    let ghost all = list.deep_view();
    let mut found: Option<usize> = None;
    let mut i: usize = 0;
    while i < list.len()
        invariant
            i <= list@.len(),
            all == list.deep_view(),
            match found {
                Some(k) => {
                    &&& k < i
                    &&& is_sentinel(all[k as int])
                    &&& forall|j: int| 0 <= j < i && j != k ==> !is_setenv_row(#[trigger] all[j])
                },
                None => forall|j: int| 0 <= j < i ==> !is_setenv_row(#[trigger] all[j]),
            },
        decreases list@.len() - i,
    {
        proof {
            lemma_chars_deep_view(list@[i as int]);
            assert(all[i as int] == list@[i as int]@);
        }
        let piece = list[i].as_slice();
        if row_is_setenv(piece) {
            let sentinel = spells(piece, "setenv ET_RS_CONFIG_SENTINEL=1\n") || spells(
                piece,
                "setenv ET_RS_CONFIG_SENTINEL=1\r\n",
            );
            if found.is_some() || !sentinel {
                proof {
                    assert forall|k: int| !sentinel_at(all, k) by {
                        lemma_sentinel_is_setenv();
                        if sentinel_at(all, k) {
                            if k != i {
                                assert(!is_setenv_row(all[i as int]));
                            } else if found is Some {
                                assert(!is_setenv_row(all[found->0 as int]));
                            }
                        }
                    }
                }
                return None;
            }
            found = Some(i);
        }
        i += 1;
    }
    proof {
        lemma_sentinel_is_setenv();
        if found is None {
            assert forall|k: int| !sentinel_at(all, k) by {
                if sentinel_at(all, k) {
                    assert(is_setenv_row(all[k]));
                }
            }
        }
    }
    found
}

proof fn lemma_sentinel_is_setenv()
    ensures
        forall|piece: Seq<char>| is_sentinel(piece) ==> is_setenv_row(piece),
{
    reveal_strlit("setenv ");
    reveal_strlit("setenv ET_RS_CONFIG_SENTINEL=1\n");
    reveal_strlit("setenv ET_RS_CONFIG_SENTINEL=1\r\n");
    assert forall|piece: Seq<char>| is_sentinel(piece) implies is_setenv_row(piece) by {
        assert(piece.take(7) =~= "setenv "@);
    }
}

fn holds_environment_rows(text: &[char]) -> (r: bool)
    ensures
        r == environment_rows(text@),
{
    if text.len() == 0 || text[text.len() - 1] != '\n' {
        return false;
    }
    let rows = split_lines(text);
    let ghost all = rows.deep_view();
    let mut i: usize = 0;
    while i < rows.len()
        invariant
            i <= rows@.len(),
            all == rows.deep_view(),
            all == lines(text@),
            forall|j: int|
                0 <= j < i ==> is_setenv_row(#[trigger] all[j]) && !all[j].contains('\r'),
        decreases rows@.len() - i,
    {
        proof {
            lemma_chars_deep_view(rows@[i as int]);
            assert(all[i as int] == rows@[i as int]@);
        }
        let row = rows[i].as_slice();
        if !row_is_setenv(row) || find_char(row, '\r') < row.len() {
            assert(!(is_setenv_row(lines(text@)[i as int]) && !lines(text@)[i as int].contains(
                '\r',
            )));
            return false;
        }
        i += 1;
    }
    true
}

/// Whether both outputs are text, and differ in their `setenv` rows alone.
pub open spec fn setenv_block_verified(original: Seq<u8>, baseline: Seq<u8>) -> bool {
    valid_utf8(original) && valid_utf8(baseline) && setenv_confined(
        decode_utf8(original),
        decode_utf8(baseline),
    )
}

/// Holds the output of `ssh -G` against that of the same query with the whole
/// `SetEnv` list replaced by a sentinel.
pub fn verify_setenv_block(original: &[u8], baseline: &[u8]) -> (r: Result<(), ClientError>)
    ensures
        match r {
            Ok(()) => setenv_block_verified(original@, baseline@),
            Err(error) => !setenv_block_verified(original@, baseline@) && error
                == ClientError::SshConfigMalformed("ambiguous or changed SetEnv output"),
        },
{
    let original = match utf8_text(original) {
        Some(text) => chars_of(text),
        None => {
            return Err(ClientError::SshConfigMalformed("ambiguous or changed SetEnv output"));
        },
    };
    let baseline = match utf8_text(baseline) {
        Some(text) => chars_of(text),
        None => {
            return Err(ClientError::SshConfigMalformed("ambiguous or changed SetEnv output"));
        },
    };
    let original = original.as_slice();
    let list = split_pieces(baseline.as_slice());
    let i = match find_sentinel(&list) {
        Some(i) => i,
        None => {
            return Err(ClientError::SshConfigMalformed("ambiguous or changed SetEnv output"));
        },
    };
    let head = join_pieces(&list, 0, i);
    let tail = join_pieces(&list, i + 1, list.len());
    proof {
        let all = pieces(baseline@);
        assert(all.subrange(0, i as int) =~= all.take(i as int));
        assert(all.subrange(i + 1, all.len() as int) =~= all.skip(i + 1));
        lemma_sentinel_unique(all, i as int);
    }
    if starts_with(original, head.as_slice()) {
        let rest = slice_subrange(original, head.len(), original.len());
        assert(rest@ =~= original@.skip(head@.len() as int));
        if crate::text::ends_with(rest, tail.as_slice()) {
            let block = slice_subrange(rest, 0, rest.len() - tail.len());
            assert(block@ =~= original@.subrange(
                head@.len() as int,
                original@.len() - tail@.len(),
            ));
            if holds_environment_rows(block) {
                assert(replaces_piece(original@, baseline@, i as int));
                return Ok(());
            }
        }
    }
    Err(ClientError::SshConfigMalformed("ambiguous or changed SetEnv output"))
}

proof fn lemma_sentinel_unique(list: Seq<Seq<char>>, i: int)
    requires
        sentinel_at(list, i),
    ensures
        forall|k: int| sentinel_at(list, k) ==> k == i,
{
    lemma_sentinel_is_setenv();
    assert forall|k: int| sentinel_at(list, k) implies k == i by {
        if k != i {
            assert(!is_setenv_row(list[k]));
        }
    }
}

/// The rows that set no environment variable.
pub open spec fn other_rows(rows: Seq<Seq<char>>) -> Seq<Seq<char>>
    decreases rows.len(),
{
    if rows.len() == 0 {
        Seq::empty()
    } else if is_setenv_row(rows.last()) {
        other_rows(rows.drop_last())
    } else {
        other_rows(rows.drop_last()).push(rows.last())
    }
}

proof fn lemma_other_rows_add(a: Seq<Seq<char>>, b: Seq<Seq<char>>)
    ensures
        other_rows(a + b) == other_rows(a) + other_rows(b),
    decreases b.len(),
{
    if b.len() == 0 {
        assert(a + b =~= a);
        assert(other_rows(a) + other_rows(b) =~= other_rows(a));
    } else {
        assert((a + b).drop_last() =~= a + b.drop_last());
        lemma_other_rows_add(a, b.drop_last());
        assert(other_rows(a + b) =~= other_rows(a) + other_rows(b));
    }
}

proof fn lemma_no_other_rows(rows: Seq<Seq<char>>)
    requires
        forall|i: int| 0 <= i < rows.len() ==> is_setenv_row(#[trigger] rows[i]),
    ensures
        other_rows(rows) == Seq::<Seq<char>>::empty(),
    decreases rows.len(),
{
    if rows.len() > 0 {
        assert(is_setenv_row(rows[rows.len() - 1]));
        assert forall|i: int| 0 <= i < rows.drop_last().len() implies is_setenv_row(
            #[trigger] rows.drop_last()[i],
        ) by {
            assert(rows.drop_last()[i] == rows[i]);
        }
        lemma_no_other_rows(rows.drop_last());
    }
}

/// A text that is empty or ends a line.
spec fn whole_lines(s: Seq<char>) -> bool {
    s.len() == 0 || s.last() == '\n'
}

proof fn lemma_lines_add(x: Seq<char>, y: Seq<char>)
    requires
        whole_lines(x),
    ensures
        lines(x + y) == lines(x) + lines(y),
    decreases x.len(),
{
    if x.len() == 0 {
        assert(x + y =~= y);
        assert(lines(x) + lines(y) =~= lines(y));
    } else {
        crate::text::lemma_first_index_bounds(x, '\n');
        let k = first_index(x, '\n');
        assert(x.contains(x[x.len() - 1]));
        assert forall|i: int| 0 <= i < k implies (x + y)[i] != '\n' by {
            assert((x + y)[i] == x[i]);
        }
        crate::text::lemma_first_index(x + y, '\n', k);
        let rest = x.skip(k + 1);
        assert((x + y).take(k) =~= x.take(k));
        assert((x + y).skip(k + 1) =~= rest + y);
        if rest.len() > 0 {
            assert(rest.last() == x.last());
        }
        lemma_lines_add(rest, y);
        let first = seq![crate::text::without_return(x.take(k))];
        assert(first + (lines(rest) + lines(y)) =~= (first + lines(rest)) + lines(y));
    }
}

proof fn lemma_together_push(list: Seq<Seq<char>>, last: Seq<char>)
    ensures
        together(list.push(last)) == together(list) + last,
{
    assert(list.push(last).drop_last() =~= list);
}

proof fn lemma_together_add(a: Seq<Seq<char>>, b: Seq<Seq<char>>)
    ensures
        together(a + b) == together(a) + together(b),
    decreases b.len(),
{
    if b.len() == 0 {
        assert(a + b =~= a);
        assert(together(a) + together(b) =~= together(a));
    } else {
        assert((a + b).drop_last() =~= a + b.drop_last());
        lemma_together_add(a, b.drop_last());
        assert(together(a + b) =~= together(a) + together(b));
    }
}

proof fn lemma_pieces(s: Seq<char>)
    ensures
        together(pieces(s)) == s,
        forall|j: int|
            0 <= j < pieces(s).len() - 1 ==> (#[trigger] pieces(s)[j]).len() > 0 && pieces(
                s,
            )[j].last() == '\n',
    decreases s.len(),
{
    crate::text::lemma_first_index_bounds(s, '\n');
    let k = first_index(s, '\n');
    if s.len() == 0 {
        assert(together(pieces(s)) =~= s);
    } else if k == s.len() {
        lemma_together_push(Seq::empty(), s);
        assert(Seq::<Seq<char>>::empty().push(s) =~= seq![s]);
        assert(together(Seq::<Seq<char>>::empty()) + s =~= s);
    } else {
        let rest = s.skip(k + 1);
        lemma_pieces(rest);
        let first = seq![s.take(k + 1)];
        lemma_together_add(first, pieces(rest));
        lemma_together_push(Seq::empty(), s.take(k + 1));
        assert(Seq::<Seq<char>>::empty().push(s.take(k + 1)) =~= first);
        assert(together(first) =~= s.take(k + 1));
        assert(s.take(k + 1) + rest =~= s);
        assert forall|j: int| 0 <= j < pieces(s).len() - 1 implies (#[trigger] pieces(s)[j]).len()
            > 0 && pieces(s)[j].last() == '\n' by {
            if j > 0 {
                assert(pieces(s)[j] == pieces(rest)[j - 1]);
            }
        }
    }
}

proof fn lemma_whole_head(list: Seq<Seq<char>>, i: int)
    requires
        0 <= i <= list.len(),
        forall|j: int|
            0 <= j < i ==> (#[trigger] list[j]).len() > 0 && list[j].last() == '\n',
    ensures
        whole_lines(together(list.take(i))),
{
    if i > 0 {
        let head = list.take(i);
        assert(head.last() == list[i - 1]);
        assert(together(head).last() == list[i - 1].last());
    }
}

proof fn lemma_sentinel_lines(piece: Seq<char>)
    requires
        is_sentinel(piece),
    ensures
        whole_lines(piece),
        forall|i: int| 0 <= i < lines(piece).len() ==> is_setenv_row(#[trigger] lines(piece)[i]),
{
    reveal_strlit("setenv ");
    reveal_strlit("setenv ET_RS_CONFIG_SENTINEL=1\n");
    reveal_strlit("setenv ET_RS_CONFIG_SENTINEL=1\r\n");
    let k = piece.len() - 1;
    crate::text::lemma_first_index(piece, '\n', k);
    assert(piece.skip(k + 1) =~= Seq::<char>::empty());
    assert(lines(Seq::<char>::empty()) =~= Seq::<Seq<char>>::empty());
    let row = crate::text::without_return(piece.take(k));
    assert(lines(piece) =~= seq![row]);
    assert(row.take(7) =~= "setenv "@);
}

/// Whole lines that set variables add no other row to a text.
proof fn lemma_rows_around(head: Seq<char>, block: Seq<char>, tail: Seq<char>)
    requires
        whole_lines(head),
        whole_lines(block),
        forall|i: int| 0 <= i < lines(block).len() ==> is_setenv_row(#[trigger] lines(block)[i]),
    ensures
        other_rows(lines(head + (block + tail))) == other_rows(lines(head)) + other_rows(
            lines(tail),
        ),
{
    lemma_lines_add(head, block + tail);
    lemma_lines_add(block, tail);
    lemma_other_rows_add(lines(head), lines(block) + lines(tail));
    lemma_other_rows_add(lines(block), lines(tail));
    lemma_no_other_rows(lines(block));
    assert(Seq::<Seq<char>>::empty() + other_rows(lines(tail)) =~= other_rows(lines(tail)));
}

proof fn lemma_around_piece(list: Seq<Seq<char>>, i: int)
    requires
        0 <= i < list.len(),
    ensures
        together(list) == together(list.take(i)) + (list[i] + together(list.skip(i + 1))),
{
    let head = list.take(i);
    let tail = list.skip(i + 1);
    assert(list =~= head.push(list[i]) + tail);
    lemma_together_add(head.push(list[i]), tail);
    lemma_together_push(head, list[i]);
    assert(together(list) =~= together(head) + (list[i] + together(tail)));
}

proof fn lemma_around_block(original: Seq<char>, head: Seq<char>, tail: Seq<char>)
    requires
        head.is_prefix_of(original),
        tail.is_suffix_of(original.skip(head.len() as int)),
    ensures
        original == head + (original.subrange(head.len() as int, original.len() - tail.len())
            + tail),
{
    let rest = original.skip(head.len() as int);
    assert(original.take(head.len() as int) =~= head);
    assert(rest.skip(rest.len() - tail.len()) =~= tail);
    assert(original =~= head + (original.subrange(
        head.len() as int,
        original.len() - tail.len(),
    ) + tail));
}

/// When the `setenv` rows are confined, every other row of the output is one
/// of the baseline's, and in its place: a line feed in a value becomes no
/// hostname, jumphost or forwarding.
pub proof fn confined_values_add_no_rows(original: Seq<char>, baseline: Seq<char>)
    requires
        setenv_confined(original, baseline),
    ensures
        other_rows(lines(original)) == other_rows(lines(baseline)),
{
    let list = pieces(baseline);
    let i = choose|i: int|
        #[trigger] sentinel_at(list, i) && replaces_piece(original, baseline, i);
    let head = together(list.take(i));
    let tail = together(list.skip(i + 1));
    let block = original.subrange(head.len() as int, original.len() - tail.len());
    assert(whole_lines(head)) by {
        lemma_pieces(baseline);
        lemma_whole_head(list, i);
    }
    assert(baseline == head + (list[i] + tail)) by {
        lemma_pieces(baseline);
        lemma_around_piece(list, i);
    }
    lemma_around_block(original, head, tail);
    lemma_sentinel_lines(list[i]);
    lemma_rows_around(head, list[i], tail);
    lemma_rows_around(head, block, tail);
}

proof fn lemma_setenv_key(row: Seq<char>)
    requires
        is_setenv_row(row),
    ensures
        words(row).len() > 0,
        words(row)[0] == "setenv"@,
{
    reveal_strlit("setenv ");
    reveal_strlit("setenv");
    assert(row[0] == "setenv "@[0]);
    assert forall|j: int| 0 <= j < 7 implies row[j] == "setenv "@[j] by {
        assert(row.take(7)[j] == row[j]);
    }
    crate::text::lemma_first_ink(row, 0);
    assert(trim_start(row) =~= row);
    crate::text::lemma_first_space(row, 6);
    assert(row.take(6) =~= "setenv"@);
}

proof fn lemma_last_row_of_others(rows: Seq<Seq<char>>, key: Seq<char>)
    requires
        !same_ignoring_case("setenv"@, key),
    ensures
        last_row(rows, key) == last_row(other_rows(rows), key),
    decreases rows.len(),
{
    if rows.len() > 0 {
        lemma_last_row_of_others(rows.drop_last(), key);
        if is_setenv_row(rows.last()) {
            lemma_setenv_key(rows.last());
        } else {
            assert(other_rows(rows).drop_last() =~= other_rows(rows.drop_last()));
        }
    }
}

/// When the `setenv` rows are confined, every other setting has the value
/// that the baseline gives it.
pub proof fn confined_values_change_no_setting(
    original: Seq<char>,
    baseline: Seq<char>,
    key: Seq<char>,
)
    requires
        setenv_confined(original, baseline),
        !same_ignoring_case("setenv"@, key),
    ensures
        last_row(lines(original), key) == last_row(lines(baseline), key),
{
    confined_values_add_no_rows(original, baseline);
    lemma_last_row_of_others(lines(original), key);
    lemma_last_row_of_others(lines(baseline), key);
}

// The query.

/// Inputs for `ssh -G` configuration expansion.
#[derive(Clone, Copy)]
pub struct SshConfigQuery<'a> {
    pub host_alias: &'a str,
    pub requested_user: Option<&'a str>,
    /// Port given explicitly on the command line (`host:port`). It must reach
    /// `ssh -G`: resolving without it yields the configured port.
    pub explicit_port: Option<u16>,
    pub ssh_options: &'a [String],
    pub ssh_config: Option<&'a str>,
    /// When false, jumphost-only lookups resolve address/user/port and do not
    /// import or reject session options belonging to the relay host.
    pub parse_local_forwards: bool,
    /// The client runs on Windows.
    pub windows: bool,
}

/// The options of a query, in order, without those that steer connection
/// sharing.
pub open spec fn query_options(options: Seq<Seq<char>>) -> Seq<Seq<char>>
    decreases options.len(),
{
    if options.len() == 0 {
        Seq::empty()
    } else if controls_sharing(options.last()) {
        query_options(options.drop_last())
    } else {
        query_options(options.drop_last()).push("-o"@ + options.last())
    }
}

pub open spec fn explicit_port_flags(port: Option<u16>) -> Seq<Seq<char>> {
    match port {
        Some(port) => seq!["-p"@, decimal(port as nat)],
        None => Seq::empty(),
    }
}

/// The arguments of a query, after the two that make it one.
pub open spec fn query_rest(query: SshConfigQuery<'_>) -> Seq<Seq<char>> {
    config_flags(query.ssh_config.deep_view()) + explicit_port_flags(query.explicit_port)
        + query_options(query.ssh_options.deep_view()) + seq![
        ssh_destination(query.requested_user.deep_view(), query.host_alias@),
    ]
}

/// Whether an invocation asks for the configuration of a destination. The
/// baseline query is the same with the whole `SetEnv` list replaced: the
/// first option suppresses what is configured.
pub open spec fn is_config_query(
    invocation: SshInvocation,
    query: SshConfigQuery<'_>,
    baseline: bool,
) -> bool {
    &&& invocation.program@ == "ssh"@
    &&& invocation.args.deep_view() == seq!["-G"@, "-T"@] + (if baseline {
        seq!["-oSetEnv=ET_RS_CONFIG_SENTINEL=1"@]
    } else {
        Seq::empty()
    }) + query_rest(query)
    &&& invocation.operation == "resolving SSH configuration"
    &&& invocation.completion == InvocationCompletion::Exit
}

/// The invocation that asks for the configuration of a destination.
pub fn config_query(query: &SshConfigQuery<'_>, baseline: bool) -> (invocation: SshInvocation)
    ensures
        is_config_query(invocation, *query, baseline),
{
    let mut args: Vec<String> = Vec::new();
    assert(args.deep_view() =~= Seq::<Seq<char>>::empty());
    // Expansion never opens a remote session. Without a PTY it completes
    // reliably when the output is a pipe.
    push_text(&mut args, "-G");
    push_text(&mut args, "-T");
    if baseline {
        push_text(&mut args, "-oSetEnv=ET_RS_CONFIG_SENTINEL=1");
    }
    let ghost start = args.deep_view();
    append_ssh_config_flag(&mut args, query.ssh_config);
    match query.explicit_port {
        Some(port) => {
            push_text(&mut args, "-p");
            push_text(&mut args, decimal_string(port as u64).as_str());
        },
        None => {},
    }
    let ghost flags = config_flags(query.ssh_config.deep_view()) + explicit_port_flags(
        query.explicit_port,
    );
    assert(args.deep_view() =~= start + flags);
    let ghost list = query.ssh_options.deep_view();
    let mut i: usize = 0;
    assert(args.deep_view() =~= start + flags + query_options(list.take(0)));
    while i < query.ssh_options.len()
        invariant
            i <= query.ssh_options@.len(),
            list == query.ssh_options.deep_view(),
            args.deep_view() == start + flags + query_options(list.take(i as int)),
        decreases query.ssh_options@.len() - i,
    {
        let option = query.ssh_options[i].as_str();
        assert(option@ == list[i as int]);
        assert(list.take(i + 1).drop_last() =~= list.take(i as int));
        if !is_control_option(option) {
            push_text(&mut args, joined("-o", option).as_str());
        }
        i += 1;
        assert(args.deep_view() =~= start + flags + query_options(list.take(i as int)));
    }
    assert(list.take(i as int) =~= list);
    push_text(&mut args, destination_of(query.requested_user, query.host_alias).as_str());
    assert(args.deep_view() =~= start + query_rest(*query));
    assert(start =~= seq!["-G"@, "-T"@] + (if baseline {
        seq!["-oSetEnv=ET_RS_CONFIG_SENTINEL=1"@]
    } else {
        Seq::empty()
    }));
    SshInvocation {
        program: "ssh".to_owned(),
        args,
        operation: "resolving SSH configuration",
        completion: InvocationCompletion::Exit,
    }
}

/// Whether a line of the output sets an environment variable.
pub open spec fn sets_environment(stdout: Seq<u8>) -> bool {
    exists|i: int| #[trigger]
        occurs_at(stdout, crate::text::ascii("setenv "@), i) && (i == 0 || stdout[i - 1] == 10)
}

/// Whether an output has to be held against a baseline.
pub fn needs_baseline(stdout: &[u8]) -> (r: bool)
    ensures
        r == sets_environment(stdout@),
{
    let pattern = crate::text::ascii_bytes("setenv ");
    proof {
        reveal_strlit("setenv ");
        assert(pattern@.len() == 7);
    }
    let total: usize = stdout.len();
    let mut i: usize = 0;
    while i < total && total - i >= 7
        invariant
            i <= total,
            total == stdout@.len(),
            pattern@ == crate::text::ascii("setenv "@),
            pattern@.len() == 7,
            forall|j: int|
                0 <= j < i ==> !(#[trigger] occurs_at(stdout@, pattern@, j) && (j == 0 || stdout@[j
                    - 1] == 10)),
        decreases total - i,
    {
        if (i == 0 || stdout[i - 1] == 10) && crate::bytes::same_bytes(
            slice_subrange(stdout, i, i + 7),
            pattern.as_slice(),
        ) {
            assert(occurs_at(stdout@, pattern@, i as int));
            return true;
        }
        i += 1;
    }
    assert forall|j: int| !(#[trigger] occurs_at(stdout@, pattern@, j) && (j == 0 || stdout@[j - 1]
        == 10)) by {
        if occurs_at(stdout@, pattern@, j) {
            assert(j < i);
        }
    }
    false
}

/// Whether `r` is what two answers of a runner amount to: the second one,
/// to the baseline query, counts only where the first one sets environment
/// variables.
pub open spec fn resolved_from(
    session: bool,
    windows: bool,
    answer: Result<SshOutput, ClientError>,
    baseline: Result<SshOutput, ClientError>,
    r: Result<ResolvedSshConfig, ClientError>,
) -> bool {
    match checked_answer(answer) {
        Err(error) => r == Err::<ResolvedSshConfig, ClientError>(error),
        Ok(stdout) => if !sets_environment(stdout@) {
            read_from(stdout@, session, windows, r)
        } else {
            match checked_answer(baseline) {
                Err(error) => r == Err::<ResolvedSshConfig, ClientError>(error),
                Ok(plain) => if setenv_block_verified(stdout@, plain@) {
                    read_from(stdout@, session, windows, r)
                } else {
                    r == Err::<ResolvedSshConfig, ClientError>(
                        ClientError::SshConfigMalformed("ambiguous or changed SetEnv output"),
                    )
                },
            }
        },
    }
}

/// What two outputs amount to. `baseline` is needed only where the first one
/// sets environment variables.
pub fn conclude_ssh_config(
    stdout: &[u8],
    baseline: Option<&[u8]>,
    parse_local_forwards: bool,
    windows: bool,
) -> (r: Result<ResolvedSshConfig, ClientError>)
    requires
        sets_environment(stdout@) ==> baseline is Some,
    ensures
        if sets_environment(stdout@) && !setenv_block_verified(stdout@, baseline->0@) {
            r == Err::<ResolvedSshConfig, ClientError>(
                ClientError::SshConfigMalformed("ambiguous or changed SetEnv output"),
            )
        } else {
            read_from(stdout@, parse_local_forwards, windows, r)
        },
{
    if needs_baseline(stdout) {
        match baseline {
            Some(plain) => match verify_setenv_block(stdout, plain) {
                Ok(()) => {},
                Err(error) => {
                    return Err(error);
                },
            },
            None => {},
        }
    }
    parse_ssh_config(stdout, parse_local_forwards, windows)
}

/// What the log says of the forwardings that a session skips, by the outputs
/// that [`conclude_ssh_config`] takes. Outputs that it refuses as a whole
/// skip nothing.
pub open spec fn session_skips(stdout: Seq<u8>, baseline: Option<Seq<u8>>, windows: bool) -> Seq<
    Seq<char>,
> {
    if !valid_utf8(stdout) || (sets_environment(stdout) && !(baseline matches Some(plain)
        && setenv_block_verified(stdout, plain))) {
        Seq::empty()
    } else {
        warnings_of(lines(decode_utf8(stdout)), windows)
    }
}

/// The warnings for the forwardings that a session skips.
pub fn session_warnings(stdout: &[u8], baseline: Option<&[u8]>, windows: bool) -> (out: Vec<String>)
    ensures
        out.deep_view() == session_skips(
            stdout@,
            match baseline {
                Some(plain) => Some(plain@),
                None => None,
            },
            windows,
        ),
{
    let nothing: Vec<String> = Vec::new();
    assert(nothing.deep_view() =~= Seq::<Seq<char>>::empty());
    if needs_baseline(stdout) {
        match baseline {
            Some(plain) => match verify_setenv_block(stdout, plain) {
                Ok(()) => {},
                Err(_) => {
                    return nothing;
                },
            },
            None => {
                return nothing;
            },
        }
    }
    match utf8_text(stdout) {
        Some(text) => skipped_forward_warnings(text, windows),
        None => nothing,
    }
}

/// What is still awaited of the answers that tell what a session skips. They
/// are the first ones of its `ssh`.
#[derive(Debug)]
pub enum SkipReport {
    /// The configuration.
    Configuration,
    /// The baseline of this configuration.
    Baseline(Vec<u8>),
    Nothing,
}

impl SkipReport {
    /// Takes in an answer, and gives what the log says now.
    pub fn observe(self, output: &SshOutput, windows: bool) -> (r: (SkipReport, Vec<String>))
        ensures
            match self {
                SkipReport::Configuration if checked_output(*output) is Ok && sets_environment(
                    output.stdout@,
                ) => {
                    &&& r.0 matches SkipReport::Baseline(first) && first@ == output.stdout@
                    &&& r.1@.len() == 0
                },
                SkipReport::Configuration if checked_output(*output) is Ok => r.0 is Nothing
                    && r.1.deep_view() == session_skips(output.stdout@, None, windows),
                SkipReport::Baseline(first) if checked_output(*output) is Ok => r.0 is Nothing
                    && r.1.deep_view() == session_skips(first@, Some(output.stdout@), windows),
                _ => r.0 is Nothing && r.1@.len() == 0,
            },
    {
        match output.status {
            Some(status) => {
                if !status.success() {
                    return (SkipReport::Nothing, Vec::new());
                }
            },
            None => {},
        }
        let stdout = output.stdout.as_slice();
        match self {
            SkipReport::Configuration => {
                if needs_baseline(stdout) {
                    (SkipReport::Baseline(crate::bytes::bytes_of(stdout)), Vec::new())
                } else {
                    (SkipReport::Nothing, session_warnings(stdout, None, windows))
                }
            },
            SkipReport::Baseline(first) => (
                SkipReport::Nothing,
                session_warnings(first.as_slice(), Some(stdout), windows),
            ),
            SkipReport::Nothing => (SkipReport::Nothing, Vec::new()),
        }
    }
}

/// Whether the runner answered a query for the configuration in this way.
pub open spec fn query_answered<R: SshRunner + ?Sized>(
    runner: &R,
    query: SshConfigQuery<'_>,
    baseline: bool,
    deadline: Deadline,
    answer: Result<SshOutput, ClientError>,
) -> bool {
    exists|invocation: SshInvocation|
        is_config_query(invocation, query, baseline) && #[trigger] call_ensures(
            R::run,
            (runner, &invocation, deadline),
            answer,
        )
}

/// Resolve SSH configuration, honouring an explicit command-line port. A
/// destination that `ssh` would take for an option is refused before anything
/// runs.
pub fn resolve_ssh_config_on_port<R: SshRunner + ?Sized>(
    runner: &R,
    query: SshConfigQuery<'_>,
    deadline: Deadline,
) -> (r: Result<ResolvedSshConfig, ClientError>)
    ensures
        match destination_fault(query.host_alias@, query.requested_user.deep_view()) {
            Some(fault) => r == Err::<ResolvedSshConfig, ClientError>(fault),
            None => exists|
                answer: Result<SshOutput, ClientError>,
                baseline: Result<SshOutput, ClientError>,
            |
                #[trigger] query_answered(runner, query, false, deadline, answer) && (
                checked_answer(answer) matches Ok(stdout) && sets_environment(stdout@)
                    ==> query_answered(runner, query, true, deadline, baseline))
                    && #[trigger] resolved_from(query.parse_local_forwards, query.windows, answer, baseline, r),
        },
{
    match validate_ssh_destination(query.host_alias, query.requested_user) {
        Ok(()) => {},
        Err(error) => {
            return Err(error);
        },
    }
    let invocation = config_query(&query, false);
    let first = run_checked(runner, &invocation, deadline);
    let ghost answer = choose|answer: Result<SshOutput, ClientError>| #[trigger]
        call_ensures(R::run, (runner, &invocation, deadline), answer) && first == checked_answer(
            answer,
        );
    assert(query_answered(runner, query, false, deadline, answer));
    let stdout = match first {
        Ok(stdout) => stdout,
        Err(error) => {
            let ghost r = Err::<ResolvedSshConfig, ClientError>(error);
            assert(resolved_from(query.parse_local_forwards, query.windows, answer, answer, r));
            return Err(error);
        },
    };
    if !needs_baseline(stdout.as_slice()) {
        let r = conclude_ssh_config(
            stdout.as_slice(),
            None,
            query.parse_local_forwards,
            query.windows,
        );
        assert(resolved_from(query.parse_local_forwards, query.windows, answer, answer, r));
        return r;
    }
    let plain_invocation = config_query(&query, true);
    let second = run_checked(runner, &plain_invocation, deadline);
    let ghost baseline = choose|baseline: Result<SshOutput, ClientError>| #[trigger]
        call_ensures(R::run, (runner, &plain_invocation, deadline), baseline) && second
            == checked_answer(baseline);
    assert(query_answered(runner, query, true, deadline, baseline));
    match second {
        Ok(plain) => {
            let r = conclude_ssh_config(
                stdout.as_slice(),
                Some(plain.as_slice()),
                query.parse_local_forwards,
                query.windows,
            );
            assert(resolved_from(query.parse_local_forwards, query.windows, answer, baseline, r));
            r
        },
        Err(error) => {
            let ghost r = Err::<ResolvedSshConfig, ClientError>(error);
            assert(resolved_from(query.parse_local_forwards, query.windows, answer, baseline, r));
            Err(error)
        },
    }
}

/// Resolve SSH configuration without an explicit port.
pub fn resolve_ssh_config<R: SshRunner + ?Sized>(
    runner: &R,
    host_alias: &str,
    requested_user: Option<&str>,
    ssh_options: &[String],
    ssh_config: Option<&str>,
    parse_local_forwards: bool,
    windows: bool,
    deadline: Deadline,
) -> (r: Result<ResolvedSshConfig, ClientError>)
    ensures
        exists|query: SshConfigQuery<'_>|
            query.host_alias@ == host_alias@ && query.requested_user == requested_user
                && query.explicit_port is None && query.ssh_options@ == ssh_options@
                && query.ssh_config == ssh_config && query.parse_local_forwards
                == parse_local_forwards && query.windows == windows && #[trigger] call_ensures(
                resolve_ssh_config_on_port::<R>,
                (runner, query, deadline),
                r,
            ),
{
    let query = SshConfigQuery {
        host_alias,
        requested_user,
        explicit_port: None,
        ssh_options,
        ssh_config,
        parse_local_forwards,
        windows,
    };
    let r = resolve_ssh_config_on_port(runner, query, deadline);
    assert(call_ensures(resolve_ssh_config_on_port::<R>, (runner, query, deadline), r));
    r
}

// The path of a configuration file.

/// `C:\`, `C:/` or `\\` with something behind it.
pub open spec fn windows_absolute(path: Seq<char>) -> bool {
    let bytes = encode_utf8(path);
    &&& bytes.len() >= 3
    &&& {
        ||| bytes[0] == 92 && bytes[1] == 92
        ||| (65 <= bytes[0] <= 90 || 97 <= bytes[0] <= 122) && bytes[1] == 58 && (bytes[2] == 92
            || bytes[2] == 47)
    }
}

pub fn is_windows_absolute_ssh_config_path(path: &str) -> (r: bool)
    ensures
        r == windows_absolute(path@),
{
    let bytes = path.as_bytes();
    if bytes.len() < 3 {
        return false;
    }
    if bytes[0] == 92 && bytes[1] == 92 {
        return true;
    }
    ((65 <= bytes[0] && bytes[0] <= 90) || (97 <= bytes[0] && bytes[0] <= 122)) && bytes[1] == 58
        && (bytes[2] == 92 || bytes[2] == 47)
}

/// A path that does not depend on the working directory. The shapes of both
/// platforms count on either.
pub open spec fn absolute_path(path: Seq<char>) -> bool {
    (path.len() > 0 && path[0] == '/') || windows_absolute(path)
}

pub fn is_absolute_ssh_config_path(path: &str) -> (r: bool)
    ensures
        r == absolute_path(path@),
{
    let chars = chars_of(path);
    (chars.len() > 0 && chars[0] == '/') || is_windows_absolute_ssh_config_path(path)
}

/// A character that no shell on the way to a jumphost gives a meaning.
pub open spec fn safe_path_char(c: char, windows_path: bool) -> bool {
    ||| is_alphanumeric(c)
    ||| c == '/' || c == '.' || c == '_' || c == '-'
    ||| windows_path && (c == ':' || c == '\\')
}

pub fn is_ssh_config_path_char_safe(character: char, windows_path: bool) -> (r: bool)
    ensures
        r == safe_path_char(character, windows_path),
{
    char_is_alphanumeric(character) || character == '/' || character == '.' || character == '_'
        || character == '-' || (windows_path && (character == ':' || character == '\\'))
}

/// An absolute path that can be handed through a jumphost's shell.
pub open spec fn safe_path(path: Seq<char>) -> bool {
    absolute_path(path) && forall|i: int|
        0 <= i < path.len() ==> safe_path_char(#[trigger] path[i], windows_absolute(path))
}

pub fn is_ssh_config_path_safe_for_proxy_jump(path: &str) -> (r: bool)
    ensures
        r == safe_path(path@),
{
    if !is_absolute_ssh_config_path(path) {
        return false;
    }
    let windows_path = is_windows_absolute_ssh_config_path(path);
    let chars = chars_of(path);
    let mut i: usize = 0;
    while i < chars.len()
        invariant
            i <= chars@.len(),
            chars@ == path@,
            windows_path == windows_absolute(path@),
            forall|j: int| 0 <= j < i ==> safe_path_char(#[trigger] path@[j], windows_path),
        decreases chars@.len() - i,
    {
        if !is_ssh_config_path_char_safe(chars[i], windows_path) {
            assert(!safe_path_char(path@[i as int], windows_path));
            return false;
        }
        i += 1;
    }
    true
}

/// What the file system says about a configuration file.
#[derive(Debug, Clone, Copy, PartialEq, Eq, Structural)]
pub struct ConfigFileState {
    /// A regular file, and no link to one.
    pub regular: bool,
    /// It can be opened for reading.
    pub readable: bool,
}

/// Validate `--ssh-config <path>`. `none` is handled by the caller.
///
/// Fail closed on relative, shell-unsafe, missing, non-regular, or symlink
/// paths. `state` is missing where the path names nothing.
pub fn validate_ssh_config_file(path: &str, state: Option<ConfigFileState>) -> (r: Result<
    (),
    ClientError,
>)
    ensures
        r == (if !absolute_path(path@) {
            Err::<(), ClientError>(
                ClientError::InvalidSshConfig("must be an absolute path or 'none'"),
            )
        } else if !safe_path(path@) {
            Err(
                ClientError::InvalidSshConfig(
                    "must contain only ASCII letters, digits, '/', '.', '_', and '-' (Windows also allows ':' and '\\')",
                ),
            )
        } else if state matches Some(state) && state.regular && state.readable {
            Ok(())
        } else {
            Err(ClientError::InvalidSshConfig("must name a readable, non-symlink regular file"))
        }),
{
    if !is_absolute_ssh_config_path(path) {
        return Err(ClientError::InvalidSshConfig("must be an absolute path or 'none'"));
    }
    if !is_ssh_config_path_safe_for_proxy_jump(path) {
        return Err(
            ClientError::InvalidSshConfig(
                "must contain only ASCII letters, digits, '/', '.', '_', and '-' (Windows also allows ':' and '\\')",
            ),
        );
    }
    match state {
        Some(state) => {
            if state.regular && state.readable {
                return Ok(());
            }
        },
        None => {},
    }
    Err(ClientError::InvalidSshConfig("must name a readable, non-symlink regular file"))
}

} // verus!
