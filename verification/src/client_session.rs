//! How the client brings up a session: it reads the configuration, chooses
//! what to forward and to export, starts the remote terminals, and ends with
//! an endpoint, credentials and the payload to send there.
use vstd::prelude::*;
use vstd::utf8::encode_utf8;

use crate::bootstrap::{
    bare_host, build_invocation, build_jump_invocation, build_shell_probe, cmd_safe,
    destination_fault, given_user, port_text, strip_brackets, survives_cmd, text_of,
    validate_ssh_destination, BootstrapRequest, Credentials, JumpBootstrapRequest, ParsedHost,
    RemoteShell, SshInvocation,
};
use crate::client::{
    asked_user, bootstrap_shell, command_user, config_choice, effective_args, effective_ssh_args,
    jumphost_fault, mode_fault, or_else, remote_program, resolve_remote_mode, selected_ssh_config,
    is_empty_text, shell_given, terminal_shell, validate_bootstrap_mode, validate_jumphost,
    RemoteMode,
};
use crate::client_args::{ArgsModel, ClientArgs};
use crate::client_environment::{
    bound_jumphost_locale_environment, bounded_locale_environment, capacity_beside, chosen,
    color_hint, colored, extend_environment, extended, ghostty_colorterm, in_locale_order,
    jump_bounded, locale_of, normalize_terminal_type, posix_candidates, posix_environment, reserved_bytes,
    reserved_beside, reserved_environment_value_lengths, reserved_lengths, ssh_locale_environment,
    terminal_type, windows_candidates, windows_environment, with_values, PacketLimits,
};
use crate::client_terminal::RemoteShellKind;
use crate::deadline::Deadline;
use crate::error::{joined, ClientError, ForwardConfigError};
use crate::forward::{
    copy_text, EndpointModel, ForwardSource, InitialPayload, PayloadModel,
    PortForwardSourceRequest, RequestModel, SocketEndpoint,
};
use crate::forward_config::{
    build, config_sources, explicit_sources, exported_names, forwarding_rows_are_deduplicated,
    name_fault, reports, requested, reverse_requests, unique_reverse, unique_sources,
    ForwardConfig,
};
use crate::initial_connect::Endpoint;
use crate::name_map::{
    ascending, lemma_place, lemma_precedes_self, mapping, names, place, NameMap,
};
use crate::ssh_config::{
    resolve_ssh_config_on_port, ConfigFileState, ConfigModel, ResolvedSshConfig, SshConfigQuery,
};
use crate::ssh_process::{run_bootstrap, run_shell_probe, SshRunner};
use crate::terminal_protocol::MAX_ENVIRONMENT;
use crate::text::{
    chars_of, copy_pairs, copy_texts, parse_number, parsed_number, signed_decimal,
    signed_decimal_string,
};

verus! {

/// The destination that the command line names.
#[derive(Debug)]
pub struct Destination {
    pub host: String,
    pub user: Option<String>,
    /// The session port.
    pub port: u16,
}

/// What the client finds around it.
#[derive(Debug)]
pub struct Surroundings {
    /// The socket of the environment's agent.
    pub agent: Option<String>,
    pub term: Option<String>,
    pub colorterm: Option<String>,
    /// The variables of the process that are text.
    pub variables: Vec<(String, String)>,
    /// What the file system says about the configuration file of the command
    /// line.
    pub config_file: Option<ConfigFileState>,
    pub limits: PacketLimits,
    /// The client runs on Windows.
    pub windows: bool,
}

/// Whether a function took the parts of a text to be these.
pub open spec fn parses<P: Fn(&str) -> ParsedHost>(
    parse: P,
    text: Seq<char>,
    parsed: ParsedHost,
) -> bool {
    exists|s: &str| s@ == text && #[trigger] call_ensures(parse, (s,), parsed)
}

// The query.

/// What to ask `ssh` about the destination.
#[derive(Debug)]
pub struct QueryPlan {
    pub requested_user: Option<String>,
    pub ssh_config: Option<String>,
    pub options: Vec<String>,
}

/// Whether a plan asks for these.
pub open spec fn asks(
    plan: QueryPlan,
    user: Option<Seq<char>>,
    config: Option<Seq<char>>,
    options: Seq<Seq<char>>,
) -> bool {
    plan.requested_user.deep_view() == user && plan.ssh_config.deep_view() == config
        && plan.options.deep_view() == options
}

/// Whether `r` is the plan for a destination, or what forbids one: the
/// destination, then the configuration file, then the jumphost.
pub open spec fn planned<P: Fn(&str) -> ParsedHost>(
    args: ArgsModel,
    host: Seq<char>,
    positional: Option<Seq<char>>,
    config_file: Option<ConfigFileState>,
    parse: P,
    r: Result<QueryPlan, ClientError>,
) -> bool {
    let user = asked_user(positional, args.username);
    match destination_fault(host, user) {
        Some(fault) => r == Err::<QueryPlan, ClientError>(fault),
        None => match config_choice(args, config_file) {
            Err(fault) => r == Err::<QueryPlan, ClientError>(fault),
            Ok(config) => match args.jumphost {
                None => r matches Ok(plan) && asks(plan, user, config, args.ssh_option),
                Some(jumphost) => exists|parsed: ParsedHost| #[trigger]
                    parses(parse, jumphost, parsed) && match jumphost_fault(jumphost, parsed) {
                        Some(fault) => r == Err::<QueryPlan, ClientError>(fault),
                        None => r matches Ok(plan) && asks(
                            plan,
                            user,
                            config,
                            seq!["ProxyJump="@ + jumphost] + args.ssh_option,
                        ),
                    },
            },
        },
    }
}

/// What to ask `ssh` about the destination. An explicit jumphost takes part
/// in the configuration, so the query names it.
pub fn plan_query<P: Fn(&str) -> ParsedHost>(
    args: &ClientArgs,
    destination: &Destination,
    config_file: Option<ConfigFileState>,
    parse_host: &P,
) -> (r: Result<QueryPlan, ClientError>)
    requires
        forall|s: &str| #[trigger] call_requires(*parse_host, (s,)),
    ensures
        planned(
            args.deep_view(),
            destination.host@,
            destination.user.deep_view(),
            config_file,
            *parse_host,
            r,
        ),
{
    let requested_user = command_user(copy_text(&destination.user), copy_text(&args.username));
    match validate_ssh_destination(destination.host.as_str(), text_of(&requested_user)) {
        Ok(()) => {},
        Err(error) => {
            return Err(error);
        },
    }
    let ssh_config = match selected_ssh_config(args, config_file) {
        Ok(config) => config,
        Err(error) => {
            return Err(error);
        },
    };
    match &args.jumphost {
        None => Ok(
            QueryPlan { requested_user, ssh_config, options: copy_texts(&args.ssh_option) },
        ),
        Some(jumphost) => {
            let parsed = (*parse_host)(jumphost.as_str());
            assert(parses(*parse_host, jumphost@, parsed));
            match validate_jumphost(jumphost.as_str(), &parsed) {
                Ok(()) => {},
                Err(error) => {
                    return Err(error);
                },
            }
            let mut options: Vec<String> = Vec::new();
            options.push(joined("ProxyJump=", jumphost.as_str()));
            let mut rest = copy_texts(&args.ssh_option);
            let ghost others = rest.deep_view();
            options.append(&mut rest);
            assert(options.deep_view() =~= seq!["ProxyJump="@ + jumphost@] + others);
            Ok(QueryPlan { requested_user, ssh_config, options })
        },
    }
}

// Forwarding.

/// Whether `r` is what the command line and the configuration forward.
pub open spec fn forwards(
    args: ArgsModel,
    config: ConfigModel,
    agent: Option<Seq<char>>,
    r: Result<ForwardConfig, ClientError>,
) -> bool {
    match reverse_requests(args, agent) {
        None => r == Err::<ForwardConfig, ClientError>(
            ClientError::ForwardConfig(ForwardConfigError::MissingAgentSocket),
        ),
        Some(requests) => match name_fault(exported_names(requests)) {
            Some(fault) => r matches Err(ClientError::ForwardConfig(error)) && reports(
                error,
                fault,
            ),
            None => match name_fault(exported_names(unique_reverse(requests))) {
                Some(fault) => r matches Err(ClientError::ForwardConfig(error)) && reports(
                    error,
                    fault,
                ),
                None => {
                    &&& r matches Ok(forwarding)
                    &&& forwarding.local_sources.deep_view() == unique_sources(
                        explicit_sources(args.tunnel) + config_sources(
                            config.local_forwards,
                            config.exit_on_forward_failure,
                        ),
                    )
                    &&& forwarding.initial_payload.well_formed()
                    &&& forwarding.initial_payload.deep_view() == (PayloadModel {
                        jumphost: Some(false),
                        reversetunnels: unique_reverse(requests),
                        environmentvariables: Map::empty(),
                        flowcontrol: None,
                    })
                },
            },
        },
    }
}

/// What the command line and the configuration forward together.
pub fn forwarding_for(
    args: &ClientArgs,
    resolved: &ResolvedSshConfig,
    agent: Option<&str>,
) -> (r: Result<ForwardConfig, ClientError>)
    ensures
        forwards(args.deep_view(), resolved.deep_view(), agent.deep_view(), r),
{
    let mut forwarding = match build(args, agent) {
        Ok(forwarding) => forwarding,
        Err(error) => {
            return Err(ClientError::ForwardConfig(error));
        },
    };
    match forwarding.apply_ssh_config(resolved) {
        Ok(()) => Ok(forwarding),
        Err(error) => Err(ClientError::ForwardConfig(error)),
    }
}

// The environment.

/// Whether a list of reserved names has these lengths.
pub open spec fn reserves(reserved: NameMap<usize>, lengths: Map<Seq<char>, usize>) -> bool {
    reserved.well_formed() && reserved@ == lengths
}

/// Whether `r` is what of candidates is exported: what the terminal has room
/// for, and on the way through a jumphost what the packet there has room for.
pub open spec fn budgeted<M: Fn(&InitialPayload) -> usize>(
    payload: PayloadModel,
    candidates: Seq<(Seq<char>, Seq<char>)>,
    reserved: NameMap<usize>,
    colorterm: Option<Seq<char>>,
    limits: PacketLimits,
    jump: bool,
    measure: M,
    r: Result<Vec<(String, String)>, ClientError>,
) -> bool {
    let start = limits.header + reserved_bytes(reserved.entries.deep_view());
    if start > limits.packet {
        r == Err::<Vec<(String, String)>, ClientError>(
            ClientError::ForwardConfig(
                ForwardConfigError::EnvironmentPacketTooLarge {
                    length: if start > usize::MAX {
                        usize::MAX
                    } else {
                        start as usize
                    },
                    limit: limits.packet,
                },
            ),
        )
    } else {
        let selected = chosen(
            candidates,
            reserved@,
            capacity_beside(reserved.entries@.len() as int),
            start,
            limits.packet as int,
        ).0;
        if !jump {
            r matches Ok(list) && list.deep_view() == selected
        } else {
            match r {
                Ok(list) => jump_bounded(
                    measure,
                    payload,
                    selected,
                    colorterm,
                    limits.packet,
                    list.deep_view(),
                    Ok(()),
                ),
                Err(error) => exists|length: usize|
                    #![trigger jump_bounded(
                        measure,
                        payload,
                        selected,
                        colorterm,
                        limits.packet,
                        Seq::empty(),
                        Err(length),
                    )]
                    jump_bounded(
                        measure,
                        payload,
                        selected,
                        colorterm,
                        limits.packet,
                        Seq::empty(),
                        Err(length),
                    ) && error == ClientError::ForwardConfig(
                        ForwardConfigError::JumphostPacketTooLarge { length, limit: limits.packet },
                    ),
            }
        }
    }
}

fn budget<M: Fn(&InitialPayload) -> usize>(
    payload: &InitialPayload,
    candidates: &Vec<(String, String)>,
    reserved: &NameMap<usize>,
    colorterm: Option<&str>,
    limits: PacketLimits,
    jump: bool,
    measure: &M,
) -> (r: Result<Vec<(String, String)>, ClientError>)
    requires
        payload.well_formed(),
        reserved.well_formed(),
        limits.packet < usize::MAX,
        forall|p: &InitialPayload| p.well_formed() ==> #[trigger] call_requires(*measure, (p,)),
    ensures
        budgeted(
            payload.deep_view(),
            candidates.deep_view(),
            *reserved,
            colorterm.deep_view(),
            limits,
            jump,
            *measure,
            r,
        ),
{
    let mut selected = match bounded_locale_environment(candidates, reserved, limits) {
        Ok(selected) => selected,
        Err(length) => {
            return Err(
                ClientError::ForwardConfig(
                    ForwardConfigError::EnvironmentPacketTooLarge { length, limit: limits.packet },
                ),
            );
        },
    };
    if jump {
        match bound_jumphost_locale_environment(payload, &mut selected, colorterm, limits, measure) {
            Ok(()) => {},
            Err(length) => {
                assert(selected.deep_view() =~= Seq::empty());
                return Err(
                    ClientError::ForwardConfig(
                        ForwardConfigError::JumphostPacketTooLarge { length, limit: limits.packet },
                    ),
                );
            },
        }
    }
    Ok(selected)
}

/// The variable names that requests export.
fn exported(requests: &Vec<PortForwardSourceRequest>) -> (out: Vec<&str>)
    ensures
        out.deep_view() == exported_names(requests.deep_view()),
{
    let ghost all = requests.deep_view();
    let mut out: Vec<&str> = Vec::new();
    let mut i: usize = 0;
    assert(all.take(0) =~= Seq::empty());
    assert(out.deep_view() =~= Seq::empty());
    while i < requests.len()
        invariant
            i <= requests@.len(),
            all == requests.deep_view(),
            out.deep_view() == exported_names(all.take(i as int)),
        decreases requests@.len() - i,
    {
        let ghost before = out.deep_view();
        proof {
            assert(all.take(i + 1).drop_last() =~= all.take(i as int));
            assert(all.take(i + 1).last() == requests@[i as int].deep_view());
        }
        if let Some(name) = &requests[i].environmentvariable {
            out.push(name.as_str());
            assert(out.deep_view() =~= before.push(name@));
        }
        i += 1;
    }
    assert(all.take(i as int) =~= all);
    out
}

/// The bytes of the values of variables.
pub open spec fn value_lengths(variables: Map<Seq<char>, Seq<char>>) -> Map<Seq<char>, usize> {
    variables.map_values(|value: Seq<char>| encode_utf8(value).len() as usize)
}

spec fn entry_lengths(entries: Seq<(Seq<char>, Seq<char>)>) -> Seq<(Seq<char>, usize)> {
    Seq::new(
        entries.len(),
        |i: int| (entries[i].0, encode_utf8(entries[i].1).len() as usize),
    )
}

proof fn lemma_entry_lengths(entries: Seq<(Seq<char>, Seq<char>)>)
    requires
        ascending(entries),
    ensures
        with_values(Map::empty(), entry_lengths(entries)) == value_lengths(mapping(entries)),
    decreases entries.len(),
{
    let listed = with_values(Map::empty(), entry_lengths(entries));
    let mapped = value_lengths(mapping(entries));
    if entries.len() > 0 {
        let front = entries.drop_last();
        let last = entries.len() - 1;
        lemma_entry_lengths(front);
        assert(entry_lengths(entries).drop_last() =~= entry_lengths(front));
        lemma_place(entries, last);
        assert forall|name: Seq<char>| names(front, name) implies names(entries, name)
            && mapping(entries)[name] == mapping(front)[name] && name != entries[last].0 by {
            let i = place(front, name);
            lemma_place(front, i);
            lemma_place(entries, i);
            lemma_precedes_self(name);
            assert(entries[i].0 == name);
        }
        assert forall|name: Seq<char>| names(entries, name) implies names(front, name) || name
            == entries[last].0 by {
            let i = place(entries, name);
            if i < last {
                assert(front[i].0 == name);
            }
        }
        assert(listed =~= mapped);
    } else {
        assert(listed =~= mapped);
    }
}

fn listed_lengths(variables: &NameMap<String>) -> (out: Vec<(&str, usize)>)
    ensures
        out.deep_view() == entry_lengths(variables.entries.deep_view()),
{
    let ghost all = variables.entries.deep_view();
    let mut out: Vec<(&str, usize)> = Vec::new();
    let mut i: usize = 0;
    while i < variables.entries.len()
        invariant
            i <= variables.entries@.len(),
            all == variables.entries.deep_view(),
            out.deep_view() == entry_lengths(all.take(i as int)),
        decreases variables.entries@.len() - i,
    {
        let ghost before = out.deep_view();
        let entry = &variables.entries[i];
        out.push((entry.0.as_str(), entry.1.as_str().as_bytes().len()));
        assert(out.deep_view() =~= before.push(
            (all[i as int].0, encode_utf8(all[i as int].1).len() as usize),
        ));
        assert(out.deep_view() =~= entry_lengths(all.take(i + 1)));
        i += 1;
    }
    assert(all.take(i as int) =~= all);
    out
}

/// Whether `r` is the environment of a session that may have a POSIX shell.
/// What the payload exports, forwarding and the color hint own their names,
/// and they alone may be too many. Explicit variables win over an inherited
/// locale.
pub open spec fn posix_exports<M: Fn(&InitialPayload) -> usize>(
    payload: PayloadModel,
    set_env: Seq<(Seq<char>, Seq<char>)>,
    variables: Seq<(Seq<char>, Seq<char>)>,
    colorterm: Option<Seq<char>>,
    limits: PacketLimits,
    jump: bool,
    measure: M,
    r: Result<Vec<(String, String)>, ClientError>,
) -> bool {
    exists|reserved: NameMap<usize>, locale: Seq<(Seq<char>, Seq<char>)>|
        {
            &&& #[trigger] reserves(
                reserved,
                reserved_beside(
                    value_lengths(payload.environmentvariables),
                    colorterm,
                    exported_names(payload.reversetunnels),
                ),
            )
            &&& #[trigger] in_locale_order(locale)
            &&& locale.to_multiset() == locale_of(variables).to_multiset()
            &&& if reserved.entries@.len() > MAX_ENVIRONMENT {
                r == Err::<Vec<(String, String)>, ClientError>(
                    ClientError::ForwardConfig(
                        ForwardConfigError::TooManyEnvironmentNames(
                            reserved.entries@.len() as usize,
                        ),
                    ),
                )
            } else {
                budgeted(
                    payload,
                    posix_candidates(set_env, locale),
                    reserved,
                    colorterm,
                    limits,
                    jump,
                    measure,
                    r,
                )
            }
        }
}

/// The environment of a session that may have a POSIX shell, beside what its
/// payload exports itself.
pub fn posix_session_environment<M: Fn(&InitialPayload) -> usize>(
    payload: &InitialPayload,
    set_env: &Vec<(String, String)>,
    variables: &Vec<(String, String)>,
    colorterm: Option<&str>,
    limits: PacketLimits,
    jump: bool,
    measure: &M,
) -> (r: Result<Vec<(String, String)>, ClientError>)
    requires
        payload.well_formed(),
        limits.packet < usize::MAX,
        forall|p: &InitialPayload| p.well_formed() ==> #[trigger] call_requires(*measure, (p,)),
    ensures
        posix_exports(
            payload.deep_view(),
            set_env.deep_view(),
            variables.deep_view(),
            colorterm.deep_view(),
            limits,
            jump,
            *measure,
            r,
        ),
{
    let names = exported(&payload.reversetunnels);
    let lengths = listed_lengths(&payload.environmentvariables);
    let known = lengths.as_slice();
    let listed = names.as_slice();
    assert(known.deep_view() =~= lengths.deep_view());
    assert(listed.deep_view() =~= names.deep_view());
    proof {
        lemma_entry_lengths(payload.environmentvariables.entries.deep_view());
    }
    let reserved = reserved_environment_value_lengths(known, colorterm, listed);
    assert(reserves(
        reserved,
        reserved_beside(
            value_lengths(payload.deep_view().environmentvariables),
            colorterm.deep_view(),
            exported_names(payload.deep_view().reversetunnels),
        ),
    ));
    let locale = ssh_locale_environment(variables);
    let ghost sorted = locale.deep_view();
    assert(in_locale_order(sorted));
    if reserved.len() > MAX_ENVIRONMENT {
        return Err(
            ClientError::ForwardConfig(ForwardConfigError::TooManyEnvironmentNames(reserved.len())),
        );
    }
    let candidates = posix_environment(set_env, locale);
    budget(payload, &candidates, &reserved, colorterm, limits, jump, measure)
}

/// Whether `r` is the environment of a session without a POSIX shell: the
/// explicit variables alone.
pub open spec fn windows_exports<M: Fn(&InitialPayload) -> usize>(
    payload: PayloadModel,
    set_env: Seq<(Seq<char>, Seq<char>)>,
    limits: PacketLimits,
    jump: bool,
    measure: M,
    r: Result<Vec<(String, String)>, ClientError>,
) -> bool {
    exists|reserved: NameMap<usize>|
        #[trigger] reserves(
            reserved,
            reserved_lengths(Seq::empty(), None, exported_names(payload.reversetunnels)),
        ) && budgeted(
            payload,
            windows_candidates(set_env, reserved.entries.deep_view()),
            reserved,
            None,
            limits,
            jump,
            measure,
            r,
        )
}

pub fn windows_session_environment<M: Fn(&InitialPayload) -> usize>(
    payload: &InitialPayload,
    set_env: &Vec<(String, String)>,
    limits: PacketLimits,
    jump: bool,
    measure: &M,
) -> (r: Result<Vec<(String, String)>, ClientError>)
    requires
        payload.well_formed(),
        limits.packet < usize::MAX,
        forall|p: &InitialPayload| p.well_formed() ==> #[trigger] call_requires(*measure, (p,)),
    ensures
        windows_exports(
            payload.deep_view(),
            set_env.deep_view(),
            limits,
            jump,
            *measure,
            r,
        ),
{
    let names = exported(&payload.reversetunnels);
    let known: Vec<(&str, usize)> = Vec::new();
    let known = known.as_slice();
    let listed = names.as_slice();
    assert(known.deep_view() =~= Seq::empty());
    assert(listed.deep_view() =~= names.deep_view());
    let reserved = reserved_environment_value_lengths(known, None, listed);
    assert(reserves(
        reserved,
        reserved_lengths(
            Seq::empty(),
            None,
            exported_names(payload.deep_view().reversetunnels),
        ),
    ));
    let candidates = windows_environment(set_env, &reserved);
    budget(payload, &candidates, &reserved, None, limits, jump, measure)
}

// What the session is set up with.

/// What is decided before anything runs on the remote.
#[derive(Debug)]
pub struct SessionSetup {
    /// The options with what the configuration adds.
    pub args: ClientArgs,
    pub forwarding: ForwardConfig,
    pub term: String,
    pub colorterm: Option<String>,
    pub environment: Vec<(String, String)>,
    /// The parts of the jumphost.
    pub jump: Option<ParsedHost>,
}

/// Whether these are the parts of a jumphost, where there is one.
pub open spec fn jump_parsed<P: Fn(&str) -> ParsedHost>(
    parse: P,
    jumphost: Option<Seq<char>>,
    jump: Option<ParsedHost>,
) -> bool {
    match (jumphost, jump) {
        (None, None) => true,
        (Some(jumphost), Some(parsed)) => parses(parse, jumphost, parsed),
        _ => false,
    }
}

/// The color hint of a session that may have a POSIX shell.
pub open spec fn session_hint(args: ArgsModel, around: Surroundings) -> Option<Seq<char>> {
    if args.remote_is_windows {
        None
    } else {
        color_hint(around.term.deep_view(), around.colorterm.deep_view())
    }
}

/// Whether `r` is what a session is set up with. What forbids it comes in
/// this order: the agent of the configuration, options that do not fit
/// together, forwarding, and the environment.
pub open spec fn set_up_as<P: Fn(&str) -> ParsedHost, M: Fn(&InitialPayload) -> usize>(
    args: ArgsModel,
    config: ConfigModel,
    around: Surroundings,
    parse: P,
    measure: M,
    r: Result<SessionSetup, ClientError>,
) -> bool {
    match effective_args(args, config) {
        Err(fault) => r == Err::<SessionSetup, ClientError>(fault),
        Ok(effective) => exists|jump: Option<ParsedHost>| #[trigger]
            jump_parsed(parse, effective.jumphost, jump) && match mode_fault(effective, jump) {
                Some(fault) => r == Err::<SessionSetup, ClientError>(fault),
                None => exists|forwarding: Result<ForwardConfig, ClientError>| #[trigger]
                    forwards(effective, config, around.agent.deep_view(), forwarding)
                        && match forwarding {
                        Err(error) => r == Err::<SessionSetup, ClientError>(error),
                        Ok(forwarding) => exists|
                            environment: Result<Vec<(String, String)>, ClientError>,
                        | #[trigger]
                            posix_exports(
                                forwarding.initial_payload.deep_view(),
                                config.set_env,
                                around.variables.deep_view(),
                                session_hint(effective, around),
                                around.limits,
                                effective.jumphost is Some,
                                measure,
                                environment,
                            ) && match environment {
                                Err(error) => r == Err::<SessionSetup, ClientError>(error),
                                Ok(environment) => {
                                    &&& r matches Ok(setup)
                                    &&& setup.args.deep_view() == effective
                                    &&& setup.forwarding == forwarding
                                    &&& setup.term@ == terminal_type(around.term.deep_view())
                                    &&& setup.colorterm.deep_view() == session_hint(
                                        effective,
                                        around,
                                    )
                                    &&& setup.environment == environment
                                    &&& setup.jump == jump
                                },
                            },
                    },
            },
    }
}

/// Decides everything that can be decided before the remote is known.
pub fn set_up_session<P: Fn(&str) -> ParsedHost, M: Fn(&InitialPayload) -> usize>(
    args: &ClientArgs,
    resolved: &ResolvedSshConfig,
    around: &Surroundings,
    parse_host: &P,
    measure: &M,
) -> (r: Result<SessionSetup, ClientError>)
    requires
        around.limits.packet < usize::MAX,
        forall|s: &str| #[trigger] call_requires(*parse_host, (s,)),
        forall|p: &InitialPayload| p.well_formed() ==> #[trigger] call_requires(*measure, (p,)),
    ensures
        set_up_as(args.deep_view(), resolved.deep_view(), *around, *parse_host, *measure, r),
        r matches Ok(setup) ==> setup.forwarding.initial_payload.well_formed()
            && setup.forwarding.initial_payload.deep_view().environmentvariables
            == Map::<Seq<char>, Seq<char>>::empty() && (setup.args.jumphost is Some
            <==> setup.jump is Some) && mode_fault(setup.args.deep_view(), setup.jump) is None,
{
    let effective = match effective_ssh_args(args, resolved) {
        Ok(effective) => effective,
        Err(error) => {
            return Err(error);
        },
    };
    let jump: Option<ParsedHost> = match &effective.jumphost {
        Some(jumphost) => {
            let parsed = (*parse_host)(jumphost.as_str());
            assert(parses(*parse_host, jumphost@, parsed));
            Some(parsed)
        },
        None => None,
    };
    assert(jump_parsed(*parse_host, effective.deep_view().jumphost, jump));
    let mode = match &jump {
        Some(parsed) => validate_bootstrap_mode(&effective, Some(parsed)),
        None => validate_bootstrap_mode(&effective, None),
    };
    match mode {
        Ok(()) => {},
        Err(error) => {
            return Err(error);
        },
    }
    let planned = forwarding_for(&effective, resolved, text_of(&around.agent));
    let ghost outcome = planned;
    assert(forwards(
        effective.deep_view(),
        resolved.deep_view(),
        around.agent.deep_view(),
        outcome,
    ));
    let forwarding = match planned {
        Ok(forwarding) => forwarding,
        Err(error) => {
            return Err(error);
        },
    };
    let term = normalize_terminal_type(text_of(&around.term));
    let hint: Option<&str> = if effective.remote_is_windows {
        None
    } else {
        ghostty_colorterm(text_of(&around.term), text_of(&around.colorterm))
    };
    let exports = posix_session_environment(
        &forwarding.initial_payload,
        &resolved.set_env,
        &around.variables,
        hint,
        around.limits,
        effective.jumphost.is_some(),
        measure,
    );
    let ghost environment_outcome = exports;
    assert(posix_exports(
        forwarding.initial_payload.deep_view(),
        resolved.deep_view().set_env,
        around.variables.deep_view(),
        session_hint(effective.deep_view(), *around),
        around.limits,
        effective.deep_view().jumphost is Some,
        *measure,
        environment_outcome,
    ));
    match exports {
        Err(error) => Err(error),
        Ok(environment) => {
            let colorterm: Option<String> = match hint {
                Some(value) => Some(value.to_owned()),
                None => None,
            };
            Ok(SessionSetup { args: effective, forwarding, term, colorterm, environment, jump })
        },
    }
}

// The remote.

/// Whom `ssh` is to reach, and how.
#[derive(Debug)]
pub struct Target {
    pub host: String,
    pub user: Option<String>,
    pub ssh_config: Option<String>,
}

/// Whether a request asks for a destination's login shell.
pub open spec fn is_probe_request(
    request: BootstrapRequest,
    target: Target,
    args: ArgsModel,
    term: Seq<char>,
) -> bool {
    &&& request.user.deep_view() == target.user.deep_view()
    &&& request.host_alias@ == target.host@
    &&& request.jumphost.deep_view() == args.jumphost
    &&& request.terminal_path is None
    &&& request.server_fifo is None
    &&& !request.kill_other_sessions
    &&& request.verbose == args.verbose
    &&& request.ssh_options.deep_view() == args.ssh_option
    &&& request.ssh_config.deep_view() == target.ssh_config.deep_view()
    &&& request.term@ == term
    &&& request.remote_shell == RemoteShell::Posix
    &&& request.session_shell is None
}

/// Whether the runner answered a probe in this way.
pub open spec fn probed<R: SshRunner + ?Sized>(
    runner: &R,
    request: BootstrapRequest,
    deadline: Deadline,
    r: Result<RemoteShell, ClientError>,
) -> bool {
    exists|invocation: SshInvocation|
        call_ensures(build_shell_probe, (&request,), invocation) && #[trigger] call_ensures(
            run_shell_probe::<R>,
            (runner, &invocation, deadline),
            r,
        )
}

/// Whether `r` is the shell that was found. Nothing is asked where the
/// command line fixes it.
pub open spec fn detected<R: SshRunner + ?Sized>(
    runner: &R,
    target: Target,
    args: ArgsModel,
    term: Seq<char>,
    deadline: Deadline,
    r: Result<Option<RemoteShell>, ClientError>,
) -> bool {
    if shell_given(args) {
        r == Ok::<Option<RemoteShell>, ClientError>(None)
    } else {
        exists|request: BootstrapRequest, shell: Result<RemoteShell, ClientError>|
            #[trigger] is_probe_request(request, target, args, term) && #[trigger] probed(
                runner,
                request,
                deadline,
                shell,
            ) && r == match shell {
                Ok(shell) => Ok::<Option<RemoteShell>, ClientError>(Some(shell)),
                Err(error) => Err(error),
            }
    }
}

fn detect_shell<R: SshRunner + ?Sized>(
    runner: &R,
    target: &Target,
    setup: &SessionSetup,
    deadline: Deadline,
) -> (r: Result<Option<RemoteShell>, ClientError>)
    ensures
        detected(runner, *target, setup.args.deep_view(), setup.term@, deadline, r),
{
    if setup.args.remote_shell.is_some() || setup.args.winserver {
        return Ok(None);
    }
    let request = BootstrapRequest {
        user: copy_text(&target.user),
        host_alias: target.host.clone(),
        jumphost: copy_text(&setup.args.jumphost),
        terminal_path: None,
        server_fifo: None,
        kill_other_sessions: false,
        verbose: setup.args.verbose,
        ssh_options: copy_texts(&setup.args.ssh_option),
        ssh_config: copy_text(&target.ssh_config),
        term: setup.term.clone(),
        remote_shell: RemoteShell::Posix,
        session_shell: None,
    };
    assert(is_probe_request(request, *target, setup.args.deep_view(), setup.term@));
    let invocation = build_shell_probe(&request);
    assert(call_ensures(build_shell_probe, (&request,), invocation));
    let shell = run_shell_probe(runner, &invocation, deadline);
    assert(call_ensures(run_shell_probe::<R>, (runner, &invocation, deadline), shell));
    assert(probed(runner, request, deadline, shell));
    match shell {
        Ok(shell) => Ok(Some(shell)),
        Err(error) => Err(error),
    }
}

/// Whether a request starts the terminal of a session.
pub open spec fn is_terminal_request(
    request: BootstrapRequest,
    target: Target,
    args: ArgsModel,
    term: Seq<char>,
    shell: Option<RemoteShell>,
) -> bool {
    &&& request.user.deep_view() == target.user.deep_view()
    &&& request.host_alias@ == target.host@
    &&& request.jumphost.deep_view() == args.jumphost
    &&& request.terminal_path.deep_view() == remote_program(args, shell)
    &&& request.server_fifo.deep_view() == args.serverfifo
    &&& request.kill_other_sessions == args.kill_other_sessions
    &&& request.verbose == args.verbose
    &&& request.ssh_options.deep_view() == args.ssh_option
    &&& request.ssh_config.deep_view() == target.ssh_config.deep_view()
    &&& request.term@ == term
    &&& request.remote_shell == bootstrap_shell(args, shell)
    &&& request.session_shell.deep_view() == if terminal_shell(args, shell)
        == RemoteShellKind::Powershell {
        Some("powershell.exe"@)
    } else {
        None
    }
}

/// Whether the runner answered a bootstrap in this way.
pub open spec fn bootstrap_answered<R: SshRunner + ?Sized>(
    runner: &R,
    request: BootstrapRequest,
    provisional: Credentials,
    deadline: Deadline,
    r: Result<Credentials, ClientError>,
) -> bool {
    exists|invocation: SshInvocation|
        call_ensures(build_invocation, (&request, &provisional), invocation)
            && #[trigger] call_ensures(run_bootstrap::<R>, (runner, &invocation, deadline), r)
}

/// Whether `r` is how the terminal started. `cmd.exe` quotes nothing, so what
/// it would echo has to survive that.
pub open spec fn terminal_started<R: SshRunner + ?Sized>(
    runner: &R,
    target: Target,
    args: ArgsModel,
    term: Seq<char>,
    shell: Option<RemoteShell>,
    provisional: Credentials,
    deadline: Deadline,
    r: Result<Credentials, ClientError>,
) -> bool {
    if bootstrap_shell(args, shell) == RemoteShell::Cmd && !(survives_cmd(term) && survives_cmd(
        provisional.id@,
    ) && survives_cmd(provisional.passkey@)) {
        r == Err::<Credentials, ClientError>(
            ClientError::Unsupported("Windows bootstrap requires alphanumeric TERM and credentials"),
        )
    } else {
        exists|request: BootstrapRequest|
            #[trigger] is_terminal_request(request, target, args, term, shell)
                && bootstrap_answered(runner, request, provisional, deadline, r)
    }
}

fn start_terminal<R: SshRunner + ?Sized>(
    runner: &R,
    target: &Target,
    setup: &SessionSetup,
    mode: &RemoteMode,
    Ghost(shell): Ghost<Option<RemoteShell>>,
    provisional: &Credentials,
    deadline: Deadline,
) -> (r: Result<Credentials, ClientError>)
    requires
        mode.bootstrap_shell == bootstrap_shell(setup.args.deep_view(), shell),
        mode.terminal_shell == terminal_shell(setup.args.deep_view(), shell),
        mode.terminal_path.deep_view() == remote_program(setup.args.deep_view(), shell),
    ensures
        terminal_started(
            runner,
            *target,
            setup.args.deep_view(),
            setup.term@,
            shell,
            *provisional,
            deadline,
            r,
        ),
        r matches Ok(credentials) ==> credentials.valid(),
{
    let session_shell: Option<String> = if mode.terminal_shell == RemoteShellKind::Powershell {
        Some("powershell.exe".to_owned())
    } else {
        None
    };
    let request = BootstrapRequest {
        user: copy_text(&target.user),
        host_alias: target.host.clone(),
        jumphost: copy_text(&setup.args.jumphost),
        terminal_path: copy_text(&mode.terminal_path),
        server_fifo: copy_text(&setup.args.serverfifo),
        kill_other_sessions: setup.args.kill_other_sessions,
        verbose: setup.args.verbose,
        ssh_options: copy_texts(&setup.args.ssh_option),
        ssh_config: copy_text(&target.ssh_config),
        term: setup.term.clone(),
        remote_shell: mode.bootstrap_shell,
        session_shell,
    };
    assert(is_terminal_request(request, *target, setup.args.deep_view(), setup.term@, shell));
    if mode.bootstrap_shell == RemoteShell::Cmd && !(cmd_safe(request.term.as_str()) && cmd_safe(
        provisional.id.as_str(),
    ) && cmd_safe(provisional.passkey.as_str())) {
        return Err(
            ClientError::Unsupported("Windows bootstrap requires alphanumeric TERM and credentials"),
        );
    }
    let invocation = build_invocation(&request, provisional);
    assert(call_ensures(build_invocation, (&request, provisional), invocation));
    let r = run_bootstrap(runner, &invocation, deadline);
    assert(call_ensures(run_bootstrap::<R>, (runner, &invocation, deadline), r));
    assert(bootstrap_answered(runner, request, *provisional, deadline, r));
    r
}

/// The `ssh` port of a jumphost, where it names one.
pub open spec fn hop_port(parsed: ParsedHost) -> Option<u16> {
    if parsed.port_suffix@.len() > 0 && parsed.port_suffix@[0] == ':' {
        match parsed_number(parsed.port_suffix@.skip(1), 65535) {
            Some(port) => Some(port as u16),
            None => None,
        }
    } else {
        None
    }
}

/// Whether a query asks about a jumphost. It takes no options of the session
/// and imports none.
pub open spec fn is_hop_query(
    query: SshConfigQuery<'_>,
    parsed: ParsedHost,
    ssh_config: Option<Seq<char>>,
) -> bool {
    &&& query.host_alias@ == bare_host(parsed.host@)
    &&& query.requested_user.deep_view() == given_user(parsed.user@)
    &&& query.explicit_port == hop_port(parsed)
    &&& query.ssh_options@.len() == 0
    &&& query.ssh_config.deep_view() == ssh_config
    &&& !query.parse_local_forwards
}

/// Whether a request starts the relay on a jumphost.
pub open spec fn is_jump_request(
    request: JumpBootstrapRequest,
    args: ArgsModel,
    ssh_config: Option<Seq<char>>,
    term: Seq<char>,
    host: Seq<char>,
    port: u16,
) -> bool {
    &&& args.jumphost == Some(request.jumphost@)
    &&& request.destination_host@ == host
    &&& request.destination_port == port
    &&& request.jump_server_fifo.deep_view() == args.jserverfifo
    &&& request.terminal_path.deep_view() == args.terminal_path
    &&& request.kill_other_sessions == args.kill_other_sessions
    &&& request.verbose == args.verbose
    &&& request.ssh_options@.len() == 0
    &&& request.ssh_config.deep_view() == ssh_config
    &&& request.term@ == term
}

/// Whether the runner answered the bootstrap of a relay in this way.
pub open spec fn jump_answered<R: SshRunner + ?Sized>(
    runner: &R,
    request: JumpBootstrapRequest,
    parsed: ParsedHost,
    provisional: Credentials,
    deadline: Deadline,
    r: Result<Credentials, ClientError>,
) -> bool {
    exists|invocation: SshInvocation|
        call_ensures(build_jump_invocation, (&request, &parsed, &provisional), invocation)
            && #[trigger] call_ensures(run_bootstrap::<R>, (runner, &invocation, deadline), r)
}

/// Whether `r` is how the relay started: its credentials, and where it
/// listens.
pub open spec fn relay_started<R: SshRunner + ?Sized>(
    runner: &R,
    parsed: ParsedHost,
    args: ArgsModel,
    ssh_config: Option<Seq<char>>,
    term: Seq<char>,
    host: Seq<char>,
    port: u16,
    provisional: Credentials,
    deadline: Deadline,
    r: Result<(Credentials, Endpoint), ClientError>,
) -> bool {
    match destination_fault(bare_host(parsed.host@), given_user(parsed.user@)) {
        Some(fault) => r == Err::<(Credentials, Endpoint), ClientError>(fault),
        None => exists|query: SshConfigQuery<'_>, resolved: Result<ResolvedSshConfig, ClientError>|
            {
                &&& is_hop_query(query, parsed, ssh_config)
                &&& #[trigger] call_ensures(
                    resolve_ssh_config_on_port::<R>,
                    (runner, query, deadline),
                    resolved,
                )
                &&& match resolved {
                    Err(error) => r == Err::<(Credentials, Endpoint), ClientError>(error),
                    Ok(resolved) => exists|
                        request: JumpBootstrapRequest,
                        credentials: Result<Credentials, ClientError>,
                    |
                        {
                            &&& #[trigger] is_jump_request(
                                request,
                                args,
                                ssh_config,
                                term,
                                host,
                                port,
                            )
                            &&& #[trigger] jump_answered(
                                runner,
                                request,
                                parsed,
                                provisional,
                                deadline,
                                credentials,
                            )
                            &&& match (r, credentials) {
                                (Err(error), Err(cause)) => error == cause,
                                (Ok((held, endpoint)), Ok(given)) => held == given
                                    && endpoint.host@ == resolved.hostname@ && endpoint.port
                                    == args.jport,
                                _ => false,
                            }
                        },
                }
            },
    }
}

fn explicit_port(parsed: &ParsedHost) -> (port: Option<u16>)
    ensures
        port == hop_port(*parsed),
{
    match port_text(parsed) {
        Some(text) => {
            let chars = chars_of(text.as_str());
            match parse_number(chars.as_slice(), 65535) {
                Some(port) => Some(port as u16),
                None => None,
            }
        },
        None => None,
    }
}

fn start_relay<R: SshRunner + ?Sized>(
    runner: &R,
    jumphost: &String,
    parsed: &ParsedHost,
    setup: &SessionSetup,
    ssh_config: &Option<String>,
    host: &str,
    port: u16,
    provisional: &Credentials,
    deadline: Deadline,
) -> (r: Result<(Credentials, Endpoint), ClientError>)
    requires
        setup.args.deep_view().jumphost == Some(jumphost@),
    ensures
        relay_started(
            runner,
            *parsed,
            setup.args.deep_view(),
            ssh_config.deep_view(),
            setup.term@,
            host@,
            port,
            *provisional,
            deadline,
            r,
        ),
        r matches Ok((credentials, _)) ==> credentials.valid(),
{
    let jump_host = strip_brackets(parsed.host.as_str());
    let jump_user: Option<&str> = if parsed.user.as_str().is_empty() {
        None
    } else {
        Some(parsed.user.as_str())
    };
    match validate_ssh_destination(jump_host.as_str(), jump_user) {
        Ok(()) => {},
        Err(error) => {
            return Err(error);
        },
    }
    let no_options: Vec<String> = Vec::new();
    let query = SshConfigQuery {
        host_alias: jump_host.as_str(),
        requested_user: jump_user,
        explicit_port: explicit_port(parsed),
        ssh_options: no_options.as_slice(),
        ssh_config: text_of(ssh_config),
        parse_local_forwards: false,
        // An address is the same everywhere.
        windows: false,
    };
    assert(is_hop_query(query, *parsed, ssh_config.deep_view()));
    let answer = resolve_ssh_config_on_port(runner, query, deadline);
    let ghost outcome = answer;
    assert(call_ensures(resolve_ssh_config_on_port::<R>, (runner, query, deadline), outcome));
    let resolved = match answer {
        Ok(resolved) => resolved,
        Err(error) => {
            return Err(error);
        },
    };
    let request = JumpBootstrapRequest {
        jumphost: jumphost.clone(),
        destination_host: host.to_owned(),
        destination_port: port,
        jump_server_fifo: copy_text(&setup.args.jserverfifo),
        terminal_path: copy_text(&setup.args.terminal_path),
        kill_other_sessions: setup.args.kill_other_sessions,
        verbose: setup.args.verbose,
        ssh_options: Vec::new(),
        ssh_config: copy_text(ssh_config),
        term: setup.term.clone(),
    };
    assert(is_jump_request(
        request,
        setup.args.deep_view(),
        ssh_config.deep_view(),
        setup.term@,
        host@,
        port,
    ));
    let invocation = build_jump_invocation(&request, parsed, provisional);
    assert(call_ensures(build_jump_invocation, (&request, parsed, provisional), invocation));
    let started = run_bootstrap(runner, &invocation, deadline);
    let ghost given = started;
    assert(call_ensures(run_bootstrap::<R>, (runner, &invocation, deadline), given));
    assert(jump_answered(runner, request, *parsed, *provisional, deadline, given));
    match started {
        Ok(credentials) => Ok(
            (credentials, Endpoint { host: resolved.hostname, port: setup.args.jport }),
        ),
        Err(error) => Err(error),
    }
}

/// Whether `r` is the environment of the session, once its shell is known.
/// A shell that is no POSIX shell gets neither the locale nor the hint.
pub open spec fn environment_settled<M: Fn(&InitialPayload) -> usize>(
    setup: SessionSetup,
    set_env: Seq<(Seq<char>, Seq<char>)>,
    shell: RemoteShellKind,
    limits: PacketLimits,
    measure: M,
    r: Result<Vec<(String, String)>, ClientError>,
) -> bool {
    if shell == RemoteShellKind::Posix {
        r matches Ok(list) && list.deep_view() == setup.environment.deep_view()
    } else {
        windows_exports(
            setup.forwarding.initial_payload.deep_view(),
            set_env,
            limits,
            setup.args.jumphost is Some,
            measure,
            r,
        )
    }
}

/// The payload that opens the session.
pub open spec fn opening_payload(
    payload: PayloadModel,
    jump: bool,
    environment: Seq<(Seq<char>, Seq<char>)>,
    colorterm: Option<Seq<char>>,
    shell: RemoteShellKind,
) -> PayloadModel {
    PayloadModel {
        jumphost: if jump {
            Some(true)
        } else {
            payload.jumphost
        },
        environmentvariables: colored(
            extended(payload.environmentvariables, environment),
            if shell == RemoteShellKind::Posix {
                colorterm
            } else {
                None
            },
        ),
        ..payload
    }
}

/// A session whose remote terminals run.
#[derive(Debug)]
pub struct Established {
    /// The options with what the configuration adds.
    pub args: ClientArgs,
    /// Where the session connects: the destination, or its jumphost.
    pub endpoint: Endpoint,
    pub credentials: Credentials,
    pub payload: InitialPayload,
    pub local_sources: Vec<ForwardSource>,
    pub shell: RemoteShellKind,
}

/// Whether a session was established with these.
pub open spec fn holds(
    session: Established,
    setup: SessionSetup,
    shell: Option<RemoteShell>,
    environment: Seq<(Seq<char>, Seq<char>)>,
    credentials: Credentials,
    host: Seq<char>,
    port: u16,
) -> bool {
    &&& session.args == setup.args
    &&& session.endpoint.host@ == host
    &&& session.endpoint.port == port
    &&& session.credentials == credentials
    &&& session.payload.deep_view() == opening_payload(
        setup.forwarding.initial_payload.deep_view(),
        setup.jump is Some,
        environment,
        setup.colorterm.deep_view(),
        terminal_shell(setup.args.deep_view(), shell),
    )
    &&& session.local_sources == setup.forwarding.local_sources
    &&& session.shell == terminal_shell(setup.args.deep_view(), shell)
}

/// Whether `r` is how the remote came up: the shell is found first, then the
/// terminal of the destination is started with provisional credentials, where
/// there are any, then the relay on the jumphost.
pub open spec fn brought_up<R: SshRunner + ?Sized, M: Fn(&InitialPayload) -> usize>(
    runner: &R,
    target: Target,
    setup: SessionSetup,
    config: ResolvedSshConfig,
    port: u16,
    limits: PacketLimits,
    measure: M,
    provisional: Result<Credentials, ClientError>,
    deadline: Deadline,
    r: Result<Established, ClientError>,
) -> bool {
    let args = setup.args.deep_view();
    let term = setup.term@;
    match destination_fault(target.host@, target.user.deep_view()) {
        Some(fault) => r == Err::<Established, ClientError>(fault),
        None => exists|shell: Result<Option<RemoteShell>, ClientError>| #[trigger]
            detected(runner, target, args, term, deadline, shell) && match shell {
                Err(error) => r == Err::<Established, ClientError>(error),
                Ok(shell) => exists|environment: Result<Vec<(String, String)>, ClientError>| #[trigger]
                    environment_settled(
                        setup,
                        config.set_env.deep_view(),
                        terminal_shell(args, shell),
                        limits,
                        measure,
                        environment,
                    ) && match environment {
                        Err(error) => r == Err::<Established, ClientError>(error),
                        Ok(environment) => match provisional {
                            Err(error) => r == Err::<Established, ClientError>(error),
                            Ok(provisional) => exists|first: Result<Credentials, ClientError>| #[trigger]
                            terminal_started(
                                runner,
                                target,
                                args,
                                term,
                                shell,
                                provisional,
                                deadline,
                                first,
                            ) && match first {
                                Err(error) => r == Err::<Established, ClientError>(error),
                                Ok(first) => match setup.jump {
                                    None => r matches Ok(session) && holds(
                                        session,
                                        setup,
                                        shell,
                                        environment.deep_view(),
                                        first,
                                        config.hostname@,
                                        port,
                                    ),
                                    Some(parsed) => exists|
                                        hop: Result<(Credentials, Endpoint), ClientError>,
                                    | #[trigger]
                                        relay_started(
                                            runner,
                                            parsed,
                                            args,
                                            target.ssh_config.deep_view(),
                                            term,
                                            config.hostname@,
                                            port,
                                            provisional,
                                            deadline,
                                            hop,
                                        ) && match hop {
                                            Err(error) => r == Err::<Established, ClientError>(
                                                error,
                                            ),
                                            Ok((credentials, endpoint)) => r matches Ok(session)
                                                && holds(
                                                session,
                                                setup,
                                                shell,
                                                environment.deep_view(),
                                                credentials,
                                                endpoint.host@,
                                                endpoint.port,
                                            ),
                                        },
                                },
                            },
                        },
                    },
            },
    }
}

fn bring_up<R: SshRunner + ?Sized, M: Fn(&InitialPayload) -> usize>(
    runner: &R,
    target: &Target,
    setup: SessionSetup,
    config: ResolvedSshConfig,
    port: u16,
    limits: PacketLimits,
    measure: &M,
    provisional: Result<Credentials, ClientError>,
    deadline: Deadline,
) -> (r: Result<Established, ClientError>)
    requires
        limits.packet < usize::MAX,
        setup.forwarding.initial_payload.well_formed(),
        setup.args.jumphost is Some <==> setup.jump is Some,
        forall|p: &InitialPayload| p.well_formed() ==> #[trigger] call_requires(*measure, (p,)),
    ensures
        brought_up(
            runner,
            *target,
            setup,
            config,
            port,
            limits,
            *measure,
            provisional,
            deadline,
            r,
        ),
        r matches Ok(session) ==> session.credentials.valid() && session.payload.well_formed(),
{
    match validate_ssh_destination(target.host.as_str(), text_of(&target.user)) {
        Ok(()) => {},
        Err(error) => {
            return Err(error);
        },
    }
    let ghost args = setup.args.deep_view();
    let found = detect_shell(runner, target, &setup, deadline);
    let ghost found_outcome = found;
    assert(detected(runner, *target, args, setup.term@, deadline, found_outcome));
    let shell = match found {
        Ok(shell) => shell,
        Err(error) => {
            return Err(error);
        },
    };
    let mode = resolve_remote_mode(&setup.args, shell);
    let settled: Result<Vec<(String, String)>, ClientError> = if mode.terminal_shell
        == RemoteShellKind::Posix {
        Ok(copy_pairs(&setup.environment))
    } else {
        windows_session_environment(
            &setup.forwarding.initial_payload,
            &config.set_env,
            limits,
            setup.args.jumphost.is_some(),
            measure,
        )
    };
    let ghost settled_outcome = settled;
    assert(environment_settled(
        setup,
        config.set_env.deep_view(),
        terminal_shell(args, shell),
        limits,
        *measure,
        settled_outcome,
    ));
    let environment = match settled {
        Ok(environment) => environment,
        Err(error) => {
            return Err(error);
        },
    };
    let provisional = match provisional {
        Ok(provisional) => provisional,
        Err(error) => {
            return Err(error);
        },
    };
    let started = start_terminal(
        runner,
        target,
        &setup,
        &mode,
        Ghost(shell),
        &provisional,
        deadline,
    );
    let ghost started_outcome = started;
    assert(terminal_started(
        runner,
        *target,
        args,
        setup.term@,
        shell,
        provisional,
        deadline,
        started_outcome,
    ));
    let first = match started {
        Ok(credentials) => credentials,
        Err(error) => {
            return Err(error);
        },
    };
    let hint: Option<&str> = if mode.terminal_shell == RemoteShellKind::Posix {
        text_of(&setup.colorterm)
    } else {
        None
    };
    let mut payload = setup.forwarding.initial_payload.clone();
    extend_environment(&mut payload.environmentvariables, &environment, hint);
    match (&setup.args.jumphost, &setup.jump) {
        (Some(jumphost), Some(parsed)) => {
            payload.jumphost = Some(true);
            let hop = start_relay(
                runner,
                jumphost,
                parsed,
                &setup,
                &target.ssh_config,
                config.hostname.as_str(),
                port,
                &provisional,
                deadline,
            );
            let ghost hop_outcome = hop;
            assert(relay_started(
                runner,
                *parsed,
                args,
                target.ssh_config.deep_view(),
                setup.term@,
                config.hostname@,
                port,
                provisional,
                deadline,
                hop_outcome,
            ));
            match hop {
                Err(error) => Err(error),
                Ok((credentials, endpoint)) => Ok(
                    Established {
                        args: setup.args,
                        endpoint,
                        credentials,
                        payload,
                        local_sources: setup.forwarding.local_sources,
                        shell: mode.terminal_shell,
                    },
                ),
            }
        },
        _ => Ok(
            Established {
                args: setup.args,
                endpoint: Endpoint { host: config.hostname, port },
                credentials: first,
                payload,
                local_sources: setup.forwarding.local_sources,
                shell: mode.terminal_shell,
            },
        ),
    }
}

/// Whether these are the host, the user and the configuration of a target.
pub open spec fn is_target(
    target: Target,
    host: Seq<char>,
    user: Option<Seq<char>>,
    ssh_config: Option<Seq<char>>,
) -> bool {
    target.host@ == host && target.user.deep_view() == user && target.ssh_config.deep_view()
        == ssh_config
}

/// Whether a query asks about the destination of a session. The port of a
/// destination is the session's, not the one of `ssh`.
pub open spec fn is_session_query(
    query: SshConfigQuery<'_>,
    host: Seq<char>,
    plan: QueryPlan,
    windows: bool,
) -> bool {
    &&& query.host_alias@ == host
    &&& query.requested_user.deep_view() == plan.requested_user.deep_view()
    &&& query.explicit_port is None
    &&& query.ssh_options@ == plan.options@
    &&& query.ssh_config.deep_view() == plan.ssh_config.deep_view()
    &&& query.parse_local_forwards
    &&& query.windows == windows
}

/// Whether `r` is how a session was established. Every step gets what the
/// one before gave, and the first that fails decides.
pub open spec fn establishes<
    R: SshRunner + ?Sized,
    P: Fn(&str) -> ParsedHost,
    M: Fn(&InitialPayload) -> usize,
>(
    args: ArgsModel,
    destination: Destination,
    around: Surroundings,
    runner: &R,
    parse: P,
    measure: M,
    provisional: Result<Credentials, ClientError>,
    deadline: Deadline,
    r: Result<Established, ClientError>,
) -> bool {
    exists|plan: Result<QueryPlan, ClientError>| #[trigger]
        planned(
            args,
            destination.host@,
            destination.user.deep_view(),
            around.config_file,
            parse,
            plan,
        ) && match plan {
            Err(error) => r == Err::<Established, ClientError>(error),
            Ok(plan) => exists|
                query: SshConfigQuery<'_>,
                resolved: Result<ResolvedSshConfig, ClientError>,
            |
                {
                    &&& is_session_query(query, destination.host@, plan, around.windows)
                    &&& #[trigger] call_ensures(
                        resolve_ssh_config_on_port::<R>,
                        (runner, query, deadline),
                        resolved,
                    )
                    &&& match resolved {
                        Err(error) => r == Err::<Established, ClientError>(error),
                        Ok(config) => exists|setup: Result<SessionSetup, ClientError>| #[trigger]
                            set_up_as(args, config.deep_view(), around, parse, measure, setup)
                                && match setup {
                                Err(error) => r == Err::<Established, ClientError>(error),
                                Ok(setup) => exists|target: Target|
                                    #[trigger] is_target(
                                        target,
                                        destination.host@,
                                        or_else(
                                            plan.requested_user.deep_view(),
                                            config.user.deep_view(),
                                        ),
                                        plan.ssh_config.deep_view(),
                                    ) && brought_up(
                                        runner,
                                        target,
                                        setup,
                                        config,
                                        destination.port,
                                        around.limits,
                                        measure,
                                        provisional,
                                        deadline,
                                        r,
                                    ),
                            },
                    }
                },
        }
}

/// Brings a session up as far as `ssh` takes it: the remote terminals run,
/// and it is known where to connect, with which credentials, and what to
/// send. `parse_host` gives the parts of a jumphost, `measure` the length of
/// the packet that holds a payload, and `provisional` credentials or why there
/// are none.
pub fn establish<
    R: SshRunner + ?Sized,
    P: Fn(&str) -> ParsedHost,
    M: Fn(&InitialPayload) -> usize,
>(
    args: &ClientArgs,
    destination: &Destination,
    around: &Surroundings,
    runner: &R,
    parse_host: &P,
    measure: &M,
    provisional: Result<Credentials, ClientError>,
    deadline: Deadline,
) -> (r: Result<Established, ClientError>)
    requires
        around.limits.packet < usize::MAX,
        forall|s: &str| #[trigger] call_requires(*parse_host, (s,)),
        forall|p: &InitialPayload| p.well_formed() ==> #[trigger] call_requires(*measure, (p,)),
    ensures
        establishes(
            args.deep_view(),
            *destination,
            *around,
            runner,
            *parse_host,
            *measure,
            provisional,
            deadline,
            r,
        ),
        r matches Ok(session) ==> session.credentials.valid() && session.payload.well_formed(),
{
    let plan_result = plan_query(args, destination, around.config_file, parse_host);
    let ghost plan_outcome = plan_result;
    assert(planned(
        args.deep_view(),
        destination.host@,
        destination.user.deep_view(),
        around.config_file,
        *parse_host,
        plan_outcome,
    ));
    let plan = match plan_result {
        Ok(plan) => plan,
        Err(error) => {
            return Err(error);
        },
    };
    let query = SshConfigQuery {
        host_alias: destination.host.as_str(),
        requested_user: text_of(&plan.requested_user),
        explicit_port: None,
        ssh_options: plan.options.as_slice(),
        ssh_config: text_of(&plan.ssh_config),
        parse_local_forwards: true,
        windows: around.windows,
    };
    assert(is_session_query(query, destination.host@, plan, around.windows));
    let answer = resolve_ssh_config_on_port(runner, query, deadline);
    let ghost answer_outcome = answer;
    assert(call_ensures(
        resolve_ssh_config_on_port::<R>,
        (runner, query, deadline),
        answer_outcome,
    ));
    let config = match answer {
        Ok(config) => config,
        Err(error) => {
            return Err(error);
        },
    };
    let setup_result = set_up_session(args, &config, around, parse_host, measure);
    let ghost setup_outcome = setup_result;
    assert(set_up_as(
        args.deep_view(),
        config.deep_view(),
        *around,
        *parse_host,
        *measure,
        setup_outcome,
    ));
    let setup = match setup_result {
        Ok(setup) => setup,
        Err(error) => {
            return Err(error);
        },
    };
    let user = match &plan.requested_user {
        Some(user) => Some(user.clone()),
        None => copy_text(&config.user),
    };
    let target = Target {
        host: destination.host.clone(),
        user,
        ssh_config: copy_text(&plan.ssh_config),
    };
    assert(is_target(
        target,
        destination.host@,
        or_else(plan.requested_user.deep_view(), config.user.deep_view()),
        plan.ssh_config.deep_view(),
    ));
    bring_up(
        runner,
        &target,
        setup,
        config,
        destination.port,
        around.limits,
        measure,
        provisional,
        deadline,
    )
}

// What follows.

/// Whether anything is left to do on an open session: without a terminal
/// only forwarding keeps it.
pub fn needs_loop(session: &Established) -> (r: bool)
    ensures
        r == (!session.args.no_terminal || session.local_sources@.len() > 0
            || session.payload.reversetunnels@.len() > 0),
{
    !session.args.no_terminal || session.local_sources.len() > 0
        || session.payload.reversetunnels.len() > 0
}

/// What a source of a forwarding row is called.
pub open spec fn source_label(source: Option<EndpointModel>) -> Seq<char> {
    match source {
        None => "<missing>"@,
        Some(source) => match (source.name, source.port) {
            (Some(name), Some(port)) => if name.len() > 0 {
                name + ":"@ + signed_decimal(port as int)
            } else {
                signed_decimal(port as int)
            },
            (None, Some(port)) => signed_decimal(port as int),
            (Some(name), None) => name,
            (None, None) => "<missing>"@,
        },
    }
}

fn label_of(source: &Option<SocketEndpoint>) -> (out: String)
    ensures
        out@ == source_label(source.deep_view()),
{
    match source {
        None => "<missing>".to_owned(),
        Some(source) => match (&source.name, source.port) {
            (Some(name), Some(port)) => {
                if is_empty_text(name.as_str()) {
                    signed_decimal_string(port)
                } else {
                    let mut out = joined(name.as_str(), ":");
                    out.append(signed_decimal_string(port).as_str());
                    out
                }
            },
            (None, Some(port)) => signed_decimal_string(port),
            (Some(name), None) => name.clone(),
            (None, None) => "<missing>".to_owned(),
        },
    }
}

/// What the log says about a row that could not be bound.
pub fn skipped_row_message(source: &Option<SocketEndpoint>, cause: &str) -> (out: String)
    ensures
        out@ == "SSH localforward source '"@ + source_label(source.deep_view())
            + "' could not bind: "@ + cause@ + "; skipping forwarding row"@,
{
    let mut out = joined("SSH localforward source '", label_of(source).as_str());
    out.append("' could not bind: ");
    out.append(cause);
    out.append("; skipping forwarding row");
    out
}

// What an established session is.

/// Whether `ssh -G` was asked about a host, and said this.
pub open spec fn looked_up<R: SshRunner + ?Sized>(
    runner: &R,
    deadline: Deadline,
    host: Seq<char>,
    session: bool,
    config: ResolvedSshConfig,
) -> bool {
    exists|query: SshConfigQuery<'_>|
        query.host_alias@ == host && query.parse_local_forwards == session
            && #[trigger] call_ensures(
            resolve_ssh_config_on_port::<R>,
            (runner, query, deadline),
            Ok::<ResolvedSshConfig, ClientError>(config),
        )
}

/// Whether `ssh` ran and gave these credentials. `operation` says what it ran
/// for.
pub open spec fn credentials_came<R: SshRunner + ?Sized>(
    runner: &R,
    deadline: Deadline,
    operation: &'static str,
    credentials: Credentials,
) -> bool {
    exists|invocation: SshInvocation|
        invocation.operation == operation && #[trigger] call_ensures(
            run_bootstrap::<R>,
            (runner, &invocation, deadline),
            Ok::<Credentials, ClientError>(credentials),
        )
}

/// Who logs in: the user in front of the host, or else the one of the option,
/// or else the configured one. An empty one in front of the host leaves it to
/// the configuration.
pub open spec fn login_of(
    positional: Option<Seq<char>>,
    option: Option<Seq<char>>,
    configured: Option<Seq<char>>,
) -> Option<Seq<char>> {
    match (positional, option) {
        (Some(user), _) => if user.len() > 0 {
            Some(user)
        } else {
            configured
        },
        (None, Some(user)) => Some(user),
        (None, None) => configured,
    }
}

/// Whether the terminal of a destination was started under these credentials,
/// for this user and as the options ask.
pub open spec fn terminal_ran<R: SshRunner + ?Sized>(
    runner: &R,
    deadline: Deadline,
    host: Seq<char>,
    user: Option<Seq<char>>,
    args: ArgsModel,
    provisional: Credentials,
) -> bool {
    exists|
        request: BootstrapRequest,
        invocation: SshInvocation,
        answer: Result<Credentials, ClientError>,
    |
        request.host_alias@ == host && request.user.deep_view() == user
            && request.jumphost.deep_view() == args.jumphost && request.server_fifo.deep_view()
            == args.serverfifo && request.kill_other_sessions == args.kill_other_sessions
            && request.verbose == args.verbose && request.ssh_options.deep_view() == args.ssh_option
            && (args.effective_terminal_path is Some ==> request.terminal_path.deep_view()
            == args.effective_terminal_path) && #[trigger] call_ensures(
            build_invocation,
            (&request, &provisional),
            invocation,
        ) && #[trigger] call_ensures(run_bootstrap::<R>, (runner, &invocation, deadline), answer)
            && answer is Ok
}

/// Whether a relay to a destination was started on a jumphost under these
/// credentials, as the options ask, and registered under others.
pub open spec fn relay_ran<R: SshRunner + ?Sized>(
    runner: &R,
    deadline: Deadline,
    args: ArgsModel,
    host: Seq<char>,
    port: u16,
    provisional: Credentials,
    credentials: Credentials,
) -> bool {
    exists|request: JumpBootstrapRequest, parsed: ParsedHost, invocation: SshInvocation|
        args.jumphost == Some(request.jumphost@) && request.destination_host@ == host
            && request.destination_port == port && request.jump_server_fifo.deep_view()
            == args.jserverfifo && request.terminal_path.deep_view() == args.terminal_path
            && request.kill_other_sessions == args.kill_other_sessions && request.verbose
            == args.verbose && #[trigger] call_ensures(
            build_jump_invocation,
            (&request, &parsed, &provisional),
            invocation,
        ) && call_ensures(
            run_bootstrap::<R>,
            (runner, &invocation, deadline),
            Ok::<Credentials, ClientError>(credentials),
        )
}

/// A session without a jumphost connects to the host that the configuration
/// of its destination names, at the port of the destination, with the
/// credentials that the terminal there registered under.
pub proof fn direct_sessions_connect_to_their_destination<
    R: SshRunner + ?Sized,
    P: Fn(&str) -> ParsedHost,
    M: Fn(&InitialPayload) -> usize,
>(
    args: &ClientArgs,
    destination: &Destination,
    around: &Surroundings,
    runner: &R,
    parse_host: &P,
    measure: &M,
    provisional: Result<Credentials, ClientError>,
    deadline: Deadline,
    session: Established,
)
    requires
        call_ensures(
            establish::<R, P, M>,
            (args, destination, around, runner, parse_host, measure, provisional, deadline),
            Ok::<Established, ClientError>(session),
        ),
        session.args.jumphost is None,
    ensures
        exists|config: ResolvedSshConfig| #[trigger]
            looked_up(runner, deadline, destination.host@, true, config)
                && session.endpoint.host@ == config.hostname@ && (provisional matches Ok(given)
                && terminal_ran(
                runner,
                deadline,
                destination.host@,
                login_of(
                    destination.user.deep_view(),
                    args.username.deep_view(),
                    config.user.deep_view(),
                ),
                session.args.deep_view(),
                given,
            )),
        session.endpoint.port == destination.port,
        credentials_came(
            runner,
            deadline,
            "starting the remote etterminal",
            session.credentials,
        ),
        session.payload.jumphost != Some(true),
{
    lemma_made_of(
        args.deep_view(),
        *destination,
        *around,
        runner,
        *parse_host,
        *measure,
        provisional,
        deadline,
        session,
    );
    let (config, target, setup) = choose|
        config: ResolvedSshConfig,
        target: Target,
        setup: SessionSetup,
    |
        made_of(
            args.deep_view(),
            *destination,
            *around,
            runner,
            *parse_host,
            *measure,
            provisional,
            deadline,
            session,
            config,
            target,
            setup,
        );
    lemma_set_up(args.deep_view(), config.deep_view(), *around, *parse_host, *measure, setup);
    assert(session.args == setup.args);
    assert(setup.jump is None);
    lemma_direct(
        runner,
        target,
        setup,
        config,
        destination.port,
        around.limits,
        *measure,
        provisional,
        deadline,
        session,
    );
}

/// A session with a jumphost connects to the jumphost: to the host that the
/// configuration of the jumphost's own name gives, at the jumphost's port,
/// and with the credentials that the relay there registered under. Whatever
/// the destination is called does not enter into it.
pub proof fn relayed_sessions_connect_to_their_jumphost<
    R: SshRunner + ?Sized,
    P: Fn(&str) -> ParsedHost,
    M: Fn(&InitialPayload) -> usize,
>(
    args: &ClientArgs,
    destination: &Destination,
    around: &Surroundings,
    runner: &R,
    parse_host: &P,
    measure: &M,
    provisional: Result<Credentials, ClientError>,
    deadline: Deadline,
    session: Established,
)
    requires
        call_ensures(
            establish::<R, P, M>,
            (args, destination, around, runner, parse_host, measure, provisional, deadline),
            Ok::<Established, ClientError>(session),
        ),
        session.args.jumphost is Some,
    ensures
        exists|parsed: ParsedHost, config: ResolvedSshConfig|
            #[trigger] parses(*parse_host, session.args.jumphost->0@, parsed)
                && #[trigger] looked_up(
                runner,
                deadline,
                bare_host(parsed.host@),
                false,
                config,
            ) && session.endpoint.host@ == config.hostname@,
        session.endpoint.port == session.args.jport,
        credentials_came(
            runner,
            deadline,
            "starting the jumphost etterminal",
            session.credentials,
        ),
        session.payload.jumphost == Some(true),
        exists|config: ResolvedSshConfig| #[trigger]
            looked_up(runner, deadline, destination.host@, true, config) && (
            provisional matches Ok(given) && terminal_ran(
                runner,
                deadline,
                destination.host@,
                login_of(
                    destination.user.deep_view(),
                    args.username.deep_view(),
                    config.user.deep_view(),
                ),
                session.args.deep_view(),
                given,
            ) && relay_ran(
                runner,
                deadline,
                session.args.deep_view(),
                config.hostname@,
                destination.port,
                given,
                session.credentials,
            )),
{
    lemma_made_of(
        args.deep_view(),
        *destination,
        *around,
        runner,
        *parse_host,
        *measure,
        provisional,
        deadline,
        session,
    );
    let (config, target, setup) = choose|
        config: ResolvedSshConfig,
        target: Target,
        setup: SessionSetup,
    |
        made_of(
            args.deep_view(),
            *destination,
            *around,
            runner,
            *parse_host,
            *measure,
            provisional,
            deadline,
            session,
            config,
            target,
            setup,
        );
    lemma_set_up(args.deep_view(), config.deep_view(), *around, *parse_host, *measure, setup);
    assert(session.args == setup.args);
    assert(setup.jump is Some);
    let parsed = setup.jump->0;
    assert(parses(*parse_host, session.args.jumphost->0@, parsed));
    lemma_relayed(
        runner,
        target,
        setup,
        config,
        destination.port,
        around.limits,
        *measure,
        provisional,
        deadline,
        session,
        parsed,
    );
}

/// A session forwards what was asked for: every tunnel of the command line and
/// every forwarding of the configuration from here, and every reverse tunnel
/// from there. Its options are those of the command line, completed by the
/// configuration.
pub proof fn sessions_forward_what_was_asked<
    R: SshRunner + ?Sized,
    P: Fn(&str) -> ParsedHost,
    M: Fn(&InitialPayload) -> usize,
>(
    args: &ClientArgs,
    destination: &Destination,
    around: &Surroundings,
    runner: &R,
    parse_host: &P,
    measure: &M,
    provisional: Result<Credentials, ClientError>,
    deadline: Deadline,
    session: Established,
    i: int,
)
    requires
        call_ensures(
            establish::<R, P, M>,
            (args, destination, around, runner, parse_host, measure, provisional, deadline),
            Ok::<Established, ClientError>(session),
        ),
    ensures
        0 <= i < args.tunnel@.len() ==> requested(
            session.local_sources.deep_view(),
            args.tunnel@[i].deep_view(),
        ),
        exists|config: ResolvedSshConfig| #[trigger]
            looked_up(runner, deadline, destination.host@, true, config) && (0 <= i
                < config.local_forwards@.len() ==> requested(
                session.local_sources.deep_view(),
                config.local_forwards@[i].deep_view(),
            )) && (args.jumphost is None ==> session.args.jumphost.deep_view()
                == config.proxy_jump.deep_view()),
        args.jumphost is Some ==> session.args.jumphost.deep_view() == args.jumphost.deep_view(),
        0 <= i < args.reverse_tunnel@.len() ==> session.payload.deep_view().reversetunnels.contains(
            args.reverse_tunnel@[i].deep_view(),
        ),
        session.args.verbose == args.verbose && session.args.keepalive == args.keepalive
            && session.args.command.deep_view() == args.command.deep_view()
            && session.args.no_terminal == args.no_terminal && session.args.jport == args.jport,
{
    lemma_assembled(
        args.deep_view(),
        *destination,
        *around,
        runner,
        *parse_host,
        *measure,
        provisional,
        deadline,
        session,
    );
    let (config, forwarding) = choose|config: ResolvedSshConfig, forwarding: ForwardConfig|
        assembled(
            args.deep_view(),
            runner,
            deadline,
            destination.host@,
            around.agent.deep_view(),
            session,
            config,
            forwarding,
        );
    reveal(assembled);
    lemma_forwarded(
        session.args.deep_view(),
        config.deep_view(),
        around.agent.deep_view(),
        forwarding,
        i,
    );
    assert(looked_up(runner, deadline, destination.host@, true, config));
    assert(config.deep_view().local_forwards.len() == config.local_forwards@.len());
    assert(args.deep_view().tunnel.len() == args.tunnel@.len());
    assert(args.deep_view().reverse_tunnel.len() == args.reverse_tunnel@.len());
}

/// What of a session is decided by its options and its configuration.
#[verifier::opaque]
spec fn assembled<R: SshRunner + ?Sized>(
    args: ArgsModel,
    runner: &R,
    deadline: Deadline,
    host: Seq<char>,
    agent: Option<Seq<char>>,
    session: Established,
    config: ResolvedSshConfig,
    forwarding: ForwardConfig,
) -> bool {
    &&& looked_up(runner, deadline, host, true, config)
    &&& effective_args(args, config.deep_view()) == Ok::<ArgsModel, ClientError>(
        session.args.deep_view(),
    )
    &&& forwards(
        session.args.deep_view(),
        config.deep_view(),
        agent,
        Ok::<ForwardConfig, ClientError>(forwarding),
    )
    &&& session.local_sources == forwarding.local_sources
    &&& session.payload.deep_view().reversetunnels
        == forwarding.initial_payload.deep_view().reversetunnels
}

proof fn lemma_assembled<
    R: SshRunner + ?Sized,
    P: Fn(&str) -> ParsedHost,
    M: Fn(&InitialPayload) -> usize,
>(
    args: ArgsModel,
    destination: Destination,
    around: Surroundings,
    runner: &R,
    parse: P,
    measure: M,
    provisional: Result<Credentials, ClientError>,
    deadline: Deadline,
    session: Established,
)
    requires
        establishes(
            args,
            destination,
            around,
            runner,
            parse,
            measure,
            provisional,
            deadline,
            Ok::<Established, ClientError>(session),
        ),
    ensures
        exists|config: ResolvedSshConfig, forwarding: ForwardConfig|
            assembled(
                args,
                runner,
                deadline,
                destination.host@,
                around.agent.deep_view(),
                session,
                config,
                forwarding,
            ),
{
    lemma_made_of(
        args,
        destination,
        around,
        runner,
        parse,
        measure,
        provisional,
        deadline,
        session,
    );
    let (config, target, setup) = choose|
        config: ResolvedSshConfig,
        target: Target,
        setup: SessionSetup,
    |
        made_of(
            args,
            destination,
            around,
            runner,
            parse,
            measure,
            provisional,
            deadline,
            session,
            config,
            target,
            setup,
        );
    lemma_set_up(args, config.deep_view(), around, parse, measure, setup);
    lemma_brought_up(
        runner,
        target,
        setup,
        config,
        destination.port,
        around.limits,
        measure,
        provisional,
        deadline,
        session,
    );
    reveal(assembled);
    assert(assembled(
        args,
        runner,
        deadline,
        destination.host@,
        around.agent.deep_view(),
        session,
        config,
        setup.forwarding,
    ));
}

proof fn lemma_forwarded(
    args: ArgsModel,
    config: ConfigModel,
    agent: Option<Seq<char>>,
    forwarding: ForwardConfig,
    i: int,
)
    requires
        forwards(args, config, agent, Ok::<ForwardConfig, ClientError>(forwarding)),
    ensures
        0 <= i < args.tunnel.len() ==> requested(
            forwarding.local_sources.deep_view(),
            args.tunnel[i],
        ),
        0 <= i < config.local_forwards.len() ==> requested(
            forwarding.local_sources.deep_view(),
            config.local_forwards[i],
        ),
        0 <= i < args.reverse_tunnel.len()
            ==> forwarding.initial_payload.deep_view().reversetunnels.contains(
            args.reverse_tunnel[i],
        ),
{
    let own = explicit_sources(args.tunnel);
    let all = own + config_sources(config.local_forwards, config.exit_on_forward_failure);
    forwarding_rows_are_deduplicated(all);
    if 0 <= i < args.tunnel.len() {
        assert(all[i].0 == args.tunnel[i]);
        assert(requested(all, args.tunnel[i]));
    }
    if 0 <= i < config.local_forwards.len() {
        assert(all[own.len() + i].0 == config.local_forwards[i]);
        assert(requested(all, config.local_forwards[i]));
    }
    if 0 <= i < args.reverse_tunnel.len() {
        let requests = reverse_requests(args, agent)->0;
        assert(requests[i] == args.reverse_tunnel[i]);
        lemma_reverse_tunnels_stay(requests, i);
    }
}

proof fn lemma_reverse_tunnels_stay(requests: Seq<RequestModel>, i: int)
    requires
        0 <= i < requests.len(),
    ensures
        unique_reverse(requests).contains(requests[i]),
    decreases requests.len(),
{
    let before = requests.drop_last();
    let kept = unique_reverse(before);
    let last = requests.last();
    if i < before.len() {
        lemma_reverse_tunnels_stay(before, i);
        assert(before[i] == requests[i]);
        let k = choose|k: int| 0 <= k < kept.len() && kept[k] == requests[i];
        assert(kept.push(last)[k] == requests[i]);
    } else {
        assert(kept.push(last)[kept.len() as int] == last);
    }
}

proof fn lemma_brought_up<R: SshRunner + ?Sized, M: Fn(&InitialPayload) -> usize>(
    runner: &R,
    target: Target,
    setup: SessionSetup,
    config: ResolvedSshConfig,
    port: u16,
    limits: PacketLimits,
    measure: M,
    provisional: Result<Credentials, ClientError>,
    deadline: Deadline,
    session: Established,
)
    requires
        brought_up(
            runner,
            target,
            setup,
            config,
            port,
            limits,
            measure,
            provisional,
            deadline,
            Ok::<Established, ClientError>(session),
        ),
    ensures
        session.args == setup.args,
        session.local_sources == setup.forwarding.local_sources,
        session.payload.deep_view().reversetunnels
            == setup.forwarding.initial_payload.deep_view().reversetunnels,
{
}

/// A destination is looked up as it is reached: by the user that was asked
/// for, through the jumphost that was named, and with the options of the
/// command line behind that, in their order.
pub proof fn lookups_go_through_the_jumphost<P: Fn(&str) -> ParsedHost>(
    args: &ClientArgs,
    destination: &Destination,
    config_file: Option<ConfigFileState>,
    parse_host: &P,
    plan: QueryPlan,
)
    requires
        call_ensures(
            plan_query::<P>,
            (args, destination, config_file, parse_host),
            Ok::<QueryPlan, ClientError>(plan),
        ),
    ensures
        args.jumphost is None ==> plan.options.deep_view() == args.ssh_option.deep_view(),
        args.jumphost is Some ==> plan.options@.len() == args.ssh_option@.len() + 1
            && plan.options@[0]@ == "ProxyJump="@ + args.jumphost->0@
            && plan.options.deep_view().skip(1) == args.ssh_option.deep_view(),
        plan.requested_user.deep_view() == login_of(
            destination.user.deep_view(),
            args.username.deep_view(),
            None,
        ),
        args.no_ssh_config ==> plan.ssh_config.deep_view() == Some("none"@),
        !args.no_ssh_config && args.ssh_config is None ==> plan.ssh_config is None,
        !args.no_ssh_config && args.ssh_config is Some ==> plan.ssh_config.deep_view()
            == args.ssh_config.deep_view(),
{
    if args.jumphost is Some {
        assert(plan.options.deep_view().len() == plan.options@.len());
        assert(args.ssh_option.deep_view().len() == args.ssh_option@.len());
        assert(plan.options.deep_view()[0] == plan.options@[0]@);
        assert(plan.options.deep_view().skip(1) =~= args.ssh_option.deep_view());
    }
}

/// A session has something to carry where it has a terminal or forwards
/// anything, and only then.
pub proof fn sessions_with_work_are_pumped(session: &Established, r: bool)
    requires
        call_ensures(needs_loop, (session,), r),
    ensures
        !session.args.no_terminal ==> r,
        session.local_sources@.len() > 0 || session.payload.reversetunnels@.len() > 0 ==> r,
        session.args.no_terminal && session.local_sources@.len() == 0
            && session.payload.reversetunnels@.len() == 0 ==> !r,
{
}

/// What an established session was made of.
spec fn made_of<
    R: SshRunner + ?Sized,
    P: Fn(&str) -> ParsedHost,
    M: Fn(&InitialPayload) -> usize,
>(
    args: ArgsModel,
    destination: Destination,
    around: Surroundings,
    runner: &R,
    parse: P,
    measure: M,
    provisional: Result<Credentials, ClientError>,
    deadline: Deadline,
    session: Established,
    config: ResolvedSshConfig,
    target: Target,
    setup: SessionSetup,
) -> bool {
    &&& looked_up(runner, deadline, destination.host@, true, config)
    &&& target.host@ == destination.host@
    &&& target.user.deep_view() == login_of(
        destination.user.deep_view(),
        args.username,
        config.user.deep_view(),
    )
    &&& set_up_as(args, config.deep_view(), around, parse, measure, Ok::<SessionSetup, ClientError>(setup))
    &&& brought_up(
        runner,
        target,
        setup,
        config,
        destination.port,
        around.limits,
        measure,
        provisional,
        deadline,
        Ok::<Established, ClientError>(session),
    )
}

proof fn lemma_made_of<
    R: SshRunner + ?Sized,
    P: Fn(&str) -> ParsedHost,
    M: Fn(&InitialPayload) -> usize,
>(
    args: ArgsModel,
    destination: Destination,
    around: Surroundings,
    runner: &R,
    parse: P,
    measure: M,
    provisional: Result<Credentials, ClientError>,
    deadline: Deadline,
    session: Established,
)
    requires
        establishes(
            args,
            destination,
            around,
            runner,
            parse,
            measure,
            provisional,
            deadline,
            Ok::<Established, ClientError>(session),
        ),
    ensures
        exists|config: ResolvedSshConfig, target: Target, setup: SessionSetup|
            made_of(
                args,
                destination,
                around,
                runner,
                parse,
                measure,
                provisional,
                deadline,
                session,
                config,
                target,
                setup,
            ),
{
    let r = Ok::<Established, ClientError>(session);
    assert(exists|config: ResolvedSshConfig, target: Target, setup: SessionSetup|
        #![trigger brought_up(
            runner,
            target,
            setup,
            config,
            destination.port,
            around.limits,
            measure,
            provisional,
            deadline,
            r,
        )]
        looked_up(runner, deadline, destination.host@, true, config) && target.host@
            == destination.host@ && target.user.deep_view() == login_of(
            destination.user.deep_view(),
            args.username,
            config.user.deep_view(),
        ) && set_up_as(
            args,
            config.deep_view(),
            around,
            parse,
            measure,
            Ok::<SessionSetup, ClientError>(setup),
        ) && brought_up(
            runner,
            target,
            setup,
            config,
            destination.port,
            around.limits,
            measure,
            provisional,
            deadline,
            r,
        ));
    let (config, target, setup) = choose|
        config: ResolvedSshConfig,
        target: Target,
        setup: SessionSetup,
    |
        #![trigger brought_up(
            runner,
            target,
            setup,
            config,
            destination.port,
            around.limits,
            measure,
            provisional,
            deadline,
            r,
        )]
        looked_up(runner, deadline, destination.host@, true, config) && target.host@
            == destination.host@ && target.user.deep_view() == login_of(
            destination.user.deep_view(),
            args.username,
            config.user.deep_view(),
        ) && set_up_as(
            args,
            config.deep_view(),
            around,
            parse,
            measure,
            Ok::<SessionSetup, ClientError>(setup),
        ) && brought_up(
            runner,
            target,
            setup,
            config,
            destination.port,
            around.limits,
            measure,
            provisional,
            deadline,
            r,
        );
    assert(made_of(
        args,
        destination,
        around,
        runner,
        parse,
        measure,
        provisional,
        deadline,
        session,
        config,
        target,
        setup,
    ));
}

proof fn lemma_set_up<P: Fn(&str) -> ParsedHost, M: Fn(&InitialPayload) -> usize>(
    args: ArgsModel,
    config: ConfigModel,
    around: Surroundings,
    parse: P,
    measure: M,
    setup: SessionSetup,
)
    requires
        set_up_as(args, config, around, parse, measure, Ok::<SessionSetup, ClientError>(setup)),
    ensures
        effective_args(args, config) == Ok::<ArgsModel, ClientError>(setup.args.deep_view()),
        jump_parsed(parse, setup.args.deep_view().jumphost, setup.jump),
        setup.forwarding.initial_payload.deep_view().jumphost == Some(false),
        forwards(
            setup.args.deep_view(),
            config,
            around.agent.deep_view(),
            Ok::<ForwardConfig, ClientError>(setup.forwarding),
        ),
{
}

proof fn lemma_direct<R: SshRunner + ?Sized, M: Fn(&InitialPayload) -> usize>(
    runner: &R,
    target: Target,
    setup: SessionSetup,
    config: ResolvedSshConfig,
    port: u16,
    limits: PacketLimits,
    measure: M,
    provisional: Result<Credentials, ClientError>,
    deadline: Deadline,
    session: Established,
)
    requires
        brought_up(
            runner,
            target,
            setup,
            config,
            port,
            limits,
            measure,
            provisional,
            deadline,
            Ok::<Established, ClientError>(session),
        ),
        setup.jump is None,
    ensures
        session.args == setup.args,
        session.endpoint.host@ == config.hostname@,
        session.endpoint.port == port,
        session.payload.deep_view().jumphost
            == setup.forwarding.initial_payload.deep_view().jumphost,
        credentials_came(runner, deadline, "starting the remote etterminal", session.credentials),
        provisional is Ok,
        terminal_ran(
            runner,
            deadline,
            target.host@,
            target.user.deep_view(),
            setup.args.deep_view(),
            provisional->Ok_0,
        ),
{
    let (shell, first) = choose|
        shell: Option<RemoteShell>,
        first: Credentials,
    | #[trigger]
        terminal_started(
            runner,
            target,
            setup.args.deep_view(),
            setup.term@,
            shell,
            provisional->Ok_0,
            deadline,
            Ok::<Credentials, ClientError>(first),
        ) && session.credentials == first;
    lemma_terminal_started(
        runner,
        target,
        setup.args.deep_view(),
        setup.term@,
        shell,
        provisional->Ok_0,
        deadline,
        first,
    );
}

proof fn lemma_terminal_started<R: SshRunner + ?Sized>(
    runner: &R,
    target: Target,
    args: ArgsModel,
    term: Seq<char>,
    shell: Option<RemoteShell>,
    provisional: Credentials,
    deadline: Deadline,
    credentials: Credentials,
)
    requires
        terminal_started(
            runner,
            target,
            args,
            term,
            shell,
            provisional,
            deadline,
            Ok::<Credentials, ClientError>(credentials),
        ),
    ensures
        credentials_came(runner, deadline, "starting the remote etterminal", credentials),
        terminal_ran(
            runner,
            deadline,
            target.host@,
            target.user.deep_view(),
            args,
            provisional,
        ),
{
    let r = Ok::<Credentials, ClientError>(credentials);
    let request = choose|request: BootstrapRequest|
        #[trigger] is_terminal_request(request, target, args, term, shell) && bootstrap_answered(
            runner,
            request,
            provisional,
            deadline,
            r,
        );
    let invocation = choose|invocation: SshInvocation|
        call_ensures(build_invocation, (&request, &provisional), invocation)
            && #[trigger] call_ensures(run_bootstrap::<R>, (runner, &invocation, deadline), r);
    assert(invocation.operation == "starting the remote etterminal");
}

proof fn lemma_relayed<R: SshRunner + ?Sized, M: Fn(&InitialPayload) -> usize>(
    runner: &R,
    target: Target,
    setup: SessionSetup,
    config: ResolvedSshConfig,
    port: u16,
    limits: PacketLimits,
    measure: M,
    provisional: Result<Credentials, ClientError>,
    deadline: Deadline,
    session: Established,
    parsed: ParsedHost,
)
    requires
        brought_up(
            runner,
            target,
            setup,
            config,
            port,
            limits,
            measure,
            provisional,
            deadline,
            Ok::<Established, ClientError>(session),
        ),
        setup.jump == Some(parsed),
    ensures
        session.args == setup.args,
        exists|hop: ResolvedSshConfig| #[trigger]
            looked_up(runner, deadline, bare_host(parsed.host@), false, hop)
                && session.endpoint.host@ == hop.hostname@,
        session.endpoint.port == setup.args.jport,
        session.payload.deep_view().jumphost == Some(true),
        credentials_came(runner, deadline, "starting the jumphost etterminal", session.credentials),
        provisional is Ok,
        terminal_ran(
            runner,
            deadline,
            target.host@,
            target.user.deep_view(),
            setup.args.deep_view(),
            provisional->Ok_0,
        ),
        setup.args.deep_view().jumphost is Some ==> relay_ran(
            runner,
            deadline,
            setup.args.deep_view(),
            config.hostname@,
            port,
            provisional->Ok_0,
            session.credentials,
        ),
{
    let (shell, first) = choose|shell: Option<RemoteShell>, first: Credentials| #[trigger]
        terminal_started(
            runner,
            target,
            setup.args.deep_view(),
            setup.term@,
            shell,
            provisional->Ok_0,
            deadline,
            Ok::<Credentials, ClientError>(first),
        );
    lemma_terminal_started(
        runner,
        target,
        setup.args.deep_view(),
        setup.term@,
        shell,
        provisional->Ok_0,
        deadline,
        first,
    );
    let (credentials, endpoint) = choose|credentials: Credentials, endpoint: Endpoint| #[trigger]
        relay_started(
            runner,
            parsed,
            setup.args.deep_view(),
            target.ssh_config.deep_view(),
            setup.term@,
            config.hostname@,
            port,
            provisional->Ok_0,
            deadline,
            Ok::<(Credentials, Endpoint), ClientError>((credentials, endpoint)),
        ) && session.credentials == credentials && session.endpoint.host@ == endpoint.host@
            && session.endpoint.port == endpoint.port;
    lemma_relay_started(
        runner,
        parsed,
        setup.args.deep_view(),
        target.ssh_config.deep_view(),
        setup.term@,
        config.hostname@,
        port,
        provisional->Ok_0,
        deadline,
        credentials,
        endpoint,
    );
}

proof fn lemma_relay_started<R: SshRunner + ?Sized>(
    runner: &R,
    parsed: ParsedHost,
    args: ArgsModel,
    ssh_config: Option<Seq<char>>,
    term: Seq<char>,
    host: Seq<char>,
    port: u16,
    provisional: Credentials,
    deadline: Deadline,
    credentials: Credentials,
    endpoint: Endpoint,
)
    requires
        relay_started(
            runner,
            parsed,
            args,
            ssh_config,
            term,
            host,
            port,
            provisional,
            deadline,
            Ok::<(Credentials, Endpoint), ClientError>((credentials, endpoint)),
        ),
    ensures
        exists|hop: ResolvedSshConfig| #[trigger]
            looked_up(runner, deadline, bare_host(parsed.host@), false, hop) && endpoint.host@
                == hop.hostname@,
        endpoint.port == args.jport,
        credentials_came(runner, deadline, "starting the jumphost etterminal", credentials),
        args.jumphost is Some ==> relay_ran(
            runner,
            deadline,
            args,
            host,
            port,
            provisional,
            credentials,
        ),
{
    let r = Ok::<(Credentials, Endpoint), ClientError>((credentials, endpoint));
    let (query, hop) = choose|query: SshConfigQuery<'_>, hop: ResolvedSshConfig| {
        &&& is_hop_query(query, parsed, ssh_config)
        &&& #[trigger] call_ensures(
            resolve_ssh_config_on_port::<R>,
            (runner, query, deadline),
            Ok::<ResolvedSshConfig, ClientError>(hop),
        )
        &&& exists|request: JumpBootstrapRequest|
            #[trigger] is_jump_request(request, args, ssh_config, term, host, port)
                && jump_answered(
                runner,
                request,
                parsed,
                provisional,
                deadline,
                Ok::<Credentials, ClientError>(credentials),
            ) && endpoint.host@ == hop.hostname@ && endpoint.port == args.jport
    };
    assert(looked_up(runner, deadline, bare_host(parsed.host@), false, hop));
    let request = choose|request: JumpBootstrapRequest|
        #[trigger] is_jump_request(request, args, ssh_config, term, host, port) && jump_answered(
            runner,
            request,
            parsed,
            provisional,
            deadline,
            Ok::<Credentials, ClientError>(credentials),
        ) && endpoint.host@ == hop.hostname@ && endpoint.port == args.jport;
    let invocation = choose|invocation: SshInvocation|
        call_ensures(build_jump_invocation, (&request, &parsed, &provisional), invocation)
            && #[trigger] call_ensures(
            run_bootstrap::<R>,
            (runner, &invocation, deadline),
            Ok::<Credentials, ClientError>(credentials),
        );
    assert(invocation.operation == "starting the jumphost etterminal");
}

/// A forwarding that could not listen is told with where it should have and
/// why it did not.
pub proof fn unbound_forwardings_are_told(
    source: &Option<SocketEndpoint>,
    cause: &str,
    out: String,
) -> (label: Seq<char>)
    requires
        call_ensures(skipped_row_message, (source, cause), out),
    ensures
        out@ == "SSH localforward source '"@ + label + "' could not bind: "@ + cause@
            + "; skipping forwarding row"@,
        source.deep_view() matches Some(endpoint) ==> (match (endpoint.name, endpoint.port) {
            (Some(name), Some(port)) => name.len() > 0 ==> label == name.push(':') + signed_decimal(
                port as int,
            ),
            (None, Some(port)) => label == signed_decimal(port as int),
            (Some(name), None) => label == name,
            (None, None) => true,
        }),
{
    let label = source_label(source.deep_view());
    reveal_strlit(":");
    if let Some(endpoint) = source.deep_view() {
        if let (Some(name), Some(port)) = (endpoint.name, endpoint.port) {
            if name.len() > 0 {
                assert(label =~= name.push(':') + signed_decimal(port as int));
            }
        }
    }
    label
}

} // verus!
