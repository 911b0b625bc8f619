//! What a session forwards: the command line's tunnels, the agent and the
//! rows of the `ssh` configuration.
use vstd::prelude::*;

use crate::client_args::{ArgsModel, ClientArgs};
use crate::error::ForwardConfigError;
use crate::forward::{
    copy_requests, same_request, ForwardOrigin, ForwardSource, InitialPayload, PayloadModel,
    PortForwardSourceRequest, RequestModel, SocketEndpoint, EndpointModel,
};
use crate::name_map::NameMap;
use crate::ssh_config::ResolvedSshConfig;
use crate::terminal_protocol::{is_environment_name, valid_environment_name, MAX_ENVIRONMENT};
use crate::text::same_text;

verus! {

#[derive(Debug)]
pub struct ForwardConfig {
    pub local_sources: Vec<ForwardSource>,
    pub initial_payload: InitialPayload,
}

/// The variable names that requests ask to be exported.
pub open spec fn exported_names(requests: Seq<RequestModel>) -> Seq<Seq<char>>
    decreases requests.len(),
{
    if requests.len() == 0 {
        Seq::empty()
    } else {
        let before = exported_names(requests.drop_last());
        match requests.last().environmentvariable {
            Some(name) => before.push(name),
            None => before,
        }
    }
}

/// What is wrong with the exported names: the first one that is no name, or
/// else how many different ones there are when there are too many.
pub enum NameFault {
    Invalid(Seq<char>),
    TooMany(nat),
}

/// The first text that is no environment variable name.
pub open spec fn first_invalid(list: Seq<Seq<char>>) -> Option<Seq<char>>
    decreases list.len(),
{
    if list.len() == 0 {
        None
    } else {
        match first_invalid(list.drop_last()) {
            Some(name) => Some(name),
            None => if is_environment_name(list.last()) {
                None
            } else {
                Some(list.last())
            },
        }
    }
}

pub open spec fn name_fault(list: Seq<Seq<char>>) -> Option<NameFault> {
    match first_invalid(list) {
        Some(name) => Some(NameFault::Invalid(name)),
        None => if list.to_set().len() > MAX_ENVIRONMENT {
            Some(NameFault::TooMany(list.to_set().len()))
        } else {
            None
        },
    }
}

/// Whether an error reports a fault.
pub open spec fn reports(error: ForwardConfigError, fault: NameFault) -> bool {
    match (error, fault) {
        (ForwardConfigError::InvalidEnvironmentName(name), NameFault::Invalid(bad)) => name@ == bad,
        (ForwardConfigError::TooManyEnvironmentNames(count), NameFault::TooMany(n)) => count == n,
        _ => false,
    }
}

/// Whether a result says what is wrong with exported names.
pub open spec fn judges(r: Result<(), ForwardConfigError>, list: Seq<Seq<char>>) -> bool {
    match (r, name_fault(list)) {
        (Ok(()), None) => true,
        (Err(error), Some(fault)) => reports(error, fault),
        _ => false,
    }
}

fn holds(list: &Vec<String>, name: &str) -> (r: bool)
    ensures
        r == list.deep_view().contains(name@),
{
    let ghost all = list.deep_view();
    let mut i: usize = 0;
    while i < list.len()
        invariant
            i <= list@.len(),
            all == list.deep_view(),
            forall|k: int| 0 <= k < i ==> #[trigger] all[k] != name@,
        decreases list@.len() - i,
    {
        assert(all[i as int] == list@[i as int]@);
        if same_text(list[i].as_str(), name) {
            return true;
        }
        i += 1;
    }
    false
}

proof fn lemma_first_invalid_stays(list: Seq<Seq<char>>, n: int)
    requires
        0 <= n <= list.len(),
        first_invalid(list.take(n)) is Some,
    ensures
        first_invalid(list) == first_invalid(list.take(n)),
    decreases list.len(),
{
    if n == list.len() {
        assert(list.take(n) =~= list);
    } else {
        assert(list.drop_last().take(n) =~= list.take(n));
        lemma_first_invalid_stays(list.drop_last(), n);
    }
}

proof fn lemma_exported_prefix(requests: Seq<RequestModel>, n: int)
    requires
        0 <= n <= requests.len(),
    ensures
        exported_names(requests.take(n)).len() <= exported_names(requests).len(),
        exported_names(requests.take(n)) == exported_names(requests).take(
            exported_names(requests.take(n)).len() as int,
        ),
    decreases requests.len(),
{
    if n == requests.len() {
        assert(requests.take(n) =~= requests);
        assert(exported_names(requests).take(exported_names(requests).len() as int)
            =~= exported_names(requests));
    } else {
        assert(requests.drop_last().take(n) =~= requests.take(n));
        lemma_exported_prefix(requests.drop_last(), n);
        let k = exported_names(requests.take(n)).len() as int;
        assert(exported_names(requests).take(k) =~= exported_names(requests.drop_last()).take(k));
    }
}

/// Checks the variable names that reverse tunnels export.
pub fn validate_environment_names(reverse_tunnels: &Vec<PortForwardSourceRequest>) -> (r: Result<
    (),
    ForwardConfigError,
>)
    ensures
        judges(r, exported_names(reverse_tunnels.deep_view())),
{
    let ghost all = reverse_tunnels.deep_view();
    let mut distinct: Vec<String> = Vec::new();
    let mut i: usize = 0;
    assert(all.take(0) =~= Seq::empty());
    assert(distinct.deep_view().to_set() =~= exported_names(all.take(0)).to_set());
    while i < reverse_tunnels.len()
        invariant
            i <= reverse_tunnels@.len(),
            all == reverse_tunnels.deep_view(),
            distinct.deep_view().no_duplicates(),
            distinct.deep_view().to_set() == exported_names(all.take(i as int)).to_set(),
            first_invalid(exported_names(all.take(i as int))) is None,
        decreases reverse_tunnels@.len() - i,
    {
        let ghost seen = exported_names(all.take(i as int));
        proof {
            assert(all.take(i + 1).drop_last() =~= all.take(i as int));
            assert(all.take(i + 1).last() == all[i as int]);
        }
        if let Some(name) = &reverse_tunnels[i].environmentvariable {
            proof {
                assert(exported_names(all.take(i + 1)) == seen.push(name@));
                assert(seen.push(name@).drop_last() =~= seen);
            }
            if !valid_environment_name(name.as_str()) {
                proof {
                    lemma_exported_prefix(all, i + 1);
                    lemma_first_invalid_stays(
                        exported_names(all),
                        exported_names(all.take(i + 1)).len() as int,
                    );
                }
                return Err(ForwardConfigError::InvalidEnvironmentName(name.clone()));
            }
            let ghost before = distinct.deep_view();
            if !holds(&distinct, name.as_str()) {
                distinct.push(name.clone());
                assert(distinct.deep_view() =~= before.push(name@));
                assert(distinct.deep_view().to_set() =~= before.to_set().insert(name@)) by {
                    assert forall|x: Seq<char>| #[trigger] before.push(name@).contains(x) == (
                    before.contains(x) || x == name@) by {
                        lemma_push_contains(before, name@, x);
                    }
                }
            }
            proof {
                assert forall|x: Seq<char>| #[trigger] seen.push(name@).contains(x) == (
                seen.contains(x) || x == name@) by {
                    lemma_push_contains(seen, name@, x);
                }
                assert(seen.push(name@).to_set() =~= seen.to_set().insert(name@));
                if before.contains(name@) {
                    assert(before.to_set().contains(name@));
                    assert(seen.to_set().insert(name@) =~= seen.to_set());
                }
            }
        }
        i += 1;
    }
    proof {
        assert(all.take(i as int) =~= all);
        distinct.deep_view().unique_seq_to_set();
    }
    if distinct.len() > MAX_ENVIRONMENT {
        return Err(ForwardConfigError::TooManyEnvironmentNames(distinct.len()));
    }
    Ok(())
}

proof fn lemma_push_contains<T>(s: Seq<T>, last: T, x: T)
    ensures
        s.push(last).contains(x) == (s.contains(x) || x == last),
{
    let t = s.push(last);
    assert(t[s.len() as int] == last);
    if s.contains(x) {
        let i = choose|i: int| 0 <= i < s.len() && s[i] == x;
        assert(t[i] == x);
    }
    if t.contains(x) && x != last {
        let i = choose|i: int| 0 <= i < t.len() && t[i] == x;
        assert(s[i] == x);
    }
}

/// Rows of the command line.
pub open spec fn explicit_sources(requests: Seq<RequestModel>) -> Seq<(RequestModel, ForwardOrigin)> {
    Seq::new(requests.len(), |i: int| (requests[i], ForwardOrigin::Explicit))
}

/// Rows of the `ssh` configuration.
pub open spec fn config_sources(requests: Seq<RequestModel>, strict: bool) -> Seq<
    (RequestModel, ForwardOrigin),
> {
    Seq::new(requests.len(), |i: int| (requests[i], ForwardOrigin::SshConfig { strict }))
}

/// The agent's socket: the one that was asked for, or else the one of the
/// environment. An empty path is none.
pub open spec fn agent_socket(asked: Option<Seq<char>>, environment: Option<Seq<char>>) -> Option<
    Seq<char>,
> {
    let socket = match asked {
        Some(socket) => Some(socket),
        None => environment,
    };
    match socket {
        Some(socket) => if socket.len() == 0 {
            None
        } else {
            Some(socket)
        },
        None => None,
    }
}

/// The tunnel to the agent. It has no source: the server makes a private
/// socket and exports its path.
pub open spec fn agent_request(socket: Seq<char>) -> RequestModel {
    RequestModel {
        source: None,
        destination: Some(EndpointModel { name: Some(socket), port: None }),
        environmentvariable: Some("SSH_AUTH_SOCK"@),
    }
}

/// The reverse tunnels of the command line, where an agent that is to be
/// forwarded has a socket.
pub open spec fn reverse_requests(args: ArgsModel, environment_agent: Option<Seq<char>>) -> Option<
    Seq<RequestModel>,
> {
    if args.forward_ssh_agent {
        match agent_socket(args.ssh_socket, environment_agent) {
            Some(socket) => Some(args.reverse_tunnel.push(agent_request(socket))),
            None => None,
        }
    } else {
        Some(args.reverse_tunnel)
    }
}

/// The forwarding that the command line asks for.
pub fn build(args: &ClientArgs, environment_agent: Option<&str>) -> (r: Result<
    ForwardConfig,
    ForwardConfigError,
>)
    ensures
        match reverse_requests(args.deep_view(), environment_agent.deep_view()) {
            None => r matches Err(error) && error is MissingAgentSocket,
            Some(requests) => match name_fault(exported_names(requests)) {
                Some(fault) => r matches Err(error) && reports(error, fault),
                None => {
                    &&& r matches Ok(config)
                    &&& config.local_sources.deep_view() == explicit_sources(
                        args.deep_view().tunnel,
                    )
                    &&& config.initial_payload.well_formed()
                    &&& config.initial_payload.deep_view() == (PayloadModel {
                        jumphost: Some(false),
                        reversetunnels: requests,
                        environmentvariables: Map::empty(),
                        flowcontrol: None,
                    })
                },
            },
        },
{
    let mut local_sources: Vec<ForwardSource> = Vec::new();
    let ghost all = args.tunnel.deep_view();
    let mut i: usize = 0;
    while i < args.tunnel.len()
        invariant
            i <= args.tunnel@.len(),
            all == args.tunnel.deep_view(),
            local_sources.deep_view() == explicit_sources(all).take(i as int),
        decreases args.tunnel@.len() - i,
    {
        let ghost before = local_sources.deep_view();
        local_sources.push(
            ForwardSource { request: args.tunnel[i].clone(), origin: ForwardOrigin::Explicit },
        );
        assert(local_sources.deep_view() =~= explicit_sources(all).take(i + 1)) by {
            assert(local_sources.deep_view() =~= before.push(explicit_sources(all)[i as int]));
        }
        i += 1;
    }
    assert(explicit_sources(all).take(i as int) =~= explicit_sources(all));
    let mut reverse_tunnels = copy_requests(&args.reverse_tunnel);
    if args.forward_ssh_agent {
        let socket: Option<String> = match &args.ssh_socket {
            Some(socket) => Some(socket.clone()),
            None => match environment_agent {
                Some(socket) => Some(socket.to_owned()),
                None => None,
            },
        };
        match socket {
            Some(socket) => {
                if same_text(socket.as_str(), "") {
                    proof {
                        reveal_strlit("");
                    }
                    return Err(ForwardConfigError::MissingAgentSocket);
                }
                let ghost before = reverse_tunnels.deep_view();
                let ghost path = socket@;
                proof {
                    reveal_strlit("");
                    if path.len() == 0 {
                        assert(path =~= ""@);
                    }
                }
                reverse_tunnels.push(
                    PortForwardSourceRequest {
                        source: None,
                        destination: Some(SocketEndpoint { name: Some(socket), port: None }),
                        environmentvariable: Some("SSH_AUTH_SOCK".to_owned()),
                    },
                );
                assert(reverse_tunnels.deep_view() =~= before.push(agent_request(path)));
            },
            None => {
                return Err(ForwardConfigError::MissingAgentSocket);
            },
        }
    }
    match validate_environment_names(&reverse_tunnels) {
        Err(error) => Err(error),
        Ok(()) => Ok(
            ForwardConfig {
                local_sources,
                initial_payload: InitialPayload {
                    jumphost: Some(false),
                    reversetunnels: reverse_tunnels,
                    environmentvariables: NameMap::new(),
                    flowcontrol: None,
                },
            },
        ),
    }
}

/// Whether a row asks for a request.
pub open spec fn requested(sources: Seq<(RequestModel, ForwardOrigin)>, request: RequestModel) -> bool {
    exists|i: int| 0 <= i < sources.len() && (#[trigger] sources[i]).0 == request
}

/// The rows without those whose request an earlier row makes.
pub open spec fn unique_sources(sources: Seq<(RequestModel, ForwardOrigin)>) -> Seq<
    (RequestModel, ForwardOrigin),
>
    decreases sources.len(),
{
    if sources.len() == 0 {
        Seq::empty()
    } else {
        let before = unique_sources(sources.drop_last());
        if requested(before, sources.last().0) {
            before
        } else {
            before.push(sources.last())
        }
    }
}

/// The tunnel of an agent.
pub open spec fn is_agent_forward(request: RequestModel) -> bool {
    request.source is None && request.environmentvariable == Some("SSH_AUTH_SOCK"@)
}

/// The reverse tunnels without repetitions. Those of agents all stay.
pub open spec fn unique_reverse(requests: Seq<RequestModel>) -> Seq<RequestModel>
    decreases requests.len(),
{
    if requests.len() == 0 {
        Seq::empty()
    } else {
        let before = unique_reverse(requests.drop_last());
        if !is_agent_forward(requests.last()) && before.contains(requests.last()) {
            before
        } else {
            before.push(requests.last())
        }
    }
}

fn asks_for(sources: &Vec<ForwardSource>, request: &PortForwardSourceRequest) -> (r: bool)
    ensures
        r == requested(sources.deep_view(), request.deep_view()),
{
    let ghost all = sources.deep_view();
    let mut i: usize = 0;
    while i < sources.len()
        invariant
            i <= sources@.len(),
            all == sources.deep_view(),
            forall|k: int| 0 <= k < i ==> (#[trigger] all[k]).0 != request.deep_view(),
        decreases sources@.len() - i,
    {
        assert(all[i as int].0 == sources@[i as int].request.deep_view());
        if same_request(&sources[i].request, request) {
            return true;
        }
        i += 1;
    }
    false
}

fn lists(requests: &Vec<PortForwardSourceRequest>, request: &PortForwardSourceRequest) -> (r: bool)
    ensures
        r == requests.deep_view().contains(request.deep_view()),
{
    let ghost all = requests.deep_view();
    let mut i: usize = 0;
    while i < requests.len()
        invariant
            i <= requests@.len(),
            all == requests.deep_view(),
            forall|k: int| 0 <= k < i ==> #[trigger] all[k] != request.deep_view(),
        decreases requests@.len() - i,
    {
        assert(all[i as int] == requests@[i as int].deep_view());
        if same_request(&requests[i], request) {
            return true;
        }
        i += 1;
    }
    false
}

fn forwards_agent(request: &PortForwardSourceRequest) -> (r: bool)
    ensures
        r == is_agent_forward(request.deep_view()),
{
    match (&request.source, &request.environmentvariable) {
        (None, Some(name)) => same_text(name.as_str(), "SSH_AUTH_SOCK"),
        _ => false,
    }
}

impl ForwardConfig {
    /// Adds the rows of the `ssh` configuration behind those of the command
    /// line. A request that is made twice counts once, where it was made
    /// first; the names that reverse tunnels export are checked again.
    pub fn apply_ssh_config(&mut self, resolved: &ResolvedSshConfig) -> (r: Result<
        (),
        ForwardConfigError,
    >)
        ensures
            final(self).local_sources.deep_view() == unique_sources(
                old(self).local_sources.deep_view() + config_sources(
                    resolved.deep_view().local_forwards,
                    resolved.exit_on_forward_failure,
                ),
            ),
            final(self).initial_payload.deep_view() == (PayloadModel {
                reversetunnels: unique_reverse(
                    old(self).initial_payload.deep_view().reversetunnels,
                ),
                ..old(self).initial_payload.deep_view()
            }),
            old(self).initial_payload.well_formed() ==> final(self).initial_payload.well_formed(),
            judges(r, exported_names(final(self).initial_payload.deep_view().reversetunnels)),
    {
        let strict = resolved.exit_on_forward_failure;
        let ghost own = self.local_sources.deep_view();
        let ghost rows = resolved.local_forwards.deep_view();
        let ghost all = own + config_sources(rows, strict);
        let mut sources: Vec<ForwardSource> = Vec::new();
        let mut i: usize = 0;
        assert(all.take(0) =~= Seq::empty());
        assert(sources.deep_view() =~= Seq::empty());
        while i < self.local_sources.len()
            invariant
                i <= self.local_sources@.len(),
                own == self.local_sources.deep_view(),
                own == old(self).local_sources.deep_view(),
                self.initial_payload == old(self).initial_payload,
                all == own + config_sources(rows, strict),
                sources.deep_view() == unique_sources(all.take(i as int)),
            decreases self.local_sources@.len() - i,
        {
            let ghost before = sources.deep_view();
            proof {
                assert(all.take(i + 1).drop_last() =~= all.take(i as int));
                assert(all.take(i + 1).last() == own[i as int]);
                assert(own[i as int] == self.local_sources@[i as int].deep_view());
            }
            if !asks_for(&sources, &self.local_sources[i].request) {
                sources.push(self.local_sources[i].clone());
                assert(sources.deep_view() =~= before.push(own[i as int]));
            }
            i += 1;
        }
        let mut j: usize = 0;
        while j < resolved.local_forwards.len()
            invariant
                j <= resolved.local_forwards@.len(),
                rows == resolved.local_forwards.deep_view(),
                own == old(self).local_sources.deep_view(),
                self.initial_payload == old(self).initial_payload,
                all == own + config_sources(rows, strict),
                sources.deep_view() == unique_sources(all.take(own.len() + j)),
            decreases resolved.local_forwards@.len() - j,
        {
            let ghost before = sources.deep_view();
            let ghost n = own.len() + j;
            proof {
                assert(all.take(n + 1).drop_last() =~= all.take(n));
                assert(all.take(n + 1).last() == (rows[j as int], ForwardOrigin::SshConfig {
                    strict,
                }));
                assert(rows[j as int] == resolved.local_forwards@[j as int].deep_view());
            }
            if !asks_for(&sources, &resolved.local_forwards[j]) {
                sources.push(
                    ForwardSource {
                        request: resolved.local_forwards[j].clone(),
                        origin: ForwardOrigin::SshConfig { strict },
                    },
                );
                assert(sources.deep_view() =~= before.push(all.take(n + 1).last()));
            }
            j += 1;
        }
        assert(all.take(own.len() + j) =~= all);
        self.local_sources = sources;
        let ghost tunnels = self.initial_payload.reversetunnels.deep_view();
        let mut kept: Vec<PortForwardSourceRequest> = Vec::new();
        let mut k: usize = 0;
        assert(tunnels.take(0) =~= Seq::empty());
        assert(kept.deep_view() =~= Seq::empty());
        while k < self.initial_payload.reversetunnels.len()
            invariant
                k <= self.initial_payload.reversetunnels@.len(),
                tunnels == self.initial_payload.reversetunnels.deep_view(),
                self.initial_payload == old(self).initial_payload,
                self.local_sources.deep_view() == unique_sources(all),
                kept.deep_view() == unique_reverse(tunnels.take(k as int)),
            decreases self.initial_payload.reversetunnels@.len() - k,
        {
            let request = &self.initial_payload.reversetunnels[k];
            let ghost before = kept.deep_view();
            proof {
                assert(tunnels.take(k + 1).drop_last() =~= tunnels.take(k as int));
                assert(tunnels.take(k + 1).last() == request.deep_view());
            }
            if forwards_agent(request) || !lists(&kept, request) {
                kept.push(request.clone());
                assert(kept.deep_view() =~= before.push(request.deep_view()));
            }
            k += 1;
        }
        assert(tunnels.take(k as int) =~= tunnels);
        self.initial_payload.reversetunnels = kept;
        validate_environment_names(&self.initial_payload.reversetunnels)
    }
}

/// Whether every row makes a request of its own.
pub open spec fn distinct_sources(sources: Seq<(RequestModel, ForwardOrigin)>) -> bool {
    forall|i: int, j: int|
        0 <= i < j < sources.len() ==> (#[trigger] sources[i]).0 != (#[trigger] sources[j]).0
}

/// Of the rows that make one request exactly the first stays, and the rows
/// that stay keep their order.
pub proof fn forwarding_rows_are_deduplicated(sources: Seq<(RequestModel, ForwardOrigin)>)
    ensures
        distinct_sources(unique_sources(sources)),
        forall|request: RequestModel| #[trigger]
            requested(unique_sources(sources), request) == requested(sources, request),
        forall|i: int|
            0 <= i < sources.len() && !requested(sources.take(i), sources[i].0)
                ==> unique_sources(sources).contains(#[trigger] sources[i]),
    decreases sources.len(),
{
    if sources.len() > 0 {
        let before = sources.drop_last();
        forwarding_rows_are_deduplicated(before);
        assert forall|request: RequestModel| #[trigger]
            requested(unique_sources(sources), request) == requested(sources, request) by {
            lemma_requested_push(before, sources.last(), request);
            lemma_requested_push(unique_sources(before), sources.last(), request);
            assert(before.push(sources.last()) =~= sources);
        }
        assert forall|i: int|
            0 <= i < sources.len() && !requested(sources.take(i), sources[i].0) implies unique_sources(
            sources,
        ).contains(#[trigger] sources[i]) by {
            if i < before.len() {
                assert(before.take(i) =~= sources.take(i));
                assert(before[i] == sources[i]);
                assert(unique_sources(before).contains(sources[i]));
                lemma_push_contains(unique_sources(before), sources.last(), sources[i]);
            } else {
                assert(sources.take(i) =~= before);
                lemma_push_contains(unique_sources(before), sources.last(), sources[i]);
            }
        }
    }
}

proof fn lemma_requested_push(
    sources: Seq<(RequestModel, ForwardOrigin)>,
    last: (RequestModel, ForwardOrigin),
    request: RequestModel,
)
    ensures
        requested(sources.push(last), request) == (requested(sources, request) || last.0 == request),
{
    let t = sources.push(last);
    assert(t[sources.len() as int] == last);
    if requested(sources, request) {
        let i = choose|i: int| 0 <= i < sources.len() && (#[trigger] sources[i]).0 == request;
        assert(t[i].0 == request);
    }
    if requested(t, request) && last.0 != request {
        let i = choose|i: int| 0 <= i < t.len() && (#[trigger] t[i]).0 == request;
        assert(sources[i].0 == request);
    }
}

/// Rows that make no new request change nothing: the configuration can be
/// applied again.
pub proof fn known_rows_change_nothing(
    sources: Seq<(RequestModel, ForwardOrigin)>,
    rows: Seq<(RequestModel, ForwardOrigin)>,
)
    requires
        distinct_sources(sources),
        forall|i: int| 0 <= i < rows.len() ==> requested(sources, (#[trigger] rows[i]).0),
    ensures
        unique_sources(sources + rows) == sources,
    decreases sources.len() + rows.len(),
{
    if rows.len() > 0 {
        known_rows_change_nothing(sources, rows.drop_last());
        assert((sources + rows).drop_last() =~= sources + rows.drop_last());
        assert(requested(sources, rows.last().0));
    } else if sources.len() > 0 {
        let before = sources.drop_last();
        assert(distinct_sources(before)) by {
            assert forall|i: int, j: int| 0 <= i < j < before.len() implies (#[trigger] before[i]).0
                != (#[trigger] before[j]).0 by {
                assert(sources[i].0 != sources[j].0);
            }
        }
        known_rows_change_nothing(before, Seq::empty());
        assert(before + Seq::<(RequestModel, ForwardOrigin)>::empty() =~= before);
        assert(sources + rows =~= sources);
        if requested(before, sources.last().0) {
            let i = choose|i: int| 0 <= i < before.len() && (#[trigger] before[i]).0
                == sources.last().0;
            assert(sources[i].0 != sources[sources.len() - 1].0);
        }
        assert(before.push(sources.last()) =~= sources);
    } else {
        assert(sources + rows =~= Seq::empty());
    }
}

/// What the command line asks for is forwarded: its tunnels from here, all of
/// them in their order, and its reverse tunnels from there. The session
/// itself is no jumphost.
pub proof fn tunnels_are_forwarded(
    args: &ClientArgs,
    environment_agent: Option<&str>,
    r: Result<ForwardConfig, ForwardConfigError>,
    i: int,
)
    requires
        call_ensures(build, (args, environment_agent), r),
    ensures
        r is Ok ==> {
            let config = r->Ok_0;
            let payload = config.initial_payload.deep_view();
            &&& config.local_sources@.len() == args.tunnel@.len()
            &&& 0 <= i < args.tunnel@.len() ==> config.local_sources@[i].request.deep_view()
                == args.tunnel@[i].deep_view() && config.local_sources@[i].origin
                == ForwardOrigin::Explicit
            &&& args.reverse_tunnel.deep_view().is_prefix_of(payload.reversetunnels)
            &&& payload.reversetunnels.len() == args.reverse_tunnel@.len() + (
            if args.forward_ssh_agent {
                1int
            } else {
                0int
            })
            &&& payload.jumphost == Some(false)
            &&& payload.environmentvariables.dom() =~= Set::empty()
        },
        args.reverse_tunnel@.len() == 0 && !args.forward_ssh_agent ==> r is Ok,
{
    if r is Ok {
        let sources = r->Ok_0.local_sources;
        assert(sources.deep_view().len() == explicit_sources(args.deep_view().tunnel).len());
        if 0 <= i < args.tunnel@.len() {
            assert(sources.deep_view()[i] == explicit_sources(args.deep_view().tunnel)[i]);
        }
    }
    if args.reverse_tunnel@.len() == 0 && !args.forward_ssh_agent {
        let none = args.reverse_tunnel.deep_view();
        assert(none =~= Seq::<RequestModel>::empty());
        assert(exported_names(none) =~= Seq::<Seq<char>>::empty());
        assert(exported_names(none).to_set() =~= Set::<Seq<char>>::empty());
    }
}

/// An agent is forwarded over the socket that was asked for, or else over the
/// environment's, and never without one: the far end gets its path in
/// `SSH_AUTH_SOCK`.
pub proof fn agents_are_forwarded(
    args: &ClientArgs,
    environment_agent: Option<&str>,
    r: Result<ForwardConfig, ForwardConfigError>,
    socket: Seq<char>,
)
    requires
        call_ensures(build, (args, environment_agent), r),
        args.forward_ssh_agent,
        socket == match (args.ssh_socket, environment_agent) {
            (Some(asked), _) => asked@,
            (None, Some(found)) => found@,
            (None, None) => Seq::empty(),
        },
    ensures
        socket.len() == 0 <==> (r matches Err(error) && error is MissingAgentSocket),
        r matches Ok(config) ==> {
            let request = config.initial_payload.deep_view().reversetunnels.last();
            &&& request.source is None
            &&& request.destination == Some(EndpointModel { name: Some(socket), port: None })
            &&& request.environmentvariable == Some("SSH_AUTH_SOCK"@)
        },
{
}

/// A reverse tunnel that would export a variable under a name that is none is
/// refused, and the name is told.
pub proof fn invalid_names_are_refused(
    tunnels: &Vec<PortForwardSourceRequest>,
    r: Result<(), ForwardConfigError>,
    i: int,
)
    requires
        call_ensures(validate_environment_names, (tunnels,), r),
        0 <= i < tunnels@.len(),
    ensures
        (tunnels@[i].environmentvariable matches Some(name) && !is_environment_name(name@)) ==> (
        r matches Err(error) && error is InvalidEnvironmentName),
        tunnels@.len() == 1 && (tunnels@[i].environmentvariable matches Some(name)
            && is_environment_name(name@)) ==> r is Ok,
        tunnels@.len() == 1 && tunnels@[i].environmentvariable is None ==> r is Ok,
{
    let all = tunnels.deep_view();
    assert(all[i] == tunnels@[i].deep_view());
    if let Some(name) = tunnels@[i].environmentvariable {
        if !is_environment_name(name@) {
            lemma_invalid_is_found(all, i);
        }
    }
    if tunnels@.len() == 1 {
        assert(all.drop_last() =~= Seq::<RequestModel>::empty());
        assert(all.last() == all[i]);
        assert(exported_names(all.drop_last()) =~= Seq::<Seq<char>>::empty());
        match all[i].environmentvariable {
            Some(name) => {
                assert(exported_names(all) =~= seq![name]);
                assert(seq![name].drop_last() =~= Seq::<Seq<char>>::empty());
                assert(seq![name].last() == name);
                if is_environment_name(name) {
                    assert(first_invalid(seq![name].drop_last()) is None);
                    assert(first_invalid(seq![name]) is None);
                }
                assert(seq![name].to_set() =~= Set::empty().insert(name)) by {
                    assert(seq![name][0] == name);
                }
                assert(seq![name].to_set().len() == 1);
            },
            None => {
                assert(exported_names(all).to_set() =~= Set::<Seq<char>>::empty());
            },
        }
    }
}

proof fn lemma_invalid_is_found(requests: Seq<RequestModel>, i: int)
    requires
        0 <= i < requests.len(),
        requests[i].environmentvariable matches Some(name) && !is_environment_name(name),
    ensures
        first_invalid(exported_names(requests)) is Some,
    decreases requests.len(),
{
    let before = exported_names(requests.drop_last());
    if i < requests.len() - 1 {
        lemma_invalid_is_found(requests.drop_last(), i);
        assert(requests.drop_last()[i] == requests[i]);
    }
    if let Some(name) = requests.last().environmentvariable {
        assert(before.push(name).drop_last() =~= before);
        assert(before.push(name).last() == name);
    }
}

/// A configuration adds its forwardings behind those of the command line and
/// marks them as its own; the reverse tunnels of the session stay, and so
/// does everything else that it tells the server.
pub proof fn configured_rows_come_behind()
    ensures
        forall|config: &mut ForwardConfig, resolved: &ResolvedSshConfig, r: Result<
            (),
            ForwardConfigError,
        >|
            distinct_sources(
                config.local_sources.deep_view() + config_sources(
                    resolved.deep_view().local_forwards,
                    resolved.exit_on_forward_failure,
                ),
            ) && #[trigger] call_ensures(
                ForwardConfig::apply_ssh_config,
                (config, resolved),
                r,
            ) ==> {
                let before = config.local_sources.deep_view();
                let after = final(config).local_sources.deep_view();
                let rows = resolved.deep_view().local_forwards;
                &&& after.len() == before.len() + rows.len()
                &&& before.is_prefix_of(after)
                &&& forall|i: int|
                    0 <= i < rows.len() ==> #[trigger] after[before.len() + i] == (
                        rows[i],
                        ForwardOrigin::SshConfig { strict: resolved.exit_on_forward_failure },
                    )
                &&& final(config).initial_payload.deep_view() == (PayloadModel {
                    reversetunnels: final(config).initial_payload.deep_view().reversetunnels,
                    ..config.initial_payload.deep_view()
                })
            },
{
    assert forall|
        config: &mut ForwardConfig,
        resolved: &ResolvedSshConfig,
        r: Result<(), ForwardConfigError>,
    |
        distinct_sources(
            config.local_sources.deep_view() + config_sources(
                resolved.deep_view().local_forwards,
                resolved.exit_on_forward_failure,
            ),
        ) && #[trigger] call_ensures(ForwardConfig::apply_ssh_config, (config, resolved), r) implies ({
        let before = config.local_sources.deep_view();
        let after = final(config).local_sources.deep_view();
        let rows = resolved.deep_view().local_forwards;
        &&& after.len() == before.len() + rows.len()
        &&& before.is_prefix_of(after)
        &&& forall|i: int|
            0 <= i < rows.len() ==> #[trigger] after[before.len() + i] == (
                rows[i],
                ForwardOrigin::SshConfig { strict: resolved.exit_on_forward_failure },
            )
        &&& final(config).initial_payload.deep_view() == (PayloadModel {
            reversetunnels: final(config).initial_payload.deep_view().reversetunnels,
            ..config.initial_payload.deep_view()
        })
    }) by {
        let before = config.local_sources.deep_view();
        let added = config_sources(
            resolved.deep_view().local_forwards,
            resolved.exit_on_forward_failure,
        );
        known_rows_change_nothing(before + added, Seq::empty());
        assert(before + added + Seq::empty() =~= before + added);
    }
}

/// Reverse tunnels that differ all stay, in their order, and so do those of
/// agents.
pub proof fn different_reverse_tunnels_stay(requests: Seq<RequestModel>)
    requires
        requests.no_duplicates(),
    ensures
        unique_reverse(requests) == requests,
    decreases requests.len(),
{
    if requests.len() > 0 {
        let before = requests.drop_last();
        assert forall|i: int, j: int|
            0 <= i < before.len() && 0 <= j < before.len() && i != j implies before[i]
            != before[j] by {
            assert(requests[i] != requests[j]);
        }
        different_reverse_tunnels_stay(before);
        if before.contains(requests.last()) {
            let i = choose|i: int| 0 <= i < before.len() && before[i] == requests.last();
            assert(requests[i] != requests[requests.len() - 1]);
        }
        assert(before.push(requests.last()) =~= requests);
    } else {
        assert(unique_reverse(requests) =~= requests);
    }
}

/// A reverse tunnel that was asked for twice is asked for once.
pub proof fn repeated_reverse_tunnels_count_once(requests: Seq<RequestModel>, request: RequestModel)
    requires
        requests.contains(request),
        !(request.source is None && request.environmentvariable == Some("SSH_AUTH_SOCK"@)),
    ensures
        unique_reverse(requests.push(request)) == unique_reverse(requests),
        unique_reverse(requests).contains(request),
    decreases requests.len(),
{
    assert(requests.push(request).drop_last() =~= requests);
    let before = requests.drop_last();
    lemma_push_contains(unique_reverse(before), requests.last(), request);
    if requests.last() == request {
        assert(unique_reverse(requests).contains(request));
    } else {
        let i = choose|i: int| 0 <= i < requests.len() && requests[i] == request;
        assert(before[i] == request);
        repeated_reverse_tunnels_count_once(before, request);
    }
}

} // verus!
