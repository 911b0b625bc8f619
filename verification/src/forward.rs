//! Requests to forward a socket, and where they come from.
use vstd::prelude::*;

use crate::name_map::NameMap;
use crate::terminal_protocol::FlowControlMode;
use crate::text::{copy_pairs, same_text};

verus! {

/// A TCP endpoint with a port, or a Unix socket path without one.
#[derive(Debug, PartialEq, Eq)]
pub struct SocketEndpoint {
    pub name: Option<String>,
    pub port: Option<i32>,
}

/// The contents of a [`SocketEndpoint`].
pub struct EndpointModel {
    pub name: Option<Seq<char>>,
    pub port: Option<i32>,
}

/// Accept connections at `source` and carry them to `destination`. Without a
/// source the server picks a private socket and exports its path.
#[derive(Debug, PartialEq, Eq)]
pub struct PortForwardSourceRequest {
    pub source: Option<SocketEndpoint>,
    pub destination: Option<SocketEndpoint>,
    pub environmentvariable: Option<String>,
}

/// The contents of a [`PortForwardSourceRequest`].
pub struct RequestModel {
    pub source: Option<EndpointModel>,
    pub destination: Option<EndpointModel>,
    pub environmentvariable: Option<Seq<char>>,
}

/// Who asked for a forwarding row.
#[derive(Debug, Clone, Copy, PartialEq, Eq, Structural)]
pub enum ForwardOrigin {
    /// The command line: a failure to bind is fatal.
    Explicit,
    /// The `ssh` configuration: a failure is fatal only where it says so.
    SshConfig { strict: bool },
    /// A row that the peer reports on.
    Reported(u32),
}

#[derive(Debug, PartialEq, Eq)]
pub struct ForwardSource {
    pub request: PortForwardSourceRequest,
    pub origin: ForwardOrigin,
}

impl DeepView for SocketEndpoint {
    type V = EndpointModel;

    open spec fn deep_view(&self) -> EndpointModel {
        EndpointModel { name: self.name.deep_view(), port: self.port }
    }
}

impl DeepView for PortForwardSourceRequest {
    type V = RequestModel;

    open spec fn deep_view(&self) -> RequestModel {
        RequestModel {
            source: self.source.deep_view(),
            destination: self.destination.deep_view(),
            environmentvariable: self.environmentvariable.deep_view(),
        }
    }
}

impl DeepView for ForwardSource {
    type V = (RequestModel, ForwardOrigin);

    open spec fn deep_view(&self) -> (RequestModel, ForwardOrigin) {
        (self.request.deep_view(), self.origin)
    }
}

impl Clone for SocketEndpoint {
    fn clone(&self) -> (copy: Self)
        ensures
            copy.deep_view() == self.deep_view(),
    {
        SocketEndpoint { name: copy_text(&self.name), port: self.port }
    }
}

impl Clone for PortForwardSourceRequest {
    fn clone(&self) -> (copy: Self)
        ensures
            copy.deep_view() == self.deep_view(),
    {
        PortForwardSourceRequest {
            source: copy_endpoint(&self.source),
            destination: copy_endpoint(&self.destination),
            environmentvariable: copy_text(&self.environmentvariable),
        }
    }
}

impl Clone for ForwardSource {
    fn clone(&self) -> (copy: Self)
        ensures
            copy.deep_view() == self.deep_view(),
    {
        ForwardSource { request: self.request.clone(), origin: self.origin }
    }
}

/// A copy of an optional string.
pub fn copy_text(text: &Option<String>) -> (copy: Option<String>)
    ensures
        copy.deep_view() == text.deep_view(),
{
    match text {
        Some(text) => Some(text.clone()),
        None => None,
    }
}

fn copy_endpoint(endpoint: &Option<SocketEndpoint>) -> (copy: Option<SocketEndpoint>)
    ensures
        copy.deep_view() == endpoint.deep_view(),
{
    match endpoint {
        Some(endpoint) => Some(endpoint.clone()),
        None => None,
    }
}

/// Whether two optional strings are the same.
pub fn same_optional_text(a: &Option<String>, b: &Option<String>) -> (r: bool)
    ensures
        r == (a.deep_view() == b.deep_view()),
{
    match (a, b) {
        (Some(a), Some(b)) => same_text(a.as_str(), b.as_str()),
        (None, None) => true,
        _ => false,
    }
}

fn same_endpoint(a: &Option<SocketEndpoint>, b: &Option<SocketEndpoint>) -> (r: bool)
    ensures
        r == (a.deep_view() == b.deep_view()),
{
    match (a, b) {
        (Some(a), Some(b)) => {
            let ports = match (a.port, b.port) {
                (Some(p), Some(q)) => p == q,
                (None, None) => true,
                _ => false,
            };
            ports && same_optional_text(&a.name, &b.name)
        },
        (None, None) => true,
        _ => false,
    }
}

/// Whether two requests are the same in every field.
pub fn same_request(a: &PortForwardSourceRequest, b: &PortForwardSourceRequest) -> (r: bool)
    ensures
        r == (a.deep_view() == b.deep_view()),
{
    same_endpoint(&a.source, &b.source) && same_endpoint(&a.destination, &b.destination)
        && same_optional_text(&a.environmentvariable, &b.environmentvariable)
}

/// What the client sends when a session starts.
#[derive(Debug)]
pub struct InitialPayload {
    pub jumphost: Option<bool>,
    pub reversetunnels: Vec<PortForwardSourceRequest>,
    pub environmentvariables: NameMap<String>,
    pub flowcontrol: Option<FlowControlMode>,
}

/// The contents of an [`InitialPayload`].
pub struct PayloadModel {
    pub jumphost: Option<bool>,
    pub reversetunnels: Seq<RequestModel>,
    pub environmentvariables: Map<Seq<char>, Seq<char>>,
    pub flowcontrol: Option<FlowControlMode>,
}

impl DeepView for InitialPayload {
    type V = PayloadModel;

    open spec fn deep_view(&self) -> PayloadModel {
        PayloadModel {
            jumphost: self.jumphost,
            reversetunnels: self.reversetunnels.deep_view(),
            environmentvariables: self.environmentvariables@,
            flowcontrol: self.flowcontrol,
        }
    }
}

impl InitialPayload {
    pub open spec fn well_formed(self) -> bool {
        self.environmentvariables.well_formed()
    }
}

impl Clone for InitialPayload {
    fn clone(&self) -> (copy: Self)
        ensures
            copy.deep_view() == self.deep_view(),
            self.well_formed() ==> copy.well_formed(),
    {
        InitialPayload {
            jumphost: self.jumphost,
            reversetunnels: copy_requests(&self.reversetunnels),
            environmentvariables: NameMap { entries: copy_pairs(&self.environmentvariables.entries) },
            flowcontrol: self.flowcontrol,
        }
    }
}

/// A copy of forwarding requests.
pub fn copy_requests(requests: &Vec<PortForwardSourceRequest>) -> (copy: Vec<
    PortForwardSourceRequest,
>)
    ensures
        copy.deep_view() == requests.deep_view(),
{
    let mut copy: Vec<PortForwardSourceRequest> = Vec::new();
    let mut i: usize = 0;
    while i < requests.len()
        invariant
            i <= requests@.len(),
            copy.deep_view() == requests.deep_view().take(i as int),
        decreases requests@.len() - i,
    {
        let ghost before = copy.deep_view();
        copy.push(requests[i].clone());
        assert(copy.deep_view() =~= requests.deep_view().take(i + 1)) by {
            assert(copy.deep_view() =~= before.push(requests.deep_view()[i as int]));
        }
        i += 1;
    }
    assert(requests.deep_view().take(i as int) =~= requests.deep_view());
    copy
}

} // verus!
