//! What a lookup of the server's address amounts to.
use vstd::prelude::*;

use crate::error::ClientError;
use crate::initial_connect::Endpoint;
use crate::ip_address::{is_ip_address, is_ipv4, is_ipv6};
use crate::text::chars_of;

verus! {

/// How many addresses of a host are looked at.
pub const MAX_RESOLVED_ADDRESSES: usize = 16;

/// Looks hosts up with the system's resolver.
#[derive(Debug, Clone, Copy)]
pub struct SystemResolver;

impl Default for SystemResolver {
    fn default() -> (resolver: Self)
        ensures
            resolver == SystemResolver,
    {
        SystemResolver
    }
}

impl SystemResolver {
    /// Whether a host has to be looked up: an address is taken as it is.
    pub fn needs_lookup(&self, endpoint: &Endpoint) -> (r: bool)
        ensures
            r == !(is_ipv4(endpoint.host@) || is_ipv6(endpoint.host@)),
    {
        let chars = chars_of(endpoint.host.as_str());
        !is_ip_address(chars.as_slice())
    }
}

/// What became of a lookup that runs in a thread of its own.
#[derive(Debug)]
pub enum LookupEvent<A> {
    /// The deadline had passed before it began.
    NoTime,
    /// The thread did not start.
    NoThread(String),
    /// It answered, and whether its thread panicked afterwards.
    Answered { panicked: bool, result: Result<Vec<A>, String> },
    /// The deadline passed. The lookup cannot be cancelled, so it is left
    /// behind.
    TimedOut,
    /// The thread ended without an answer.
    Silent { panicked: bool },
}

/// Whether an error says that a lookup took too long.
pub open spec fn is_lookup_timeout(error: ClientError, endpoint: Endpoint) -> bool {
    error matches ClientError::DnsTimeout(name) && name@ == endpoint.text()
}

/// Whether an error says that a host has no address, and why.
pub open spec fn is_lookup_failure(error: ClientError, endpoint: Endpoint, cause: Seq<char>) -> bool {
    error matches ClientError::UnreachableEndpoint { endpoint: name, source } && name@
        == endpoint.text() && source@ == cause
}

/// Whether `r` is what a lookup amounts to.
pub open spec fn lookup_gives<A>(
    endpoint: Endpoint,
    event: LookupEvent<A>,
    r: Result<Vec<A>, ClientError>,
) -> bool {
    match event {
        LookupEvent::NoTime => r matches Err(error) && is_lookup_timeout(error, endpoint),
        LookupEvent::TimedOut => r matches Err(error) && is_lookup_timeout(error, endpoint),
        LookupEvent::NoThread(cause) => r == Err::<Vec<A>, ClientError>(
            ClientError::DnsWorker(cause),
        ),
        LookupEvent::Answered { panicked, result } => if panicked {
            r == Err::<Vec<A>, ClientError>(ClientError::DnsWorkerPanicked)
        } else {
            match result {
                Ok(addresses) => r matches Ok(kept) && kept@ == first_addresses(addresses@),
                Err(cause) => r matches Err(error) && is_lookup_failure(error, endpoint, cause@),
            }
        },
        LookupEvent::Silent { panicked } => if panicked {
            r == Err::<Vec<A>, ClientError>(ClientError::DnsWorkerPanicked)
        } else {
            r matches Err(error) && is_lookup_failure(
                error,
                endpoint,
                "DNS resolver returned no result"@,
            )
        },
    }
}

/// As many addresses as are looked at.
pub open spec fn first_addresses<A>(addresses: Seq<A>) -> Seq<A> {
    if addresses.len() > MAX_RESOLVED_ADDRESSES {
        addresses.take(MAX_RESOLVED_ADDRESSES as int)
    } else {
        addresses
    }
}

/// The addresses that a lookup found, or why it found none.
pub fn resolve_operation<A>(endpoint: &Endpoint, event: LookupEvent<A>) -> (r: Result<
    Vec<A>,
    ClientError,
>)
    ensures
        lookup_gives(*endpoint, event, r),
{
    match event {
        LookupEvent::NoTime => Err(ClientError::DnsTimeout(endpoint.display())),
        LookupEvent::TimedOut => Err(ClientError::DnsTimeout(endpoint.display())),
        LookupEvent::NoThread(cause) => Err(ClientError::DnsWorker(cause)),
        LookupEvent::Answered { panicked, result } => {
            if panicked {
                return Err(ClientError::DnsWorkerPanicked);
            }
            match result {
                Ok(addresses) => {
                    let mut kept = addresses;
                    if kept.len() > MAX_RESOLVED_ADDRESSES {
                        kept.truncate(MAX_RESOLVED_ADDRESSES);
                    }
                    Ok(kept)
                },
                Err(cause) => Err(
                    ClientError::UnreachableEndpoint {
                        endpoint: endpoint.display(),
                        source: cause,
                    },
                ),
            }
        },
        LookupEvent::Silent { panicked } => {
            if panicked {
                Err(ClientError::DnsWorkerPanicked)
            } else {
                Err(
                    ClientError::UnreachableEndpoint {
                        endpoint: endpoint.display(),
                        source: "DNS resolver returned no result".to_owned(),
                    },
                )
            }
        },
    }
}

/// A lookup that answered gives its addresses in their order, sixteen at
/// most, and gives nothing where its thread broke down afterwards. Any other
/// lookup fails.
pub proof fn lookups_keep_the_first_addresses<A>(
    endpoint: &Endpoint,
    event: LookupEvent<A>,
    r: Result<Vec<A>, ClientError>,
)
    requires
        call_ensures(resolve_operation::<A>, (endpoint, event), r),
    ensures
        r is Ok <==> (event matches LookupEvent::Answered { panicked, result } && !panicked
            && result is Ok),
        r is Ok ==> {
            let found = event->Answered_result->Ok_0@;
            let kept = r->Ok_0@;
            kept.len() <= 16 && kept.len() <= found.len() && (kept.len() == found.len()
                || kept.len() == 16) && kept == found.take(kept.len() as int)
        },
        event is NoTime || event is TimedOut ==> r->Err_0 is DnsTimeout,
{
    if r is Ok {
        let found = event->Answered_result->Ok_0@;
        assert(r->Ok_0@ =~= found.take(r->Ok_0@.len() as int));
    }
}

} // verus!
