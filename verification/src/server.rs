//! The server role: its configuration and its readiness line.
use vstd::prelude::*;

use crate::error::joined;
use crate::text::{chars_of, same_text, starts_with};

verus! {

/// An argument that names the configuration file.
pub open spec fn names_cfgfile(arg: Seq<char>) -> bool {
    arg == "--cfgfile"@ || "--cfgfile="@.is_prefix_of(arg)
}

/// Whether the configuration file was asked for. `args` are the arguments
/// that are text.
pub fn cfgfile_was_explicit(args: &Vec<String>) -> (r: bool)
    ensures
        r == exists|i: int| 0 <= i < args@.len() && names_cfgfile(#[trigger] args@[i]@),
{
    let prefix = chars_of("--cfgfile=");
    let mut i: usize = 0;
    while i < args.len()
        invariant
            i <= args@.len(),
            prefix@ == "--cfgfile="@,
            forall|j: int| 0 <= j < i ==> !names_cfgfile(#[trigger] args@[j]@),
        decreases args@.len() - i,
    {
        let chars = chars_of(args[i].as_str());
        if same_text(args[i].as_str(), "--cfgfile") || starts_with(
            chars.as_slice(),
            prefix.as_slice(),
        ) {
            assert(names_cfgfile(args@[i as int]@));
            return true;
        }
        i += 1;
    }
    false
}

/// What reading the configuration file gave.
#[derive(Debug)]
pub enum ConfigRead {
    Text(String),
    NotFound(String),
    Failed(String),
}

/// Whether `r` is the configuration to use.
pub open spec fn config_used(
    read: ConfigRead,
    explicit: bool,
    r: Result<Option<String>, String>,
) -> bool {
    match read {
        ConfigRead::Text(text) => r == Ok::<Option<String>, String>(Some(text)),
        ConfigRead::NotFound(cause) => if explicit {
            r matches Err(message) && message@ == "could not read server configuration: "@ + cause@
        } else {
            r == Ok::<Option<String>, String>(None)
        },
        ConfigRead::Failed(cause) => r matches Err(message) && message@
            == "could not read server configuration: "@ + cause@,
    }
}

/// The configuration to use. The default file may be missing; one that was
/// asked for may not.
pub fn load_config(read: ConfigRead, explicit: bool) -> (r: Result<Option<String>, String>)
    ensures
        config_used(read, explicit, r),
{
    match read {
        ConfigRead::Text(text) => Ok(Some(text)),
        ConfigRead::NotFound(cause) => {
            if explicit {
                Err(joined("could not read server configuration: ", cause.as_str()))
            } else {
                Ok(None)
            }
        },
        ConfigRead::Failed(cause) => Err(
            joined("could not read server configuration: ", cause.as_str()),
        ),
    }
}

/// Texts with commas between them.
pub open spec fn comma_joined(list: Seq<Seq<char>>) -> Seq<char>
    decreases list.len(),
{
    if list.len() == 0 {
        Seq::empty()
    } else if list.len() == 1 {
        list[0]
    } else {
        comma_joined(list.drop_last()) + ","@ + list.last()
    }
}

fn join_commas(list: &Vec<String>) -> (out: String)
    ensures
        out@ == comma_joined(list.deep_view()),
{
    let ghost all = list.deep_view();
    let mut out = String::new();
    let mut i: usize = 0;
    assert(all.take(0) =~= Seq::empty());
    assert(out@ =~= Seq::empty());
    while i < list.len()
        invariant
            i <= list@.len(),
            all == list.deep_view(),
            out@ == comma_joined(all.take(i as int)),
        decreases list@.len() - i,
    {
        let ghost before = out@;
        proof {
            assert(all.take(i + 1).drop_last() =~= all.take(i as int));
            assert(all.take(i + 1).last() == list@[i as int]@);
            if i == 0 {
                assert(before + list@[0]@ =~= list@[0]@);
            }
        }
        if i > 0 {
            out.append(",");
        }
        out.append(list[i].as_str());
        i += 1;
    }
    assert(all.take(i as int) =~= all);
    out
}

/// The line that tells where the server listens.
pub fn ready_line(addresses: &Vec<String>, router: &str) -> (line: String)
    ensures
        line@ == "ETSERVER_READY tcp="@ + comma_joined(addresses.deep_view()) + " router="@
            + router@ + "\n"@,
{
    let mut line = joined("ETSERVER_READY tcp=", join_commas(addresses).as_str());
    line.append(" router=");
    line.append(router);
    line.append("\n");
    line
}

// The role.

/// What the server does now.
#[derive(Debug, Clone, Copy, PartialEq, Eq, Structural)]
pub enum ServerStep {
    /// Start a detached child, and leave the rest to it.
    Daemonize,
    /// Finish detaching, as that child.
    Detach,
    LoadConfig,
    ResolveConfig,
    InstallSignals,
    SelectRouter,
    Start,
    /// Tell the parent of a child, or else print the readiness line.
    ReportStartup,
    PrintReady,
    /// Wait until the system asks the server to stop.
    Wait,
    Shutdown,
    ReportShutdown,
    Done,
}

/// The server between two steps.
#[derive(Debug, Clone, Copy, PartialEq, Eq, Structural)]
pub struct ServerRun {
    pub daemon_child: bool,
    pub step: ServerStep,
}

/// How trouble in a step is described. What has its own description keeps it,
/// and a wait fails only when nothing can ask the server to stop any more.
pub open spec fn server_trouble(step: ServerStep, cause: Seq<char>) -> Seq<char> {
    match step {
        ServerStep::Daemonize => "could not daemonize: "@ + cause,
        ServerStep::InstallSignals => "could not install server signal handlers: "@ + cause,
        ServerStep::SelectRouter => "could not select terminal router path: "@ + cause,
        ServerStep::Start => "could not start ET server: "@ + cause,
        ServerStep::PrintReady => "could not write server readiness: "@ + cause,
        ServerStep::Wait => "server signal stream ended unexpectedly"@,
        ServerStep::Shutdown => "could not shut down ET server: "@ + cause,
        _ => cause,
    }
}

fn describe_trouble(step: ServerStep, cause: String) -> (message: String)
    ensures
        message@ == server_trouble(step, cause@),
{
    match step {
        ServerStep::Daemonize => joined("could not daemonize: ", cause.as_str()),
        ServerStep::InstallSignals => joined(
            "could not install server signal handlers: ",
            cause.as_str(),
        ),
        ServerStep::SelectRouter => joined(
            "could not select terminal router path: ",
            cause.as_str(),
        ),
        ServerStep::Start => joined("could not start ET server: ", cause.as_str()),
        ServerStep::PrintReady => joined("could not write server readiness: ", cause.as_str()),
        ServerStep::Wait => "server signal stream ended unexpectedly".to_owned(),
        ServerStep::Shutdown => joined("could not shut down ET server: ", cause.as_str()),
        _ => cause,
    }
}

impl ServerRun {
    pub fn new(daemon: bool, daemon_child: bool) -> (run: Self)
        ensures
            run == (ServerRun {
                daemon_child,
                step: if daemon {
                    ServerStep::Daemonize
                } else if daemon_child {
                    ServerStep::Detach
                } else {
                    ServerStep::LoadConfig
                },
            }),
    {
        let step = if daemon {
            ServerStep::Daemonize
        } else if daemon_child {
            ServerStep::Detach
        } else {
            ServerStep::LoadConfig
        };
        ServerRun { daemon_child, step }
    }

    /// The step that follows one that was done.
    pub open spec fn successor(self) -> ServerStep {
        match self.step {
            ServerStep::Daemonize => ServerStep::Done,
            ServerStep::Detach => ServerStep::LoadConfig,
            ServerStep::LoadConfig => ServerStep::ResolveConfig,
            ServerStep::ResolveConfig => ServerStep::InstallSignals,
            ServerStep::InstallSignals => ServerStep::SelectRouter,
            ServerStep::SelectRouter => ServerStep::Start,
            ServerStep::Start => if self.daemon_child {
                ServerStep::ReportStartup
            } else {
                ServerStep::PrintReady
            },
            ServerStep::ReportStartup => ServerStep::Wait,
            ServerStep::PrintReady => ServerStep::Wait,
            ServerStep::Wait => ServerStep::Shutdown,
            ServerStep::Shutdown => if self.daemon_child {
                ServerStep::ReportShutdown
            } else {
                ServerStep::Done
            },
            ServerStep::ReportShutdown => ServerStep::Done,
            ServerStep::Done => ServerStep::Done,
        }
    }

    fn following(&self) -> (step: ServerStep)
        ensures
            step == self.successor(),
    {
        match self.step {
            ServerStep::Daemonize => ServerStep::Done,
            ServerStep::Detach => ServerStep::LoadConfig,
            ServerStep::LoadConfig => ServerStep::ResolveConfig,
            ServerStep::ResolveConfig => ServerStep::InstallSignals,
            ServerStep::InstallSignals => ServerStep::SelectRouter,
            ServerStep::SelectRouter => ServerStep::Start,
            ServerStep::Start => {
                if self.daemon_child {
                    ServerStep::ReportStartup
                } else {
                    ServerStep::PrintReady
                }
            },
            ServerStep::ReportStartup => ServerStep::Wait,
            ServerStep::PrintReady => ServerStep::Wait,
            ServerStep::Wait => ServerStep::Shutdown,
            ServerStep::Shutdown => {
                if self.daemon_child {
                    ServerStep::ReportShutdown
                } else {
                    ServerStep::Done
                }
            },
            ServerStep::ReportShutdown => ServerStep::Done,
            ServerStep::Done => ServerStep::Done,
        }
    }

    /// Takes in how the present step went. The server ends with an exit code
    /// of zero, or with the description of its trouble.
    pub fn advance(&mut self, outcome: Result<(), String>) -> (r: Option<Result<i32, String>>)
        ensures
            final(self).daemon_child == old(self).daemon_child,
            match outcome {
                Ok(()) => {
                    &&& final(self).step == old(self).successor()
                    &&& r == if old(self).successor() == ServerStep::Done {
                        Some(Ok::<i32, String>(0))
                    } else {
                        None
                    }
                },
                Err(cause) => {
                    &&& final(self).step == ServerStep::Done
                    &&& r matches Some(Err(message))
                    &&& message@ == server_trouble(old(self).step, cause@)
                },
            },
    {
        match outcome {
            Ok(()) => {
                self.step = self.following();
                if self.step == ServerStep::Done {
                    Some(Ok(0))
                } else {
                    None
                }
            },
            Err(cause) => {
                let message = describe_trouble(self.step, cause);
                self.step = ServerStep::Done;
                Some(Err(message))
            },
        }
    }
}

/// A server tells that it is ready only once it was started, and stops only
/// once it was asked to.
pub proof fn readiness_follows_the_start(run: ServerRun)
    ensures
        run.successor() is PrintReady || run.successor() is ReportStartup ==> run.step is Start,
        run.successor() is Shutdown ==> run.step is Wait,
{
}

/// A configuration that can be read is used as it is. Only the default one may
/// be missing, and one that is there and cannot be read is always an error.
pub proof fn configurations_are_used(
    read: ConfigRead,
    explicit: bool,
    r: Result<Option<String>, String>,
)
    requires
        call_ensures(load_config, (read, explicit), r),
    ensures
        read matches ConfigRead::Text(text) ==> r == Ok::<Option<String>, String>(Some(text)),
        read is NotFound ==> (r is Ok <==> !explicit),
        read is NotFound && !explicit ==> r->Ok_0 is None,
        read is Failed ==> r is Err,
{
}

/// An argument names a configuration file alone or with its value, and no
/// argument of another name does.
pub proof fn asked_files_are_noticed(path: Seq<char>, name: Seq<char>)
    ensures
        names_cfgfile("--cfgfile"@),
        names_cfgfile("--cfgfile="@ + path),
        name.len() > 0 && name[0] != '-' ==> !names_cfgfile(name),
        name.len() > 2 && name[2] != 'c' ==> !names_cfgfile(name),
        name.len() > 9 && name[9] != '=' ==> !names_cfgfile(name),
        name.len() < 9 ==> !names_cfgfile(name),
{
    reveal_strlit("--cfgfile");
    reveal_strlit("--cfgfile=");
    assert("--cfgfile="@ =~= ("--cfgfile="@ + path).subrange(0, 10));
    if "--cfgfile="@.is_prefix_of(name) {
        assert("--cfgfile="@ == name.subrange(0, 10));
        assert(name.subrange(0, 10)[0] == name[0]);
        assert(name.subrange(0, 10)[2] == name[2]);
        assert(name.subrange(0, 10)[9] == name[9]);
    }
}

/// A server that is ready says where it listens and where its router is.
pub proof fn ready_servers_say_where(
    addresses: &Vec<String>,
    router: &str,
    line: String,
    address: Seq<char>,
)
    requires
        call_ensures(ready_line, (addresses, router), line),
        addresses.deep_view() == seq![address],
    ensures
        line@ == "ETSERVER_READY tcp="@ + address + " router="@ + router@ + "\n"@,
{
}

/// Addresses are listed with a comma between them, in their order.
pub proof fn addresses_are_listed(list: Seq<Seq<char>>, address: Seq<char>)
    requires
        list.len() > 0,
    ensures
        comma_joined(list.push(address)) == comma_joined(list) + seq![','] + address,
        comma_joined(seq![address]) == address,
{
    reveal_strlit(",");
    assert(list.push(address).drop_last() =~= list);
    assert(","@ =~= seq![',']);
}

/// A server comes up step by step and runs until it is asked to stop; only
/// then it shuts down. A parent starts its child and leaves the rest to it.
pub proof fn servers_come_up_in_order(run: ServerRun)
    ensures
        run.step == ServerStep::Daemonize ==> run.successor() == ServerStep::Done,
        run.step == ServerStep::Detach ==> run.successor() == ServerStep::LoadConfig,
        run.step == ServerStep::LoadConfig ==> run.successor() == ServerStep::ResolveConfig,
        run.step == ServerStep::ResolveConfig ==> run.successor() == ServerStep::InstallSignals,
        run.step == ServerStep::InstallSignals ==> run.successor() == ServerStep::SelectRouter,
        run.step == ServerStep::SelectRouter ==> run.successor() == ServerStep::Start,
        run.step == ServerStep::Start ==> run.successor() == if run.daemon_child {
            ServerStep::ReportStartup
        } else {
            ServerStep::PrintReady
        },
        run.step == ServerStep::ReportStartup || run.step == ServerStep::PrintReady
            ==> run.successor() == ServerStep::Wait,
        run.step == ServerStep::Wait ==> run.successor() == ServerStep::Shutdown,
        run.step == ServerStep::Shutdown ==> (run.successor() == ServerStep::Done
            <==> !run.daemon_child),
{
}

/// A server that got through leaves with zero, one that did not tells why,
/// and neither goes on.
pub proof fn servers_tell_how_they_ended()
    ensures
        forall|run: &mut ServerRun, cause: String, r: Option<Result<i32, String>>|
            #[trigger] call_ensures(ServerRun::advance, (run, Err(cause)), r) ==> (
            final(run).step == ServerStep::Done) && (r matches Some(Err(_))),
        forall|run: &mut ServerRun, r: Option<Result<i32, String>>|
            #[trigger] call_ensures(ServerRun::advance, (run, Ok(())), r) ==> (final(run).step
                == ServerStep::Done <==> r is Some) && (r is Some ==> r == Some(
                Ok::<i32, String>(0i32),
            )) && final(run).daemon_child == run.daemon_child,
        forall|daemon: bool, daemon_child: bool, run: ServerRun|
            #[trigger] call_ensures(ServerRun::new, (daemon, daemon_child), run) ==> (run.step
                == ServerStep::Daemonize <==> daemon) && (run.step == ServerStep::Detach <==> !daemon
                && daemon_child),
{
}

} // verus!
