//! The server in the background. It is started anew as a detached child; the
//! parent returns when the child acknowledges its pid file.
use vstd::prelude::*;

use crate::bytes::same_bytes;
use crate::error::joined;
use crate::text::{ascii, ascii_bytes, decimal, decimal_string, push_text, same_text};

verus! {

/// Where the pid file is kept.
pub const DEFAULT_PID_FILE: &'static str = "/var/run/etserver.pid";

/// The variable that asks the child for a status, and what it has to hold.
pub const STATUS_ENV: &'static str = "ET_SERVER_DAEMON_STATUS";

pub const STATUS_TOKEN: &'static str = "ready-v1";

/// How long the child may take.
pub const READY_TIMEOUT_SECONDS: u64 = 45;

/// The length of a status.
pub const STATUS_BYTES: usize = 4;

/// The pid file to use.
pub fn pid_file_path(explicit: Option<&str>) -> (path: String)
    ensures
        path@ == match explicit {
            Some(path) => path@,
            None => DEFAULT_PID_FILE@,
        },
{
    match explicit {
        Some(path) => path.to_owned(),
        None => DEFAULT_PID_FILE.to_owned(),
    }
}

/// The argument that the child gets for one of the parent.
pub open spec fn child_arg(arg: Seq<char>) -> Seq<char> {
    if arg == "--daemon"@ {
        "--daemon-child"@
    } else {
        arg
    }
}

/// The arguments of the child: the role, and those of the parent with the
/// request for a daemon turned into the mark of one.
pub open spec fn child_args(args: Seq<Seq<char>>) -> Seq<Seq<char>> {
    seq!["server"@] + Seq::new(args.len(), |i: int| child_arg(args[i]))
}

pub fn daemon_child_args(args: &Vec<String>) -> (out: Vec<String>)
    ensures
        out.deep_view() == child_args(args.deep_view()),
{
    let ghost wanted = child_args(args.deep_view());
    let mut out: Vec<String> = Vec::new();
    assert(out.deep_view() =~= Seq::<Seq<char>>::empty());
    push_text(&mut out, "server");
    let mut i: usize = 0;
    assert(out.deep_view() =~= wanted.take(1));
    while i < args.len()
        invariant
            i <= args@.len(),
            wanted == child_args(args.deep_view()),
            out.deep_view() == wanted.take(i + 1),
        decreases args@.len() - i,
    {
        if same_text(args[i].as_str(), "--daemon") {
            push_text(&mut out, "--daemon-child");
        } else {
            push_text(&mut out, args[i].as_str());
        }
        assert(wanted[i + 1] == child_arg(args@[i as int]@));
        assert(out.deep_view() =~= wanted.take(i + 2));
        i += 1;
    }
    assert(wanted.take(i + 1) =~= wanted);
    out
}

/// The child is no daemon request again: it does not start another child.
pub proof fn children_start_no_children(args: Seq<Seq<char>>)
    ensures
        forall|i: int|
            0 <= i < child_args(args).len() ==> #[trigger] child_args(args)[i] != "--daemon"@,
{
    reveal_strlit("--daemon");
    reveal_strlit("--daemon-child");
    reveal_strlit("server");
    assert("--daemon-child"@.len() != "--daemon"@.len());
    assert("server"@.len() != "--daemon"@.len());
}

/// The bytes that acknowledge the pid file.
pub fn status_frame() -> (frame: Vec<u8>)
    ensures
        frame@ == ascii("ETD1"@),
{
    ascii_bytes("ETD1")
}

/// Whether the child was asked for a status.
pub fn wants_status(value: Option<&str>) -> (r: bool)
    ensures
        r == (value matches Some(token) && token@ == STATUS_TOKEN@),
{
    match value {
        Some(token) => same_text(token, STATUS_TOKEN),
        None => false,
    }
}

/// Reads the status of a child: `bytes` is what came over its pipe, and
/// `cause` why the pipe ended, for a status that is cut short.
pub fn read_status(bytes: &[u8], cause: &str) -> (r: Result<(), String>)
    ensures
        if bytes@.len() < STATUS_BYTES {
            r matches Err(message) && message@ == "daemon status channel closed: "@ + cause@
        } else if bytes@.take(4) != ascii("ETD1"@) {
            r matches Err(message) && message@ == "malformed daemon startup status"@
        } else {
            r is Ok
        },
{
    if bytes.len() < STATUS_BYTES {
        return Err(joined("daemon status channel closed: ", cause));
    }
    let head = vstd::slice::slice_subrange(bytes, 0, 4);
    assert(head@ =~= bytes@.take(4));
    let frame = ascii_bytes("ETD1");
    if same_bytes(head, frame.as_slice()) {
        Ok(())
    } else {
        Err("malformed daemon startup status".to_owned())
    }
}

/// What became of the start of the child.
#[derive(Debug)]
pub enum DaemonEvent {
    NotLocated(String),
    NotResolved(String),
    NotStarted(String),
    NoStatusPipe,
    NoWorker(String),
    TimedOut,
    Status(Result<(), String>),
}

pub open spec fn daemon_words(event: DaemonEvent) -> Option<Seq<char>> {
    match event {
        DaemonEvent::NotLocated(cause) => Some("could not locate etserver executable: "@ + cause@),
        DaemonEvent::NotResolved(cause) => Some(
            "could not resolve etserver executable: "@ + cause@,
        ),
        DaemonEvent::NotStarted(cause) => Some("could not start background etserver: "@ + cause@),
        DaemonEvent::NoStatusPipe => Some("background etserver status pipe was not created"@),
        DaemonEvent::NoWorker(cause) => Some("could not start daemon status worker: "@ + cause@),
        DaemonEvent::TimedOut => Some("timed out waiting for background etserver to detach"@),
        DaemonEvent::Status(Err(cause)) => Some("background etserver did not detach: "@ + cause@),
        DaemonEvent::Status(Ok(())) => None,
    }
}

/// Whether the parent kills and reaps the child: one whose status never came,
/// or was no acknowledgement.
pub fn stops_child(event: &DaemonEvent) -> (r: bool)
    ensures
        r == (event is NoWorker || event is TimedOut || (event matches DaemonEvent::Status(status)
            && status is Err)),
{
    match event {
        DaemonEvent::NoWorker(_) => true,
        DaemonEvent::TimedOut => true,
        DaemonEvent::Status(Err(_)) => true,
        _ => false,
    }
}

/// How the start of the child ended.
pub fn spawn_detached(event: DaemonEvent) -> (r: Result<(), String>)
    ensures
        match (r, daemon_words(event)) {
            (Ok(()), None) => true,
            (Err(message), Some(words)) => message@ == words,
            _ => false,
        },
{
    match event {
        DaemonEvent::NotLocated(cause) => Err(
            joined("could not locate etserver executable: ", cause.as_str()),
        ),
        DaemonEvent::NotResolved(cause) => Err(
            joined("could not resolve etserver executable: ", cause.as_str()),
        ),
        DaemonEvent::NotStarted(cause) => Err(
            joined("could not start background etserver: ", cause.as_str()),
        ),
        DaemonEvent::NoStatusPipe => Err(
            "background etserver status pipe was not created".to_owned(),
        ),
        DaemonEvent::NoWorker(cause) => Err(
            joined("could not start daemon status worker: ", cause.as_str()),
        ),
        DaemonEvent::TimedOut => Err(
            "timed out waiting for background etserver to detach".to_owned(),
        ),
        DaemonEvent::Status(Err(cause)) => Err(
            joined("background etserver did not detach: ", cause.as_str()),
        ),
        DaemonEvent::Status(Ok(())) => Ok(()),
    }
}

/// What the detached child does once it leads a session of its own.
#[derive(Debug)]
pub struct DetachPlan {
    /// The pid file to write.
    pub pid_file: String,
    /// What to write to the standard output behind it.
    pub acknowledgement: Option<Vec<u8>>,
}

/// How a child finishes detaching: it records its pid, and acknowledges that
/// where it was asked to. `status` is what the variable for that holds.
pub fn detach_child(pid_file: Option<&str>, status: Option<&str>) -> (plan: DetachPlan)
    ensures
        plan.pid_file@ == match pid_file {
            Some(path) => path@,
            None => DEFAULT_PID_FILE@,
        },
        match plan.acknowledgement {
            Some(frame) => (status matches Some(token) && token@ == STATUS_TOKEN@) && frame@
                == ascii("ETD1"@),
            None => !(status matches Some(token) && token@ == STATUS_TOKEN@),
        },
{
    let acknowledgement = if wants_status(status) {
        Some(status_frame())
    } else {
        None
    };
    DetachPlan { pid_file: pid_file_path(pid_file), acknowledgement }
}

/// A parent takes the acknowledgement of its child for what it is, whatever
/// comes behind it.
pub proof fn acknowledgements_read_back(more: Seq<u8>)
    ensures
        (ascii("ETD1"@) + more).len() >= STATUS_BYTES,
        (ascii("ETD1"@) + more).take(4) == ascii("ETD1"@),
{
    reveal_strlit("ETD1");
    assert((ascii("ETD1"@) + more).take(4) =~= ascii("ETD1"@));
}

/// What the pid file holds.
pub fn pid_file_text(pid: u32) -> (text: String)
    ensures
        text@ == decimal(pid as nat) + "\n"@,
{
    joined(decimal_string(pid as u64).as_str(), "\n")
}

/// Why the pid file could not be written.
pub fn pid_file_error(opened: bool, path: &str, cause: &str) -> (out: String)
    ensures
        out@ == (if opened {
            "Error writing pidfile: "@
        } else {
            "Error opening pidfile for writing: "@
        }) + path@ + ": "@ + cause@,
{
    let mut out = if opened {
        "Error writing pidfile: ".to_owned()
    } else {
        "Error opening pidfile for writing: ".to_owned()
    };
    out.append(path);
    out.append(": ");
    out.append(cause);
    out
}

/// Where the detached server works. `drive` is the system drive of a Windows
/// system.
pub fn root_directory(windows: bool, drive: Option<&str>) -> (out: String)
    ensures
        out@ == if !windows {
            "/"@
        } else {
            match drive {
                Some(drive) => drive@ + "\\"@,
                None => "C:\\"@,
            }
        },
{
    if !windows {
        return "/".to_owned();
    }
    match drive {
        Some(drive) => joined(drive, "\\"),
        None => "C:\\".to_owned(),
    }
}

/// A child is started as a server, with all arguments of its parent in their
/// order; only the request for a daemon becomes the mark of one.
pub proof fn children_get_the_arguments(args: &Vec<String>, out: Vec<String>, i: int)
    requires
        call_ensures(daemon_child_args, (args,), out),
    ensures
        out@.len() == args@.len() + 1 && out@[0]@ == "server"@,
        0 <= i < args@.len() && args@[i]@ != "--daemon"@ ==> out@[i + 1]@ == args@[i]@,
        0 <= i < args@.len() && args@[i]@ == "--daemon"@ ==> out@[i + 1]@ == "--daemon-child"@,
{
    assert(out.deep_view().len() == out@.len());
    assert(out.deep_view()[0] == out@[0]@);
    if 0 <= i < args@.len() {
        assert(out.deep_view()[i + 1] == out@[i + 1]@);
        assert(args.deep_view()[i] == args@[i]@);
    }
}

/// The pid file is the one that was named, and a child that was asked for a
/// status acknowledges with what its parent understands.
pub proof fn children_detach_as_told(
    pid_file: Option<&str>,
    status: Option<&str>,
    plan: DetachPlan,
    bytes: &[u8],
    cause: &str,
    heard: Result<(), String>,
)
    requires
        call_ensures(detach_child, (pid_file, status), plan),
        plan.acknowledgement is Some ==> bytes@ == plan.acknowledgement->0@,
        call_ensures(read_status, (bytes, cause), heard),
    ensures
        pid_file is Some ==> plan.pid_file@ == pid_file->0@,
        plan.acknowledgement is Some ==> heard is Ok && status is Some,
        status is None ==> plan.acknowledgement is None,
        bytes@.len() < 4 ==> heard is Err,
{
    reveal_strlit("ETD1");
    if plan.acknowledgement is Some {
        assert(bytes@.take(4) =~= bytes@);
    }
}

/// A child that did not detach is stopped where it runs, and the reason is
/// told.
pub proof fn failed_children_are_stopped(event: DaemonEvent, stopped: bool, r: Result<(), String>)
    requires
        call_ensures(stops_child, (&event,), stopped),
        call_ensures(spawn_detached, (event,), r),
    ensures
        r is Ok <==> (event matches DaemonEvent::Status(status) && status is Ok),
        r is Ok ==> !stopped,
        event is TimedOut || event is NoWorker ==> stopped,
        event is NotLocated || event is NotResolved || event is NotStarted ==> !stopped,
{
}

/// The pid file holds the number of the process and the end of a line.
pub proof fn pid_files_hold_the_number(pid: u32, text: String)
    requires
        call_ensures(pid_file_text, (pid,), text),
    ensures
        text@ == decimal(pid as nat) + seq!['\n'],
{
    reveal_strlit("\n");
    assert("\n"@ =~= seq!['\n']);
}

/// The number goes into the file that was named, and failures name it too.
pub proof fn pid_files_are_named(
    explicit: &str,
    cause: &str,
    opened: bool,
    path: String,
    failed: String,
)
    requires
        call_ensures(pid_file_path, (Some(explicit),), path),
        call_ensures(pid_file_error, (opened, explicit, cause), failed),
    ensures
        path@ == explicit@,
        (explicit@ + ": "@ + cause@).len() < failed@.len(),
        failed@.skip(failed@.len() - (explicit@ + ": "@ + cause@).len()) == explicit@ + ": "@
            + cause@,
{
    let tail = explicit@ + ": "@ + cause@;
    reveal_strlit("Error writing pidfile: ");
    reveal_strlit("Error opening pidfile for writing: ");
    assert(failed@.skip(failed@.len() - tail.len()) =~= tail);
}

/// A detached server holds no directory but the root of its system, and only
/// the token of its parent makes it report.
pub proof fn servers_work_at_the_root(drive: &str, unix: String, windows: String, plain: String)
    requires
        call_ensures(root_directory, (false, Some(drive)), unix),
        call_ensures(root_directory, (true, Some(drive)), windows),
        call_ensures(root_directory, (true, None), plain),
    ensures
        unix@ == "/"@,
        windows@ == drive@.push('\\'),
        drive@ == "C:"@ ==> plain@ == windows@,
        forall|r: bool| #[trigger] call_ensures(wants_status, (None,), r) ==> !r,
        forall|token: &str, r: bool| #[trigger]
            call_ensures(wants_status, (Some(token),), r) ==> (r <==> token@ == "ready-v1"@),
{
    reveal_strlit("\\");
    reveal_strlit("C:");
    reveal_strlit("C:\\");
    assert(windows@ =~= drive@.push('\\'));
    if drive@ == "C:"@ {
        assert(plain@ =~= windows@);
    }
}

} // verus!
