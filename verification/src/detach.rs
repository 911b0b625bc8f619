//! Commands that outlive the launching shell.
use vstd::prelude::*;

use crate::text::push_text;

verus! {

/// Closes every descriptor but the standard ones, then becomes the command.
pub const CLOSE_AND_EXEC: &'static str = "\nfor path in /proc/self/fd/[3-9] /proc/self/fd/[1-9][0-9]* /dev/fd/[3-9] /dev/fd/[1-9][0-9]*; do\n    [ -e \"$path\" ] || continue\n    fd=${path##*/}\n    eval \"exec ${fd}>&-\" 2>/dev/null || :\ndone\nexec \"$@\"\n";

/// A command that starts a program without what this one holds open. A Unix
/// child goes through a shell that closes the descriptors; Windows hands over
/// only what is listed.
pub fn command(executable: &str, windows: bool) -> (r: (String, Vec<String>))
    ensures
        if windows {
            r.0@ == executable@ && r.1@.len() == 0
        } else {
            r.0@ == "/bin/sh"@ && r.1.deep_view() == seq![
                "-c"@,
                CLOSE_AND_EXEC@,
                "et-detached-child"@,
                executable@,
            ]
        },
{
    let mut args: Vec<String> = Vec::new();
    assert(args.deep_view() =~= Seq::<Seq<char>>::empty());
    if windows {
        return (executable.to_owned(), args);
    }
    push_text(&mut args, "-c");
    push_text(&mut args, CLOSE_AND_EXEC);
    push_text(&mut args, "et-detached-child");
    push_text(&mut args, executable);
    assert(args.deep_view() =~= seq![
        "-c"@,
        CLOSE_AND_EXEC@,
        "et-detached-child"@,
        executable@,
    ]);
    ("/bin/sh".to_owned(), args)
}

/// A program is started as it is named: on Windows by itself, and elsewhere as
/// the last argument of the shell that closes what this process holds open.
pub proof fn programs_are_started_detached(
    executable: &str,
    windows: bool,
    r: (String, Vec<String>),
)
    requires
        call_ensures(command, (executable, windows), r),
    ensures
        windows ==> r.0@ == executable@ && r.1@.len() == 0,
        !windows ==> r.0@ == "/bin/sh"@ && r.1@.len() == 4 && r.1@[0]@ == "-c"@ && r.1@.last()@
            == executable@,
{
    if !windows {
        assert(r.1.deep_view().len() == r.1@.len());
        assert(r.1.deep_view()[0] == r.1@[0]@);
        assert(r.1.deep_view()[3] == r.1@[3]@);
    }
}

} // verus!
