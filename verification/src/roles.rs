//! One program serves every role. Its name selects one, and a leading
//! argument is the fallback.
use vstd::prelude::*;

use crate::text::{chars_of, same_text, string_of};
use vstd::slice::slice_subrange;

verus! {

#[derive(Debug, Clone, Copy, PartialEq, Eq, Structural)]
pub enum Role {
    Client,
    Server,
    Terminal,
    Htm,
    Htmd,
}

/// The role that a program name selects.
pub open spec fn named_role(program: Seq<char>) -> Option<Role> {
    if program == "etserver"@ {
        Some(Role::Server)
    } else if program == "etterminal"@ {
        Some(Role::Terminal)
    } else if program == "htm"@ {
        Some(Role::Htm)
    } else if program == "htmd"@ {
        Some(Role::Htmd)
    } else {
        None
    }
}

/// The role that a leading argument selects.
pub open spec fn asked_role(argument: Seq<char>) -> Option<Role> {
    if argument == "server"@ {
        Some(Role::Server)
    } else if argument == "terminal"@ {
        Some(Role::Terminal)
    } else if argument == "htm"@ {
        Some(Role::Htm)
    } else if argument == "htmd"@ {
        Some(Role::Htmd)
    } else if argument == "client"@ {
        Some(Role::Client)
    } else {
        None
    }
}

/// The name of a program without the ending that Windows gives it.
pub open spec fn bare_program(program: Seq<char>, windows: bool) -> Seq<char> {
    if windows && program.len() >= 4 && program.skip(program.len() - 4) == ".exe"@ {
        program.take(program.len() - 4)
    } else {
        program
    }
}

/// The role, and how many arguments it took to say so.
pub open spec fn selected_role(
    program: Seq<char>,
    first: Option<Seq<char>>,
    windows: bool,
) -> (Role, usize) {
    match named_role(bare_program(program, windows)) {
        Some(role) => (role, 0),
        None => match first {
            Some(argument) => match asked_role(argument) {
                Some(role) => (role, 1),
                None => (Role::Client, 0),
            },
            None => (Role::Client, 0),
        },
    }
}

fn program_role(program: &str) -> (r: Option<Role>)
    ensures
        r == named_role(program@),
{
    if same_text(program, "etserver") {
        Some(Role::Server)
    } else if same_text(program, "etterminal") {
        Some(Role::Terminal)
    } else if same_text(program, "htm") {
        Some(Role::Htm)
    } else if same_text(program, "htmd") {
        Some(Role::Htmd)
    } else {
        None
    }
}

fn argument_role(argument: &str) -> (r: Option<Role>)
    ensures
        r == asked_role(argument@),
{
    if same_text(argument, "server") {
        Some(Role::Server)
    } else if same_text(argument, "terminal") {
        Some(Role::Terminal)
    } else if same_text(argument, "htm") {
        Some(Role::Htm)
    } else if same_text(argument, "htmd") {
        Some(Role::Htmd)
    } else if same_text(argument, "client") {
        Some(Role::Client)
    } else {
        None
    }
}

fn strip_exe(program: &str, windows: bool) -> (out: String)
    ensures
        out@ == bare_program(program@, windows),
{
    let chars = chars_of(program);
    let len: usize = chars.len();
    let ending = chars_of(".exe");
    proof {
        reveal_strlit(".exe");
    }
    if windows && len >= 4 {
        let tail = slice_subrange(chars.as_slice(), len - 4, len);
        assert(tail@ =~= program@.skip(len - 4));
        if crate::text::same_chars(tail, ending.as_slice()) {
            let head = slice_subrange(chars.as_slice(), 0, len - 4);
            assert(head@ =~= program@.take(len - 4));
            return string_of(head);
        }
    }
    program.to_owned()
}

/// The role that a program runs, and how many of its arguments were used up.
/// `first` is the first argument, where it is text.
pub fn dispatch(program: &str, first: Option<&str>, windows: bool) -> (r: (Role, usize))
    ensures
        r == selected_role(program@, first.deep_view(), windows),
{
    let bare = strip_exe(program, windows);
    match program_role(bare.as_str()) {
        Some(role) => (role, 0),
        None => match first {
            Some(argument) => match argument_role(argument) {
                Some(role) => (role, 1),
                None => (Role::Client, 0),
            },
            None => (Role::Client, 0),
        },
    }
}

/// A program's own name decides what it is. Under any other name its first
/// argument may, and is then taken away; without either it is the client.
pub proof fn programs_know_their_role(
    program: &str,
    first: Option<&str>,
    windows: bool,
    r: (Role, usize),
)
    requires
        call_ensures(dispatch, (program, first, windows), r),
    ensures
        program@ == "etserver"@ ==> r == (Role::Server, 0usize),
        program@ == "etterminal"@ ==> r == (Role::Terminal, 0usize),
        program@ == "htm"@ ==> r == (Role::Htm, 0usize),
        program@ == "htmd"@ ==> r == (Role::Htmd, 0usize),
        program@ == "et"@ && first is None ==> r == (Role::Client, 0usize),
        program@ == "et"@ && (first matches Some(word) && word@ == "server"@) ==> r == (
            Role::Server,
            1usize,
        ),
        program@ == "et"@ && (first matches Some(word) && word@ == "terminal"@) ==> r == (
            Role::Terminal,
            1usize,
        ),
        program@ == "et"@ && (first matches Some(word) && word@ == "client"@) ==> r == (
            Role::Client,
            1usize,
        ),
        r.1 <= 1,
        r.1 == 1 ==> first is Some,
        program@ == "etserver.exe"@ && windows ==> r == (Role::Server, 0usize),
        program@ == "etserver.exe"@ && !windows ==> r.1 == 1 || r.0 == Role::Client,
{
    reveal_strlit("etserver");
    reveal_strlit("etterminal");
    reveal_strlit("htm");
    reveal_strlit("htmd");
    reveal_strlit("et");
    reveal_strlit("server");
    reveal_strlit("terminal");
    reveal_strlit("client");
    reveal_strlit(".exe");
    reveal_strlit("etserver.exe");
    assert("server"@[0] == 's' && "server"@.len() == 6);
    assert("client"@[0] == 'c' && "client"@.len() == 6);
    assert("terminal"@.len() == 8 && "htm"@.len() == 3 && "htmd"@.len() == 4);
    assert("etserver"@.len() == 8 && "etterminal"@.len() == 10 && "et"@.len() == 2);
    if program@ == "etserver.exe"@ {
        assert(program@.skip(8) =~= ".exe"@);
        assert(program@.take(8) =~= "etserver"@);
    }
    if program@ == "etserver"@ || program@ == "etterminal"@ {
        assert(program@.skip(program@.len() - 4)[0] != '.');
    }
    if program@ == "htmd"@ {
        assert(program@.skip(0)[0] != '.');
    }
}

} // verus!
