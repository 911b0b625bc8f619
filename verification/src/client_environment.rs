//! The environment that the client asks the remote session to have.
use vstd::prelude::*;
use vstd::utf8::encode_utf8;

use crate::forward::{InitialPayload, PayloadModel};
use crate::name_map::{names, precedes, text_precedes, NameMap};
use crate::ssh_config::MAX_UNIX_SOCKET_PATH;
use crate::terminal_protocol::{
    is_environment_name, valid_environment_name, MAX_ENVIRONMENT, MAX_ENV_VALUE,
};
use crate::text::{chars_of, same_ignoring_case, same_text, spells_ignoring_case, starts_with};

verus! {

/// The longest text that the path of a bound Unix socket becomes: each of
/// its bytes may turn into a replacement character of three.
pub const MAX_LOSSY_FORWARD_ENV_VALUE: usize = MAX_UNIX_SOCKET_PATH * 3;

/// What a packet may hold on the way to the terminal.
#[derive(Debug, Clone, Copy)]
pub struct PacketLimits {
    /// The bytes of a packet without a payload.
    pub header: usize,
    /// The bytes of the longest packet.
    pub packet: usize,
}

/// The terminal type to ask for. Few hosts know Ghostty's.
pub open spec fn terminal_type(term: Option<Seq<char>>) -> Seq<char> {
    match term {
        None => "xterm-256color"@,
        Some(term) => if term == "xterm-ghostty"@ {
            "xterm-256color"@
        } else {
            term
        },
    }
}

pub fn normalize_terminal_type(term: Option<&str>) -> (out: String)
    ensures
        out@ == terminal_type(term.deep_view()),
{
    match term {
        None => "xterm-256color".to_owned(),
        Some(term) => {
            if same_text(term, "xterm-ghostty") {
                "xterm-256color".to_owned()
            } else {
                term.to_owned()
            }
        },
    }
}

/// The color hint that goes with Ghostty's terminal type, where it is one
/// of the values that are known.
pub open spec fn color_hint(term: Option<Seq<char>>, colorterm: Option<Seq<char>>) -> Option<
    Seq<char>,
> {
    match (term, colorterm) {
        (Some(term), Some(value)) => if term == "xterm-ghostty"@ && (value == "truecolor"@ || value
            == "24bit"@) {
            Some(value)
        } else {
            None
        },
        _ => None,
    }
}

pub fn ghostty_colorterm<'a>(term: Option<&str>, colorterm: Option<&'a str>) -> (r: Option<&'a str>)
    ensures
        r.deep_view() == color_hint(term.deep_view(), colorterm.deep_view()),
{
    match (term, colorterm) {
        (Some(term), Some(value)) => {
            if same_text(term, "xterm-ghostty") && (same_text(value, "truecolor") || same_text(
                value,
                "24bit",
            )) {
                Some(value)
            } else {
                None
            }
        },
        _ => None,
    }
}

/// The variables that decide a locale come before those that refine it.
pub open spec fn priority(name: Seq<char>) -> u8 {
    if name == "LC_ALL"@ {
        0
    } else if name == "LC_CTYPE"@ {
        1
    } else if name == "LANG"@ {
        2
    } else {
        3
    }
}

pub fn locale_priority(name: &str) -> (r: u8)
    ensures
        r == priority(name@),
{
    if same_text(name, "LC_ALL") {
        0
    } else if same_text(name, "LC_CTYPE") {
        1
    } else if same_text(name, "LANG") {
        2
    } else {
        3
    }
}

/// Whether one locale variable is sent rather than another.
pub open spec fn locale_before(a: Seq<char>, b: Seq<char>) -> bool {
    priority(a) < priority(b) || (priority(a) == priority(b) && precedes(a, b))
}

fn goes_before(a: &str, b: &str) -> (r: bool)
    ensures
        r == locale_before(a@, b@),
{
    let left = locale_priority(a);
    let right = locale_priority(b);
    left < right || (left == right && text_precedes(a, b))
}

/// What `SendEnv LANG LC_*` selects and the terminal accepts.
pub open spec fn is_locale(entry: (Seq<char>, Seq<char>)) -> bool {
    &&& entry.0 == "LANG"@ || "LC_"@.is_prefix_of(entry.0)
    &&& is_environment_name(entry.0)
    &&& encode_utf8(entry.1).len() <= MAX_ENV_VALUE
}

/// The locale variables of an environment.
pub open spec fn locale_of(variables: Seq<(Seq<char>, Seq<char>)>) -> Seq<(Seq<char>, Seq<char>)>
    decreases variables.len(),
{
    if variables.len() == 0 {
        Seq::empty()
    } else if is_locale(variables.last()) {
        locale_of(variables.drop_last()).push(variables.last())
    } else {
        locale_of(variables.drop_last())
    }
}

/// Whether no entry should stand before an earlier one.
pub open spec fn in_locale_order(entries: Seq<(Seq<char>, Seq<char>)>) -> bool {
    forall|i: int, j: int| #![trigger entries[i], entries[j]]
        0 <= i < j < entries.len() ==> !locale_before(entries[j].0, entries[i].0)
}

proof fn lemma_insert_multiset<T>(s: Seq<T>, p: int, x: T)
    requires
        0 <= p <= s.len(),
    ensures
        s.insert(p, x).to_multiset() == s.to_multiset().insert(x),
{
    broadcast use vstd::seq_lib::group_to_multiset_ensures;

    let t = s.insert(p, x);
    assert(t.remove(p) =~= s);
    assert(t[p] == x);
    assert(t.contains(x));
    assert(t.to_multiset() =~= s.to_multiset().insert(x));
}

proof fn lemma_locale_order(a: Seq<char>, b: Seq<char>, c: Seq<char>)
    requires
        locale_before(a, b),
        !locale_before(c, b),
    ensures
        !locale_before(c, a),
{
    if locale_before(c, a) && priority(c) == priority(a) && priority(a) == priority(b) {
        crate::name_map::lemma_precedes_transitive(c, a, b);
    }
}

fn is_locale_entry(name: &str, value: &str) -> (r: bool)
    ensures
        r == is_locale((name@, value@)),
{
    let chars = chars_of(name);
    let prefix = chars_of("LC_");
    (same_text(name, "LANG") || starts_with(chars.as_slice(), prefix.as_slice()))
        && valid_environment_name(name) && value.as_bytes().len() <= MAX_ENV_VALUE
}

/// The locale variables among those of the process, the ones that decide
/// most first.
pub fn ssh_locale_environment(variables: &Vec<(String, String)>) -> (out: Vec<(String, String)>)
    ensures
        out.deep_view().to_multiset() == locale_of(variables.deep_view()).to_multiset(),
        in_locale_order(out.deep_view()),
{
    let mut out: Vec<(String, String)> = Vec::new();
    let mut i: usize = 0;
    assert(out.deep_view() =~= locale_of(variables.deep_view().take(0)));
    while i < variables.len()
        invariant
            i <= variables@.len(),
            out.deep_view().to_multiset() == locale_of(
                variables.deep_view().take(i as int),
            ).to_multiset(),
            in_locale_order(out.deep_view()),
        decreases variables@.len() - i,
    {
        let ghost before = out.deep_view();
        let ghost all = variables.deep_view();
        let name = &variables[i].0;
        let value = &variables[i].1;
        assert(all.take(i + 1).drop_last() =~= all.take(i as int));
        assert(all.take(i + 1).last() == (name@, value@));
        if is_locale_entry(name.as_str(), value.as_str()) {
            let mut p: usize = 0;
            while p < out.len() && !goes_before(name.as_str(), out[p].0.as_str())
                invariant
                    p <= out@.len(),
                    before == out.deep_view(),
                    forall|k: int|
                        0 <= k < p ==> !locale_before(name@, (#[trigger] before[k]).0),
                decreases out@.len() - p,
            {
                assert(before[p as int].0 == out@[p as int].0@);
                p += 1;
            }
            proof {
                if p < out@.len() {
                    assert(before[p as int].0 == out@[p as int].0@);
                }
            }
            let entry = (name.clone(), value.clone());
            let ghost item = (name@, value@);
            out.insert(p, entry);
            proof {
                let after = out.deep_view();
                assert(after =~= before.insert(p as int, item));
                lemma_insert_multiset(before, p as int, item);
                assert(locale_of(all.take(i + 1)) =~= locale_of(all.take(i as int)).push(item));
                vstd::seq_lib::to_multiset_build(locale_of(all.take(i as int)), item);
                assert forall|a: int, b: int| #![trigger after[a], after[b]]
                    0 <= a < b < after.len() implies !locale_before(after[b].0, after[a].0) by {
                    let x = if a < p {
                        a
                    } else {
                        a - 1
                    };
                    let y = if b < p {
                        b
                    } else {
                        b - 1
                    };
                    if a == p {
                        assert(after[b] == before[y]);
                        if y > p {
                            assert(!locale_before(before[y].0, before[p as int].0));
                        } else {
                            lemma_not_before_itself(before[y].0);
                        }
                        lemma_locale_order(item.0, before[p as int].0, before[y].0);
                    } else if b == p {
                        assert(after[a] == before[x]);
                        assert(!locale_before(item.0, before[x].0));
                    } else {
                        assert(after[a] == before[x]);
                        assert(after[b] == before[y]);
                        assert(!locale_before(before[y].0, before[x].0));
                    }
                }
            }
        }
        i += 1;
    }
    assert(variables.deep_view().take(i as int) =~= variables.deep_view());
    out
}

proof fn lemma_not_before_itself(a: Seq<char>)
    ensures
        !locale_before(a, a),
{
    crate::name_map::lemma_precedes_self(a);
}

/// Gives every entry's name its value.
pub open spec fn with_values(
    map: Map<Seq<char>, usize>,
    entries: Seq<(Seq<char>, usize)>,
) -> Map<Seq<char>, usize>
    decreases entries.len(),
{
    if entries.len() == 0 {
        map
    } else {
        with_values(map, entries.drop_last()).insert(entries.last().0, entries.last().1)
    }
}

/// Reserves the space of a socket path for every name.
pub open spec fn with_sockets(
    map: Map<Seq<char>, usize>,
    forwarded: Seq<Seq<char>>,
) -> Map<Seq<char>, usize>
    decreases forwarded.len(),
{
    if forwarded.len() == 0 {
        map
    } else {
        with_sockets(map, forwarded.drop_last()).insert(
            forwarded.last(),
            MAX_LOSSY_FORWARD_ENV_VALUE,
        )
    }
}

/// The lengths of known values, with those of the color hint and of the
/// exported sockets.
pub open spec fn reserved_beside(
    known: Map<Seq<char>, usize>,
    colorterm: Option<Seq<char>>,
    forwarded: Seq<Seq<char>>,
) -> Map<Seq<char>, usize> {
    let colored = match colorterm {
        Some(value) => known.insert("COLORTERM"@, encode_utf8(value).len() as usize),
        None => known,
    };
    with_sockets(colored, forwarded)
}

/// How long the values of the names can become that something else than the
/// locale sets: those that are known, the color hint and the exported
/// sockets, a later one in place of an earlier one of the same name.
pub open spec fn reserved_lengths(
    existing: Seq<(Seq<char>, usize)>,
    colorterm: Option<Seq<char>>,
    forwarded: Seq<Seq<char>>,
) -> Map<Seq<char>, usize> {
    reserved_beside(with_values(Map::empty(), existing), colorterm, forwarded)
}

/// The names that the locale may not use, with the lengths of their values.
pub fn reserved_environment_value_lengths(
    existing: &[(&str, usize)],
    colorterm: Option<&str>,
    forward_environment: &[&str],
) -> (reserved: NameMap<usize>)
    ensures
        reserved.well_formed(),
        reserved@ == reserved_lengths(
            existing.deep_view(),
            colorterm.deep_view(),
            forward_environment.deep_view(),
        ),
{
    let mut reserved: NameMap<usize> = NameMap::new();
    let ghost known = existing.deep_view();
    let mut i: usize = 0;
    assert(known.take(0) =~= Seq::empty());
    while i < existing.len()
        invariant
            i <= existing@.len(),
            known == existing.deep_view(),
            reserved.well_formed(),
            reserved@ == with_values(Map::empty(), known.take(i as int)),
        decreases existing@.len() - i,
    {
        proof {
            assert(known.take(i + 1).drop_last() =~= known.take(i as int));
            assert(known.take(i + 1).last() == known[i as int]);
        }
        reserved.insert(existing[i].0.to_owned(), existing[i].1);
        i += 1;
    }
    assert(known.take(i as int) =~= known);
    if let Some(value) = colorterm {
        reserved.insert("COLORTERM".to_owned(), value.as_bytes().len());
    }
    let ghost colored = reserved@;
    let ghost forwarded = forward_environment.deep_view();
    let mut j: usize = 0;
    assert(forwarded.take(0) =~= Seq::empty());
    while j < forward_environment.len()
        invariant
            j <= forward_environment@.len(),
            forwarded == forward_environment.deep_view(),
            reserved.well_formed(),
            reserved@ == with_sockets(colored, forwarded.take(j as int)),
        decreases forward_environment@.len() - j,
    {
        proof {
            assert(forwarded.take(j + 1).drop_last() =~= forwarded.take(j as int));
            assert(forwarded.take(j + 1).last() == forwarded[j as int]);
        }
        reserved.insert(forward_environment[j].to_owned(), MAX_LOSSY_FORWARD_ENV_VALUE);
        j += 1;
    }
    assert(forwarded.take(j as int) =~= forwarded);
    reserved
}

/// How many names are left for the locale.
pub fn locale_environment_capacity(reserved: usize) -> (r: usize)
    ensures
        r == if reserved > MAX_ENVIRONMENT {
            0int
        } else {
            MAX_ENVIRONMENT - reserved
        },
{
    if reserved > MAX_ENVIRONMENT {
        0
    } else {
        MAX_ENVIRONMENT - reserved
    }
}

/// The bytes of a number in base 128.
pub open spec fn varint_bytes(value: nat) -> nat
    decreases value,
{
    if value < 128 {
        1
    } else {
        1 + varint_bytes(value / 128)
    }
}

/// The bytes of a string field: its tag, its length and itself.
pub open spec fn field_bytes(value_len: nat) -> nat {
    1 + varint_bytes(value_len) + value_len
}

fn varint_len(value: usize) -> (len: usize)
    ensures
        len == varint_bytes(value as nat),
        len <= 10,
{
    let mut left: usize = value;
    let mut len: usize = 1;
    while left >= 0x80
        invariant
            len + varint_bytes(left as nat) == varint_bytes(value as nat) + 1,
            1 <= len <= 10,
            left < 0x1_0000_0000_0000_0000,
            len == 2 ==> left < 0x200_0000_0000_0000,
            len == 3 ==> left < 0x4_0000_0000_0000,
            len == 4 ==> left < 0x800_0000_0000,
            len == 5 ==> left < 0x10_0000_0000,
            len == 6 ==> left < 0x2000_0000,
            len == 7 ==> left < 0x40_0000,
            len == 8 ==> left < 0x8000,
            len == 9 ==> left < 0x100,
            len == 10 ==> left < 2,
        decreases left,
    {
        left = left / 0x80;
        len += 1;
    }
    len
}

/// The bytes of a string field of so many bytes.
fn encoded_string_field_len(value_len: usize) -> (len: u128)
    ensures
        len == field_bytes(value_len as nat),
        len <= usize::MAX + 11,
{
    1 + varint_len(value_len) as u128 + value_len as u128
}

/// The bytes of a name and a value in the terminal's initialization.
pub open spec fn pair_bytes(entry: (Seq<char>, Seq<char>)) -> nat {
    field_bytes(encode_utf8(entry.0).len()) + field_bytes(encode_utf8(entry.1).len())
}

/// The bytes of reserved names, each with a value of its length.
pub open spec fn reserved_bytes(entries: Seq<(Seq<char>, usize)>) -> nat
    decreases entries.len(),
{
    if entries.len() == 0 {
        0
    } else {
        reserved_bytes(entries.drop_last()) + field_bytes(
            encode_utf8(entries.last().0).len(),
        ) + field_bytes(entries.last().1 as nat)
    }
}

/// What is chosen of candidates, and the bytes of the packet with it. A
/// candidate is passed over when its name is taken, when no place is left,
/// or when the packet would become too long.
pub open spec fn chosen(
    candidates: Seq<(Seq<char>, Seq<char>)>,
    reserved: Map<Seq<char>, usize>,
    capacity: int,
    start: int,
    limit: int,
) -> (Seq<(Seq<char>, Seq<char>)>, int)
    decreases candidates.len(),
{
    if candidates.len() == 0 {
        (Seq::empty(), start)
    } else {
        let before = chosen(candidates.drop_last(), reserved, capacity, start, limit);
        let entry = candidates.last();
        if !reserved.contains_key(entry.0) && !names(before.0, entry.0) && before.0.len() < capacity
            && before.1 + pair_bytes(entry) <= limit {
            (before.0.push(entry), before.1 + pair_bytes(entry))
        } else {
            before
        }
    }
}

/// How many names are left beside reserved ones.
pub open spec fn capacity_beside(reserved: int) -> int {
    if reserved > MAX_ENVIRONMENT {
        0
    } else {
        MAX_ENVIRONMENT - reserved
    }
}

/// What is chosen fits: the packet keeps within the limit, the terminal
/// gets no more names than it takes, and no name occurs twice.
pub proof fn chosen_environment_fits(
    candidates: Seq<(Seq<char>, Seq<char>)>,
    reserved: Map<Seq<char>, usize>,
    capacity: int,
    start: int,
    limit: int,
)
    requires
        0 <= capacity,
        start <= limit,
    ensures
        chosen(candidates, reserved, capacity, start, limit).0.len() <= capacity,
        start <= chosen(candidates, reserved, capacity, start, limit).1 <= limit,
        forall|i: int|
            0 <= i < chosen(candidates, reserved, capacity, start, limit).0.len()
                ==> !reserved.contains_key(
                (#[trigger] chosen(candidates, reserved, capacity, start, limit).0[i]).0,
            ),
        forall|i: int, j: int|
            0 <= i < j < chosen(candidates, reserved, capacity, start, limit).0.len()
                ==> (#[trigger] chosen(candidates, reserved, capacity, start, limit).0[i]).0 != (
            #[trigger] chosen(candidates, reserved, capacity, start, limit).0[j]).0,
    decreases candidates.len(),
{
    if candidates.len() > 0 {
        chosen_environment_fits(candidates.drop_last(), reserved, capacity, start, limit);
    }
}

/// Where a name occurs more than once among candidates, what is chosen of it
/// stands before everything that is passed over: an entry that was chosen
/// stays chosen, whatever follows.
pub proof fn earlier_candidates_win(
    first: Seq<(Seq<char>, Seq<char>)>,
    later: Seq<(Seq<char>, Seq<char>)>,
    reserved: Map<Seq<char>, usize>,
    capacity: int,
    start: int,
    limit: int,
)
    ensures
        chosen(first, reserved, capacity, start, limit).0.is_prefix_of(
            chosen(first + later, reserved, capacity, start, limit).0,
        ),
    decreases later.len(),
{
    if later.len() == 0 {
        assert(first + later =~= first);
    } else {
        earlier_candidates_win(first, later.drop_last(), reserved, capacity, start, limit);
        assert((first + later).drop_last() =~= first + later.drop_last());
        let kept = chosen(first, reserved, capacity, start, limit).0;
        let before = chosen(first + later.drop_last(), reserved, capacity, start, limit).0;
        let after = chosen(first + later, reserved, capacity, start, limit).0;
        assert(kept =~= after.subrange(0, kept.len() as int)) by {
            assert(kept =~= before.subrange(0, kept.len() as int));
        }
    }
}

fn has_name(entries: &Vec<(String, String)>, name: &str) -> (r: bool)
    ensures
        r == names(entries.deep_view(), name@),
{
    let ghost all = entries.deep_view();
    let mut i: usize = 0;
    while i < entries.len()
        invariant
            i <= entries@.len(),
            all == entries.deep_view(),
            forall|k: int| 0 <= k < i ==> (#[trigger] all[k]).0 != name@,
        decreases entries@.len() - i,
    {
        assert(all[i as int].0 == entries@[i as int].0@);
        if same_text(entries[i].0.as_str(), name) {
            return true;
        }
        i += 1;
    }
    false
}

/// Chooses from candidates what the terminal's initialization has room for
/// beside the reserved names. Where those alone make the packet too long,
/// the length that it would have is the error.
pub fn bounded_locale_environment(
    candidates: &Vec<(String, String)>,
    reserved: &NameMap<usize>,
    limits: PacketLimits,
) -> (r: Result<Vec<(String, String)>, usize>)
    requires
        reserved.well_formed(),
        limits.packet < usize::MAX,
    ensures
        ({
            let start = limits.header + reserved_bytes(reserved.entries.deep_view());
            match r {
                Ok(selected) => start <= limits.packet && selected.deep_view() == chosen(
                    candidates.deep_view(),
                    reserved@,
                    capacity_beside(reserved.entries@.len() as int),
                    start,
                    limits.packet as int,
                ).0,
                Err(length) => start > limits.packet && length == if start > usize::MAX {
                    usize::MAX as int
                } else {
                    start
                },
            }
        }),
{
    let ghost taken = reserved.entries.deep_view();
    let ghost start = limits.header + reserved_bytes(taken);
    let mut packet_len: u128 = limits.header as u128;
    let most: u128 = usize::MAX as u128;
    let mut i: usize = 0;
    assert(taken.take(0) =~= Seq::empty());
    while i < reserved.entries.len()
        invariant
            i <= reserved.entries@.len(),
            taken == reserved.entries.deep_view(),
            most == usize::MAX,
            packet_len <= most,
            packet_len == if limits.header + reserved_bytes(taken.take(i as int)) > most {
                most as int
            } else {
                limits.header + reserved_bytes(taken.take(i as int))
            },
        decreases reserved.entries@.len() - i,
    {
        proof {
            assert(taken.take(i + 1).drop_last() =~= taken.take(i as int));
            assert(taken.take(i + 1).last() == taken[i as int]);
            assert(taken[i as int].0 == reserved.entries@[i as int].0@);
        }
        let name_len = encoded_string_field_len(reserved.entries[i].0.as_str().as_bytes().len());
        let value_len = encoded_string_field_len(reserved.entries[i].1);
        let total = packet_len + name_len + value_len;
        packet_len = if total > most {
            most
        } else {
            total
        };
        i += 1;
    }
    assert(taken.take(i as int) =~= taken);
    if packet_len > limits.packet as u128 {
        return Err(packet_len as usize);
    }
    let capacity = locale_environment_capacity(reserved.len());
    let mut selected: Vec<(String, String)> = Vec::new();
    let ghost all = candidates.deep_view();
    let mut k: usize = 0;
    assert(all.take(0) =~= Seq::empty());
    assert(selected.deep_view() =~= Seq::empty());
    while k < candidates.len()
        invariant
            k <= candidates@.len(),
            all == candidates.deep_view(),
            reserved.well_formed(),
            packet_len <= limits.packet,
            (selected.deep_view(), packet_len as int) == chosen(
                all.take(k as int),
                reserved@,
                capacity as int,
                start,
                limits.packet as int,
            ),
        decreases candidates@.len() - k,
    {
        let name = &candidates[k].0;
        let value = &candidates[k].1;
        let ghost before = selected.deep_view();
        proof {
            assert(all.take(k + 1).drop_last() =~= all.take(k as int));
            assert(all.take(k + 1).last() == (name@, value@));
        }
        if !reserved.contains_key(name.as_str()) && !has_name(&selected, name.as_str())
            && selected.len() < capacity {
            let addition = encoded_string_field_len(name.as_str().as_bytes().len())
                + encoded_string_field_len(value.as_str().as_bytes().len());
            if packet_len + addition <= limits.packet as u128 {
                packet_len = packet_len + addition;
                selected.push((name.clone(), value.clone()));
                assert(selected.deep_view() =~= before.push((name@, value@)));
            }
        }
        k += 1;
    }
    assert(all.take(k as int) =~= all);
    Ok(selected)
}

/// Variables of an environment, each in place of an earlier one of its name.
pub open spec fn extended(
    map: Map<Seq<char>, Seq<char>>,
    entries: Seq<(Seq<char>, Seq<char>)>,
) -> Map<Seq<char>, Seq<char>>
    decreases entries.len(),
{
    if entries.len() == 0 {
        map
    } else {
        extended(map, entries.drop_last()).insert(entries.last().0, entries.last().1)
    }
}

/// The environment with a color hint, where there is one.
pub open spec fn colored(
    map: Map<Seq<char>, Seq<char>>,
    colorterm: Option<Seq<char>>,
) -> Map<Seq<char>, Seq<char>> {
    match colorterm {
        Some(value) => map.insert("COLORTERM"@, value),
        None => map,
    }
}

/// Adds the variables, and then the color hint, to an environment.
pub fn extend_environment(
    environment: &mut NameMap<String>,
    entries: &Vec<(String, String)>,
    colorterm: Option<&str>,
)
    requires
        old(environment).well_formed(),
    ensures
        final(environment).well_formed(),
        final(environment)@ == colored(
            extended(old(environment)@, entries.deep_view()),
            colorterm.deep_view(),
        ),
{
    let ghost start = environment@;
    let ghost all = entries.deep_view();
    let mut i: usize = 0;
    assert(all.take(0) =~= Seq::empty());
    while i < entries.len()
        invariant
            i <= entries@.len(),
            all == entries.deep_view(),
            environment.well_formed(),
            environment@ == extended(start, all.take(i as int)),
        decreases entries@.len() - i,
    {
        proof {
            assert(all.take(i + 1).drop_last() =~= all.take(i as int));
            assert(all.take(i + 1).last() == all[i as int]);
            assert(all[i as int] == (entries@[i as int].0@, entries@[i as int].1@));
        }
        environment.insert(entries[i].0.clone(), entries[i].1.clone());
        i += 1;
    }
    assert(all.take(i as int) =~= all);
    if let Some(value) = colorterm {
        environment.insert("COLORTERM".to_owned(), value.to_owned());
    }
}

/// What a jumphost is sent: the payload, marked for it, with the locale and
/// the color hint.
pub open spec fn jump_payload(
    payload: PayloadModel,
    locale: Seq<(Seq<char>, Seq<char>)>,
    colorterm: Option<Seq<char>>,
) -> PayloadModel {
    PayloadModel {
        jumphost: Some(true),
        environmentvariables: colored(extended(payload.environmentvariables, locale), colorterm),
        ..payload
    }
}

/// The environment without the variables that have the names of entries.
pub open spec fn without(
    map: Map<Seq<char>, Seq<char>>,
    entries: Seq<(Seq<char>, Seq<char>)>,
) -> Map<Seq<char>, Seq<char>>
    decreases entries.len(),
{
    if entries.len() == 0 {
        map
    } else {
        without(map, entries.skip(1)).remove(entries[0].0)
    }
}

/// What is left of the payload for a jumphost when only the first `n` of the
/// locale stay in it.
pub open spec fn trimmed_payload(
    payload: PayloadModel,
    locale: Seq<(Seq<char>, Seq<char>)>,
    colorterm: Option<Seq<char>>,
    n: int,
) -> PayloadModel {
    let whole = jump_payload(payload, locale, colorterm);
    PayloadModel {
        environmentvariables: without(whole.environmentvariables, locale.skip(n)),
        ..whole
    }
}

/// Whether a measure says that a payload takes so many bytes.
pub open spec fn tells<M: Fn(&InitialPayload) -> usize>(
    measure: M,
    payload: PayloadModel,
    length: usize,
) -> bool {
    exists|p: InitialPayload|
        #[trigger] call_ensures(measure, (&p,), length) && p.well_formed() && p.deep_view()
            == payload
}

/// Whether the payload was measured with the first `n` of the variables, and
/// was too long.
pub open spec fn too_long_with<M: Fn(&InitialPayload) -> usize>(
    measure: M,
    payload: PayloadModel,
    locale: Seq<(Seq<char>, Seq<char>)>,
    colorterm: Option<Seq<char>>,
    limit: usize,
    n: int,
) -> bool {
    exists|length: usize|
        length > limit && #[trigger] tells(
            measure,
            trimmed_payload(payload, locale, colorterm, n),
            length,
        )
}

/// Whether `kept` is what stays of a locale: the longest part of its
/// beginning with which the packet was not too long. Without such a part
/// nothing stays, and the length of the packet is the error.
pub open spec fn jump_bounded<M: Fn(&InitialPayload) -> usize>(
    measure: M,
    payload: PayloadModel,
    locale: Seq<(Seq<char>, Seq<char>)>,
    colorterm: Option<Seq<char>>,
    limit: usize,
    kept: Seq<(Seq<char>, Seq<char>)>,
    r: Result<(), usize>,
) -> bool {
    &&& kept.len() <= locale.len()
    &&& kept == locale.take(kept.len() as int)
    &&& forall|n: int|
        kept.len() < n <= locale.len() ==> #[trigger] too_long_with(
            measure,
            payload,
            locale,
            colorterm,
            limit,
            n,
        )
    &&& match r {
        Ok(()) => exists|length: usize|
            length <= limit && #[trigger] tells(
                measure,
                trimmed_payload(payload, locale, colorterm, kept.len() as int),
                length,
            ),
        Err(length) => kept.len() == 0 && length > limit && tells(
            measure,
            trimmed_payload(payload, locale, colorterm, 0),
            length,
        ),
    }
}

/// Drops variables from the end of the locale until the packet for the
/// jumphost is short enough. `measure` gives the length of the packet that
/// holds a payload. Where the packet is too long without any of them, its
/// length is the error.
pub fn bound_jumphost_locale_environment<M: Fn(&InitialPayload) -> usize>(
    payload: &InitialPayload,
    locale: &mut Vec<(String, String)>,
    colorterm: Option<&str>,
    limits: PacketLimits,
    measure: &M,
) -> (r: Result<(), usize>)
    requires
        payload.well_formed(),
        forall|p: &InitialPayload| p.well_formed() ==> #[trigger] call_requires(*measure, (p,)),
    ensures
        jump_bounded(
            *measure,
            payload.deep_view(),
            old(locale).deep_view(),
            colorterm.deep_view(),
            limits.packet,
            final(locale).deep_view(),
            r,
        ),
{
    let ghost before = locale.deep_view();
    let ghost hint = colorterm.deep_view();
    let ghost start = payload.deep_view();
    let mut modeled = payload.clone();
    modeled.jumphost = Some(true);
    extend_environment(&mut modeled.environmentvariables, locale, colorterm);
    assert(before.take(locale@.len() as int) =~= before);
    assert(before.skip(locale@.len() as int) =~= Seq::empty());
    loop
        invariant
            before == old(locale).deep_view(),
            hint == colorterm.deep_view(),
            start == payload.deep_view(),
            forall|p: &InitialPayload| p.well_formed() ==> #[trigger] call_requires(*measure, (p,)),
            locale@.len() <= before.len(),
            locale.deep_view() == before.take(locale@.len() as int),
            modeled.well_formed(),
            modeled.deep_view() == trimmed_payload(start, before, hint, locale@.len() as int),
            forall|n: int|
                locale@.len() < n <= before.len() ==> #[trigger] too_long_with(
                    *measure,
                    start,
                    before,
                    hint,
                    limits.packet,
                    n,
                ),
        decreases locale@.len(),
    {
        let packet_len = (*measure)(&modeled);
        let ghost n = locale@.len() as int;
        assert(tells(*measure, trimmed_payload(start, before, hint, n), packet_len));
        if packet_len <= limits.packet {
            return Ok(());
        }
        let ghost full = locale.deep_view();
        match locale.pop() {
            Some((name, _)) => {
                proof {
                    assert(locale.deep_view() =~= full.drop_last());
                    assert(locale.deep_view() =~= before.take(n - 1));
                    assert(full[n - 1].0 == name@);
                    assert(before.skip(n - 1).skip(1) =~= before.skip(n));
                    assert(before.skip(n - 1)[0].0 == name@);
                    assert(too_long_with(*measure, start, before, hint, limits.packet, n));
                }
                modeled.environmentvariables.remove(name.as_str());
            },
            None => {
                return Err(packet_len);
            },
        }
    }
}

/// Whether the names of a locale are new: none of them occurs twice, in the
/// payload or as that of the color hint.
pub open spec fn are_new_names(
    payload: PayloadModel,
    locale: Seq<(Seq<char>, Seq<char>)>,
) -> bool {
    &&& forall|i: int, j: int| #![trigger locale[i], locale[j]]
        0 <= i < j < locale.len() ==> locale[i].0 != locale[j].0
    &&& forall|i: int| #![trigger locale[i]]
        0 <= i < locale.len() ==> !payload.environmentvariables.contains_key(locale[i].0)
            && locale[i].0 != "COLORTERM"@
}

proof fn lemma_extended_keys(
    map: Map<Seq<char>, Seq<char>>,
    entries: Seq<(Seq<char>, Seq<char>)>,
    name: Seq<char>,
)
    ensures
        extended(map, entries).contains_key(name) == (map.contains_key(name) || names(
            entries,
            name,
        )),
    decreases entries.len(),
{
    if entries.len() > 0 {
        lemma_extended_keys(map, entries.drop_last(), name);
        if names(entries, name) && entries.last().0 != name {
            let i = choose|i: int| 0 <= i < entries.len() && (#[trigger] entries[i]).0 == name;
            assert(entries.drop_last()[i].0 == name);
        }
        if names(entries.drop_last(), name) {
            let i = choose|i: int|
                0 <= i < entries.len() - 1 && (#[trigger] entries.drop_last()[i]).0 == name;
            assert(entries[i].0 == name);
        }
        if entries.last().0 == name {
            assert(entries[entries.len() - 1].0 == name);
        }
    }
}

/// What a jumphost is measured with is what it is sent: a locale of new
/// names, cut after its first `n` variables, leaves the payload that these
/// `n` variables alone make.
pub proof fn trimming_leaves_the_payload_of_the_kept(
    payload: PayloadModel,
    locale: Seq<(Seq<char>, Seq<char>)>,
    colorterm: Option<Seq<char>>,
    n: int,
)
    requires
        are_new_names(payload, locale),
        0 <= n <= locale.len(),
    ensures
        trimmed_payload(payload, locale, colorterm, n) == jump_payload(
            payload,
            locale.take(n),
            colorterm,
        ),
    decreases locale.len() - n,
{
    let map = payload.environmentvariables;
    if n == locale.len() {
        assert(locale.skip(n) =~= Seq::empty());
        assert(locale.take(n) =~= locale);
    } else {
        trimming_leaves_the_payload_of_the_kept(payload, locale, colorterm, n + 1);
        assert(locale.skip(n).skip(1) =~= locale.skip(n + 1));
        assert(locale.skip(n)[0] == locale[n]);
        let part = locale.take(n);
        assert(locale.take(n + 1).drop_last() =~= part);
        assert(locale.take(n + 1).last() == locale[n]);
        let name = locale[n].0;
        lemma_extended_keys(map, part, name);
        assert(!names(part, name)) by {
            if names(part, name) {
                let i = choose|i: int| 0 <= i < part.len() && (#[trigger] part[i]).0 == name;
                assert(locale[i].0 == name);
            }
        }
        let kept = extended(map, part);
        assert(kept.insert(name, locale[n].1).remove(name) =~= kept);
        assert(colored(kept.insert(name, locale[n].1), colorterm).remove(name) =~= colored(
            kept,
            colorterm,
        ));
    }
}

/// Whether a name stands among entries, whatever its case.
pub open spec fn names_ignoring_case<T>(entries: Seq<(Seq<char>, T)>, name: Seq<char>) -> bool {
    exists|i: int|
        0 <= i < entries.len() && same_ignoring_case((#[trigger] entries[i]).0, name)
}

/// What of an explicit environment a Windows session gets. Names there have
/// no case: the first of several wins, and neither `TERM` nor a reserved
/// name is taken.
pub open spec fn windows_candidates(
    set_env: Seq<(Seq<char>, Seq<char>)>,
    reserved: Seq<(Seq<char>, usize)>,
) -> Seq<(Seq<char>, Seq<char>)>
    decreases set_env.len(),
{
    if set_env.len() == 0 {
        Seq::empty()
    } else {
        let before = windows_candidates(set_env.drop_last(), reserved);
        let entry = set_env.last();
        if same_ignoring_case(entry.0, "TERM"@) || names_ignoring_case(reserved, entry.0)
            || names_ignoring_case(before, entry.0) {
            before
        } else {
            before.push(entry)
        }
    }
}

fn same_name_ignoring_case(a: &str, b: &str) -> (r: bool)
    ensures
        r == same_ignoring_case(a@, b@),
{
    let left = chars_of(a);
    spells_ignoring_case(left.as_slice(), b)
}

fn has_name_ignoring_case(entries: &Vec<(String, String)>, name: &str) -> (r: bool)
    ensures
        r == names_ignoring_case(entries.deep_view(), name@),
{
    let ghost all = entries.deep_view();
    let mut i: usize = 0;
    while i < entries.len()
        invariant
            i <= entries@.len(),
            all == entries.deep_view(),
            forall|k: int| 0 <= k < i ==> !same_ignoring_case((#[trigger] all[k]).0, name@),
        decreases entries@.len() - i,
    {
        assert(all[i as int].0 == entries@[i as int].0@);
        if same_name_ignoring_case(entries[i].0.as_str(), name) {
            return true;
        }
        i += 1;
    }
    false
}

fn reserves_ignoring_case(reserved: &NameMap<usize>, name: &str) -> (r: bool)
    ensures
        r == names_ignoring_case(reserved.entries.deep_view(), name@),
{
    let ghost all = reserved.entries.deep_view();
    let mut i: usize = 0;
    while i < reserved.entries.len()
        invariant
            i <= reserved.entries@.len(),
            all == reserved.entries.deep_view(),
            forall|k: int| 0 <= k < i ==> !same_ignoring_case((#[trigger] all[k]).0, name@),
        decreases reserved.entries@.len() - i,
    {
        assert(all[i as int].0 == reserved.entries@[i as int].0@);
        if same_name_ignoring_case(reserved.entries[i].0.as_str(), name) {
            return true;
        }
        i += 1;
    }
    false
}

/// What of an explicit environment may go to a session that is no POSIX
/// shell.
pub fn windows_environment(
    set_env: &Vec<(String, String)>,
    reserved: &NameMap<usize>,
) -> (out: Vec<(String, String)>)
    ensures
        out.deep_view() == windows_candidates(set_env.deep_view(), reserved.entries.deep_view()),
{
    let ghost all = set_env.deep_view();
    let ghost taken = reserved.entries.deep_view();
    let mut out: Vec<(String, String)> = Vec::new();
    let mut i: usize = 0;
    assert(all.take(0) =~= Seq::empty());
    assert(out.deep_view() =~= Seq::empty());
    while i < set_env.len()
        invariant
            i <= set_env@.len(),
            all == set_env.deep_view(),
            taken == reserved.entries.deep_view(),
            out.deep_view() == windows_candidates(all.take(i as int), taken),
        decreases set_env@.len() - i,
    {
        let name = &set_env[i].0;
        let value = &set_env[i].1;
        let ghost before = out.deep_view();
        proof {
            assert(all.take(i + 1).drop_last() =~= all.take(i as int));
            assert(all.take(i + 1).last() == (name@, value@));
        }
        if !same_name_ignoring_case(name.as_str(), "TERM") && !reserves_ignoring_case(
            reserved,
            name.as_str(),
        ) && !has_name_ignoring_case(&out, name.as_str()) {
            out.push((name.clone(), value.clone()));
            assert(out.deep_view() =~= before.push((name@, value@)));
        }
        i += 1;
    }
    assert(all.take(i as int) =~= all);
    out
}

/// The explicit environment without `TERM`, which has a place of its own,
/// and then the locale.
pub open spec fn posix_candidates(
    set_env: Seq<(Seq<char>, Seq<char>)>,
    locale: Seq<(Seq<char>, Seq<char>)>,
) -> Seq<(Seq<char>, Seq<char>)> {
    set_env.filter(|entry: (Seq<char>, Seq<char>)| entry.0 != "TERM"@) + locale
}

/// What may go to a POSIX session, explicit variables first.
pub fn posix_environment(
    set_env: &Vec<(String, String)>,
    locale: Vec<(String, String)>,
) -> (out: Vec<(String, String)>)
    ensures
        out.deep_view() == posix_candidates(set_env.deep_view(), locale.deep_view()),
{
    let ghost all = set_env.deep_view();
    let ghost inherited = locale.deep_view();
    let ghost kept = |entry: (Seq<char>, Seq<char>)| entry.0 != "TERM"@;
    let mut out: Vec<(String, String)> = Vec::new();
    let mut i: usize = 0;
    proof {
        reveal(Seq::filter);
        assert(all.take(0) =~= Seq::empty());
        assert(out.deep_view() =~= all.take(0).filter(kept));
    }
    while i < set_env.len()
        invariant
            i <= set_env@.len(),
            all == set_env.deep_view(),
            kept == (|entry: (Seq<char>, Seq<char>)| entry.0 != "TERM"@),
            out.deep_view() == all.take(i as int).filter(kept),
        decreases set_env@.len() - i,
    {
        let name = &set_env[i].0;
        let value = &set_env[i].1;
        let ghost before = out.deep_view();
        proof {
            reveal(Seq::filter);
            assert(all.take(i + 1).drop_last() =~= all.take(i as int));
            assert(all.take(i + 1).last() == (name@, value@));
        }
        if !same_text(name.as_str(), "TERM") {
            out.push((name.clone(), value.clone()));
            assert(out.deep_view() =~= before.push((name@, value@)));
        }
        i += 1;
    }
    assert(all.take(i as int) =~= all);
    let ghost explicit = out.deep_view();
    let mut rest = locale;
    out.append(&mut rest);
    assert(out.deep_view() =~= explicit + inherited);
    out
}

/// A terminal type is passed on as it is, except that Ghostty's own and a
/// missing one become the common one. Only Ghostty's color hint is passed on,
/// and only one that means true color.
pub proof fn terminal_types_are_passed_on(
    term: Option<&str>,
    shown: String,
    colorterm: Option<&str>,
    hint: Option<&str>,
)
    requires
        call_ensures(normalize_terminal_type, (term,), shown),
        call_ensures(ghostty_colorterm, (term, colorterm), hint),
    ensures
        (term matches Some(name) && name@ != "xterm-ghostty"@) ==> shown@ == term->0@
            && hint is None,
        (term matches Some(name) && name@ == "xterm-ghostty"@) ==> shown@ == "xterm-256color"@ && (
        hint is Some <==> (colorterm matches Some(value) && (value@ == "truecolor"@ || value@
            == "24bit"@))),
        term is None ==> shown@ == "xterm-256color"@ && hint is None,
        hint is Some ==> colorterm is Some && hint->0@ == colorterm->0@,
{
}

/// A variable that is new, finds a place and fits is chosen behind the others
/// and takes its bytes; one that does not is passed over, and changes nothing
/// for those behind it.
pub proof fn fitting_candidates_are_chosen(
    candidates: Seq<(Seq<char>, Seq<char>)>,
    entry: (Seq<char>, Seq<char>),
    reserved: Map<Seq<char>, usize>,
    capacity: int,
    start: int,
    limit: int,
)
    ensures
        ({
            let before = chosen(candidates, reserved, capacity, start, limit);
            let after = chosen(candidates.push(entry), reserved, capacity, start, limit);
            let taken = reserved.contains_key(entry.0) || exists|i: int|
                0 <= i < before.0.len() && (#[trigger] before.0[i]).0 == entry.0;
            if !taken && before.0.len() < capacity && before.1 + pair_bytes(entry) <= limit {
                after == (before.0.push(entry), before.1 + pair_bytes(entry))
            } else {
                after == before
            }
        }),
        candidates.len() == 0 ==> chosen(candidates, reserved, capacity, start, limit).0.len() == 0
            && chosen(candidates, reserved, capacity, start, limit).1 == start,
{
    assert(candidates.push(entry).drop_last() =~= candidates);
}

/// A variable takes its own bytes, a tag and a length for its name and for
/// its value. The length takes one byte for less than 128 bytes, and two for
/// less than 16384.
pub proof fn variables_take_their_bytes(entry: (Seq<char>, Seq<char>))
    ensures
        encode_utf8(entry.0).len() < 128 && encode_utf8(entry.1).len() < 128 ==> pair_bytes(entry)
            == encode_utf8(entry.0).len() + encode_utf8(entry.1).len() + 4,
        encode_utf8(entry.0).len() < 128 && 128 <= encode_utf8(entry.1).len() < 16384
            ==> pair_bytes(entry) == encode_utf8(entry.0).len() + encode_utf8(entry.1).len() + 5,
{
    reveal_with_fuel(varint_bytes, 3);
}

/// A session gets every variable that was chosen, each under its name, and
/// keeps all it had under other names. A color hint is `COLORTERM`.
pub proof fn chosen_variables_are_set()
    ensures
        forall|environment: &mut NameMap<String>, entries: &Vec<(String, String)>, colorterm: Option<
            &str,
        >, r: ()|
            environment.well_formed() && entries@.len() > 0 && entries@.last().0@ != "COLORTERM"@
                && #[trigger] call_ensures(
                extend_environment,
                (environment, entries, colorterm),
                r,
            ) ==> final(environment)@.contains_key(entries@.last().0@)
                && final(environment)@[entries@.last().0@] == entries@.last().1@,
        forall|environment: &mut NameMap<String>, entries: &Vec<(String, String)>, value: &str, r: ()|
            environment.well_formed() && #[trigger] call_ensures(
                extend_environment,
                (environment, entries, Some(value)),
                r,
            ) ==> final(environment)@.contains_key("COLORTERM"@)
                && final(environment)@["COLORTERM"@] == value@,
        forall|environment: &mut NameMap<String>, entries: &Vec<(String, String)>, r: ()|
            environment.well_formed() && entries@.len() == 0 && #[trigger] call_ensures(
                extend_environment,
                (environment, entries, None),
                r,
            ) ==> final(environment)@ == environment@,
{
    assert forall|
        environment: &mut NameMap<String>,
        entries: &Vec<(String, String)>,
        colorterm: Option<&str>,
        r: (),
    |
        environment.well_formed() && entries@.len() > 0 && entries@.last().0@ != "COLORTERM"@
            && #[trigger] call_ensures(
            extend_environment,
            (environment, entries, colorterm),
            r,
        ) implies final(environment)@.contains_key(entries@.last().0@)
        && final(environment)@[entries@.last().0@] == entries@.last().1@ by {
        assert(entries.deep_view().last() == (entries@.last().0@, entries@.last().1@));
    }
}

/// Setting variables leaves those of other names alone, and of two with one
/// name the later one counts.
pub proof fn later_variables_count(
    map: Map<Seq<char>, Seq<char>>,
    first: Seq<(Seq<char>, Seq<char>)>,
    later: Seq<(Seq<char>, Seq<char>)>,
    name: Seq<char>,
)
    ensures
        extended(map, first + later) == extended(extended(map, first), later),
        !names(first, name) ==> extended(map, first).contains_key(name) == map.contains_key(name)
            && extended(map, first)[name] == map[name],
    decreases later.len(), first.len(),
{
    if later.len() == 0 {
        assert(first + later =~= first);
        if first.len() > 0 && !names(first, name) {
            let before = first.drop_last();
            assert(!names(before, name)) by {
                if names(before, name) {
                    let i = choose|i: int| 0 <= i < before.len() && (#[trigger] before[i]).0
                        == name;
                    assert(first[i].0 == name);
                }
            }
            assert(first[first.len() - 1].0 != name);
            later_variables_count(map, before, later, name);
        }
    } else {
        assert((first + later).drop_last() =~= first + later.drop_last());
        later_variables_count(map, first, later.drop_last(), name);
    }
}

/// Of the local environment `LANG` and what begins with `LC_` is sent, where
/// the terminal takes it, and nothing else.
pub proof fn locales_are_sent(
    variables: &Vec<(String, String)>,
    out: Vec<(String, String)>,
    name: Seq<char>,
    value: Seq<char>,
)
    requires
        call_ensures(ssh_locale_environment, (variables,), out),
    ensures
        out.deep_view().contains((name, value)) <==> variables.deep_view().contains((name, value))
            && (name == "LANG"@ || (name.len() >= 3 && name[0] == 'L' && name[1] == 'C' && name[2]
            == '_')) && is_environment_name(name) && encode_utf8(value).len() <= 4096,
{
    broadcast use vstd::seq_lib::group_to_multiset_ensures;

    let all = variables.deep_view();
    let entry = (name, value);
    lemma_locale_contains(all, entry);
    assert(out.deep_view().contains(entry) <==> out.deep_view().to_multiset().count(entry) > 0);
    assert(locale_of(all).contains(entry) <==> locale_of(all).to_multiset().count(entry) > 0);
    reveal_strlit("LC_");
    if name.len() >= 3 && name[0] == 'L' && name[1] == 'C' && name[2] == '_' {
        assert("LC_"@ =~= name.subrange(0, 3));
    }
    if "LC_"@.is_prefix_of(name) {
        assert("LC_"@ == name.subrange(0, 3));
        assert(name.subrange(0, 3)[0] == name[0]);
        assert(name.subrange(0, 3)[1] == name[1]);
        assert(name.subrange(0, 3)[2] == name[2]);
    }
}

proof fn lemma_locale_contains(variables: Seq<(Seq<char>, Seq<char>)>, entry: (Seq<char>, Seq<char>))
    ensures
        locale_of(variables).contains(entry) <==> variables.contains(entry) && is_locale(entry),
    decreases variables.len(),
{
    if variables.len() > 0 {
        let before = variables.drop_last();
        lemma_locale_contains(before, entry);
        assert(before.push(variables.last()) =~= variables);
        lemma_push_has(before, variables.last(), entry);
        lemma_push_has(locale_of(before), variables.last(), entry);
    }
}

proof fn lemma_push_has<T>(s: Seq<T>, last: T, x: T)
    ensures
        s.push(last).contains(x) <==> s.contains(x) || x == last,
{
    let t = s.push(last);
    assert(t[s.len() as int] == last);
    if s.contains(x) {
        let i = choose|i: int| 0 <= i < s.len() && s[i] == x;
        assert(t[i] == x);
    }
    if t.contains(x) && x != last {
        let i = choose|i: int| 0 <= i < t.len() && t[i] == x;
        assert(s[i] == x);
    }
}

/// What says most about the locale comes first, so that it is what fits:
/// `LC_ALL`, then `LC_CTYPE`, then `LANG`, then the others.
pub proof fn important_locales_come_first(
    variables: &Vec<(String, String)>,
    out: Vec<(String, String)>,
    i: int,
    j: int,
)
    requires
        call_ensures(ssh_locale_environment, (variables,), out),
        0 <= i < j < out@.len(),
        out@[i].0@ != out@[j].0@,
    ensures
        out@[j].0@ != "LC_ALL"@,
        out@[j].0@ == "LC_CTYPE"@ ==> out@[i].0@ == "LC_ALL"@,
        out@[j].0@ == "LANG"@ ==> out@[i].0@ == "LC_ALL"@ || out@[i].0@ == "LC_CTYPE"@,
{
    reveal_strlit("LC_ALL");
    reveal_strlit("LC_CTYPE");
    reveal_strlit("LANG");
    let entries = out.deep_view();
    assert(entries[i].0 == out@[i].0@ && entries[j].0 == out@[j].0@);
    assert(!locale_before(entries[j].0, entries[i].0));
    assert("LC_ALL"@.len() == 6 && "LC_CTYPE"@.len() == 8 && "LANG"@.len() == 4);
}

/// Of the explicit environment a POSIX session gets everything but `TERM`, in
/// its order, and behind it the locale.
pub proof fn explicit_variables_come_first(
    set_env: &Vec<(String, String)>,
    locale: Vec<(String, String)>,
    out: Vec<(String, String)>,
)
    requires
        call_ensures(posix_environment, (set_env, locale), out),
        forall|i: int| 0 <= i < set_env@.len() ==> (#[trigger] set_env@[i]).0@ != "TERM"@,
    ensures
        out.deep_view() == set_env.deep_view() + locale.deep_view(),
{
    let all = set_env.deep_view();
    assert forall|i: int| 0 <= i < all.len() implies (#[trigger] all[i]).0 != "TERM"@ by {
        assert(all[i].0 == set_env@[i].0@);
    }
    lemma_nothing_filtered(all);
}

proof fn lemma_nothing_filtered(all: Seq<(Seq<char>, Seq<char>)>)
    requires
        forall|i: int| 0 <= i < all.len() ==> (#[trigger] all[i]).0 != "TERM"@,
    ensures
        all.filter(|entry: (Seq<char>, Seq<char>)| entry.0 != "TERM"@) == all,
    decreases all.len(),
{
    reveal(Seq::filter);
    if all.len() > 0 {
        lemma_nothing_filtered(all.drop_last());
        assert(all.last() == all[all.len() - 1]);
        assert(all.drop_last().push(all.last()) =~= all);
    }
}

/// `TERM` has a place of its own and is never among the variables of a
/// session, under Windows in no case.
pub proof fn term_is_no_variable(
    set_env: Seq<(Seq<char>, Seq<char>)>,
    reserved: Seq<(Seq<char>, usize)>,
    value: Seq<char>,
)
    ensures
        posix_candidates(set_env.push(("TERM"@, value)), Seq::empty()) == posix_candidates(
            set_env,
            Seq::empty(),
        ),
        windows_candidates(set_env.push(("TERM"@, value)), reserved) == windows_candidates(
            set_env,
            reserved,
        ),
        windows_candidates(set_env.push(("term"@, value)), reserved) == windows_candidates(
            set_env,
            reserved,
        ),
{
    reveal(Seq::filter);
    reveal_strlit("TERM");
    reveal_strlit("term");
    assert(set_env.push(("TERM"@, value)).drop_last() =~= set_env);
    assert(set_env.push(("term"@, value)).drop_last() =~= set_env);
    assert(same_ignoring_case("term"@, "TERM"@)) by {
        assert(crate::text::lowered("term"@) =~= crate::text::lowered("TERM"@));
    }
}

/// A Windows session gets a variable once, whatever the case of its name: the
/// first of several, and none that something else sets.
pub proof fn names_have_no_case_on_windows(
    set_env: Seq<(Seq<char>, Seq<char>)>,
    entry: (Seq<char>, Seq<char>),
    reserved: Seq<(Seq<char>, usize)>,
)
    requires
        !same_ignoring_case(entry.0, "TERM"@),
    ensures
        ({
            let before = windows_candidates(set_env, reserved);
            let known = exists|i: int|
                0 <= i < before.len() && same_ignoring_case((#[trigger] before[i]).0, entry.0);
            let set = exists|i: int|
                0 <= i < reserved.len() && same_ignoring_case((#[trigger] reserved[i]).0, entry.0);
            windows_candidates(set_env.push(entry), reserved) == if known || set {
                before
            } else {
                before.push(entry)
            }
        }),
{
    assert(set_env.push(entry).drop_last() =~= set_env);
}

/// Names that something else sets leave fewer places for the locale: together
/// they are as many as the terminal takes, and never more.
pub proof fn reserved_names_take_places(reserved: usize, places: usize)
    requires
        call_ensures(locale_environment_capacity, (reserved,), places),
    ensures
        reserved <= 128 ==> reserved + places == 128,
        reserved > 128 ==> places == 0,
{
}

} // verus!
