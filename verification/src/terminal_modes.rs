//! What a remote byte stream leaves the local terminal in, and how it is put
//! back.
use vstd::prelude::*;

use crate::bytes::{find_bytes, occurs};
use crate::text::{ascii, ascii_bytes};

verus! {

/// Reset sequences for terminal modes a remote application may have enabled
/// in the local emulator. The session can end while the remote side has no
/// chance to restore them, which otherwise leaves the shell prompt receiving
/// keyboard reports, mouse reports, or bracketed paste markers as literal
/// text. Terminals ignore sequences they do not support, and every reset is a
/// no-op when the mode is already off.
///
/// In order: pop and zero the kitty keyboard flags on the current (possibly
/// alternate) screen, leave the alternate screen, pop and zero the kitty
/// flags again on the main screen (the stacks are per-screen), disable
/// xterm modifyOtherKeys, bracketed paste, focus reporting and all mouse
/// modes, and show the cursor.
pub const TERMINAL_MODE_RESET: &'static str =
    "\u{1b}[<64u\u{1b}[=0;1u\u{1b}[?1049l\u{1b}[<64u\u{1b}[=0;1u\u{1b}[>4;0m\u{1b}[?2004l\u{1b}[?1004l\u{1b}[?1000l\u{1b}[?1002l\u{1b}[?1003l\u{1b}[?1006l\u{1b}[?25h";

/// Cleanup when the remote byte stream left no alternate screen active.
/// Sending an unmatched alternate-screen leave would restore an unrelated
/// saved cursor in the local emulator, so only the idempotent input-mode
/// cleanup runs on the current main screen.
pub const GRACEFUL_TERMINAL_MODE_RESET: &'static str =
    "\u{1b}[<64u\u{1b}[=0;1u\u{1b}[>4;0m\u{1b}[?2004l\u{1b}[?1004l\u{1b}[?1000l\u{1b}[?1002l\u{1b}[?1003l\u{1b}[?1006l\u{1b}[?25h";

/// Device Status Report request (`ESC [ 6 n`).
pub const CURSOR_REPORT_REQUEST: &'static str = "\u{1b}[6n";

/// Minimal reply: cursor at row 1, column 1.
pub const CURSOR_REPORT_REPLY: &'static str = "\u{1b}[1;1R";

/// Whether output asks the terminal where its cursor is.
pub open spec fn asks_cursor_report(bytes: Seq<u8>) -> bool {
    occurs(bytes, ascii(CURSOR_REPORT_REQUEST@))
}

pub fn contains_cursor_report_request(bytes: &[u8]) -> (r: bool)
    ensures
        r == asks_cursor_report(bytes@),
{
    find_bytes(bytes, ascii_bytes(CURSOR_REPORT_REQUEST).as_slice()).is_some()
}

/// `ESC [ ? 1 0 4 9`: what begins a switch of screens. An `h` behind it
/// enters the alternate screen, an `l` leaves it.
pub open spec fn switch_prefix() -> Seq<u8> {
    seq![0x1bu8, 0x5b, 0x3f, 0x31, 0x30, 0x34, 0x39]
}

/// Whether a history ends with the first `k` bytes of a switch.
pub open spec fn ends_with_prefix(history: Seq<u8>, k: int) -> bool {
    0 <= k <= 7 && k <= history.len() && history.skip(history.len() - k) == switch_prefix().take(k)
}

/// Whether a history ends with a complete switch.
pub open spec fn ends_with_switch(history: Seq<u8>) -> bool {
    history.len() > 0 && ends_with_prefix(history.drop_last(), 7) && (history.last() == 0x68
        || history.last() == 0x6c)
}

/// Whether the alternate screen is on after a history: its last complete
/// switch decides.
pub open spec fn alternate_after(history: Seq<u8>) -> bool
    decreases history.len(),
{
    if history.len() == 0 {
        false
    } else if ends_with_switch(history) {
        history.last() == 0x68
    } else {
        alternate_after(history.drop_last())
    }
}

/// Follows the switches of screens through a byte stream that arrives in
/// pieces.
#[derive(Debug, Clone, Copy)]
pub struct TerminalModeState {
    pub alternate_prefix_len: usize,
    pub alternate_screen: bool,
}

impl Default for TerminalModeState {
    fn default() -> (state: Self)
        ensures
            state.tracks(Seq::empty()),
            !state.alternate_screen,
    {
        let state = TerminalModeState { alternate_prefix_len: 0, alternate_screen: false };
        assert(ends_with_prefix(Seq::empty(), 0)) by {
            assert(Seq::<u8>::empty().skip(0) =~= switch_prefix().take(0));
        }
        state
    }
}

fn prefix_byte(k: usize) -> (b: u8)
    requires
        k < 7,
    ensures
        b == switch_prefix()[k as int],
{
    match k {
        0 => 0x1b,
        1 => 0x5b,
        2 => 0x3f,
        3 => 0x31,
        4 => 0x30,
        5 => 0x34,
        _ => 0x39,
    }
}

impl TerminalModeState {
    /// Whether this is the state after exactly this history: as much of a
    /// switch as its end holds is remembered, and the screen is the one that
    /// the last complete switch selected.
    pub open spec fn tracks(self, history: Seq<u8>) -> bool {
        &&& ends_with_prefix(history, self.alternate_prefix_len as int)
        &&& forall|j: int| self.alternate_prefix_len < j <= 7 ==> !ends_with_prefix(history, j)
        &&& self.alternate_screen == alternate_after(history)
    }

    /// A state that some history leads to.
    pub open spec fn well_formed(self) -> bool {
        self.alternate_prefix_len <= 7
    }

    fn observe_byte(&mut self, byte: u8)
        requires
            old(self).well_formed(),
        ensures
            final(self).well_formed(),
            forall|history: Seq<u8>| #[trigger]
                old(self).tracks(history) ==> final(self).tracks(history.push(byte)),
    {
        if self.alternate_prefix_len == 7 {
            if byte == 0x68 {
                self.alternate_screen = true;
            } else if byte == 0x6c {
                self.alternate_screen = false;
            }
            self.alternate_prefix_len = if byte == 0x1b {
                1
            } else {
                0
            };
        } else if byte == prefix_byte(self.alternate_prefix_len) {
            self.alternate_prefix_len = self.alternate_prefix_len + 1;
        } else {
            self.alternate_prefix_len = if byte == 0x1b {
                1
            } else {
                0
            };
        }
        proof {
            assert forall|history: Seq<u8>| #[trigger] old(self).tracks(history) implies self.tracks(
                history.push(byte),
            ) by {
                lemma_step(*old(self), *self, history, byte);
            }
        }
    }

    /// Takes in the next piece of the stream. What comes out does not depend
    /// on where the pieces were cut.
    pub fn observe(&mut self, bytes: &[u8])
        requires
            old(self).well_formed(),
        ensures
            final(self).well_formed(),
            forall|history: Seq<u8>| #[trigger]
                old(self).tracks(history) ==> final(self).tracks(history + bytes@),
    {
        let ghost start = *self;
        let mut i: usize = 0;
        assert forall|history: Seq<u8>| #[trigger] start.tracks(history) implies self.tracks(
            history + bytes@.take(0),
        ) by {
            assert(history + bytes@.take(0) =~= history);
        }
        while i < bytes.len()
            invariant
                i <= bytes@.len(),
                self.well_formed(),
                start == *old(self),
                forall|history: Seq<u8>| #[trigger]
                    start.tracks(history) ==> self.tracks(history + bytes@.take(i as int)),
            decreases bytes@.len() - i,
        {
            let ghost before = *self;
            self.observe_byte(bytes[i]);
            i += 1;
            assert forall|history: Seq<u8>| #[trigger] start.tracks(history) implies self.tracks(
                history + bytes@.take(i as int),
            ) by {
                let seen = history + bytes@.take(i - 1);
                assert(before.tracks(seen));
                assert(seen.push(bytes@[i - 1]) =~= history + bytes@.take(i as int));
            }
        }
        assert(bytes@.take(i as int) =~= bytes@);
    }

    pub fn alternate_screen(&self) -> (r: bool)
        ensures
            r == self.alternate_screen,
    {
        self.alternate_screen
    }
}

/// The bytes of a switch differ, so that a history ends with one beginning of
/// it at most.
proof fn lemma_one_prefix(history: Seq<u8>, j: int, k: int)
    requires
        ends_with_prefix(history, j),
        ends_with_prefix(history, k),
        0 < j,
        0 < k,
    ensures
        j == k,
{
    let p = switch_prefix();
    assert(history.skip(history.len() - j)[j - 1] == history.last());
    assert(history.skip(history.len() - k)[k - 1] == history.last());
    assert(p.take(j)[j - 1] == p[j - 1]);
    assert(p.take(k)[k - 1] == p[k - 1]);
}

proof fn lemma_prefix_grows(history: Seq<u8>, byte: u8, j: int)
    requires
        0 <= j < 7,
    ensures
        ends_with_prefix(history.push(byte), j + 1) <==> ends_with_prefix(history, j) && byte
            == switch_prefix()[j],
{
    let p = switch_prefix();
    let longer = history.push(byte);
    if ends_with_prefix(longer, j + 1) {
        let tail = longer.skip(longer.len() - (j + 1));
        assert(tail[j] == byte);
        assert(p.take(j + 1)[j] == p[j]);
        assert(history.skip(history.len() - j) =~= tail.take(j));
        assert(p.take(j) =~= p.take(j + 1).take(j));
    }
    if ends_with_prefix(history, j) && byte == p[j] {
        assert(longer.skip(longer.len() - (j + 1)) =~= history.skip(history.len() - j).push(byte));
        assert(p.take(j + 1) =~= p.take(j).push(p[j]));
    }
}

proof fn lemma_step(
    before: TerminalModeState,
    after: TerminalModeState,
    history: Seq<u8>,
    byte: u8,
)
    requires
        before.well_formed(),
        before.tracks(history),
        before.alternate_prefix_len == 7 ==> after.alternate_prefix_len == (if byte == 0x1b {
            1int
        } else {
            0
        }) && after.alternate_screen == (if byte == 0x68 {
            true
        } else if byte == 0x6c {
            false
        } else {
            before.alternate_screen
        }),
        before.alternate_prefix_len < 7 ==> after.alternate_screen == before.alternate_screen
            && after.alternate_prefix_len == (if byte
            == switch_prefix()[before.alternate_prefix_len as int] {
            before.alternate_prefix_len + 1
        } else if byte == 0x1b {
            1int
        } else {
            0
        }),
    ensures
        after.tracks(history.push(byte)),
{
    let k = before.alternate_prefix_len as int;
    let longer = history.push(byte);
    assert(longer.drop_last() =~= history);
    assert(longer.last() == byte);
    assert(ends_with_prefix(longer, 0)) by {
        assert(longer.skip(longer.len() as int) =~= switch_prefix().take(0));
    }
    assert(ends_with_prefix(history, 0)) by {
        assert(history.skip(history.len() as int) =~= switch_prefix().take(0));
    }
    lemma_prefix_grows(history, byte, 0);
    assert forall|j: int| 0 < j < 7 && j != k implies !ends_with_prefix(history, j) by {
        if ends_with_prefix(history, j) && k > 0 {
            lemma_one_prefix(history, j, k);
        }
    }
    assert forall|j: int| after.alternate_prefix_len < j <= 7 implies !ends_with_prefix(
        longer,
        j,
    ) by {
        lemma_prefix_grows(history, byte, j - 1);
    }
    if 0 < k < 7 {
        lemma_prefix_grows(history, byte, k);
    }
}

/// How the local terminal is reset when a session ends.
#[derive(Clone, Copy, Debug, PartialEq, Eq, Structural)]
pub enum TerminalReset {
    LeaveAlternate,
    KeepCurrentScreen,
}

impl TerminalReset {
    pub fn for_alternate_screen(alternate_screen: bool) -> (reset: Self)
        ensures
            reset == if alternate_screen {
                TerminalReset::LeaveAlternate
            } else {
                TerminalReset::KeepCurrentScreen
            },
    {
        if alternate_screen {
            TerminalReset::LeaveAlternate
        } else {
            TerminalReset::KeepCurrentScreen
        }
    }

    pub open spec fn sequence(self) -> Seq<u8> {
        match self {
            TerminalReset::LeaveAlternate => ascii(TERMINAL_MODE_RESET@),
            TerminalReset::KeepCurrentScreen => ascii(GRACEFUL_TERMINAL_MODE_RESET@),
        }
    }

    pub fn bytes(self) -> (out: Vec<u8>)
        ensures
            out@ == self.sequence(),
    {
        match self {
            TerminalReset::LeaveAlternate => ascii_bytes(TERMINAL_MODE_RESET),
            TerminalReset::KeepCurrentScreen => ascii_bytes(GRACEFUL_TERMINAL_MODE_RESET),
        }
    }
}

/// A history leads to one state only. However a stream is cut into pieces,
/// the state after all of them is the same.
pub proof fn history_determines_state(
    a: TerminalModeState,
    b: TerminalModeState,
    history: Seq<u8>,
)
    requires
        a.tracks(history),
        b.tracks(history),
    ensures
        a == b,
{
}

/// Bytes among which nothing can be the end of a switch.
spec fn switches_nothing(tail: Seq<u8>) -> bool {
    forall|i: int|
        0 <= i < tail.len() && (#[trigger] tail[i] == 0x68 || tail[i] == 0x6c) ==> i > 0 && tail[i
            - 1] != 0x39
}

proof fn lemma_switches_nothing(history: Seq<u8>, tail: Seq<u8>)
    requires
        switches_nothing(tail),
    ensures
        alternate_after(history + tail) == alternate_after(history),
    decreases tail.len(),
{
    if tail.len() == 0 {
        assert(history + tail =~= history);
    } else {
        let head = tail.drop_last();
        let all = history + tail;
        assert forall|i: int| 0 <= i < head.len() && (#[trigger] head[i] == 0x68 || head[i] == 0x6c)
            implies i > 0 && head[i - 1] != 0x39 by {
            assert(head[i] == tail[i]);
        }
        lemma_switches_nothing(history, head);
        assert(all.drop_last() =~= history + head);
        assert(all.last() == tail[tail.len() - 1]);
        if ends_with_switch(all) {
            let before = all.drop_last();
            assert(before.skip(before.len() - 7)[6] == before.last());
            assert(switch_prefix().take(7)[6] == 0x39u8);
        }
    }
}

/// After the reset of an abrupt end the alternate screen is off, whatever the
/// session wrote before.
pub proof fn abrupt_reset_leaves_the_alternate_screen(history: Seq<u8>)
    ensures
        !alternate_after(history + TerminalReset::LeaveAlternate.sequence()),
{
    reveal_strlit(
        "\u{1b}[<64u\u{1b}[=0;1u\u{1b}[?1049l\u{1b}[<64u\u{1b}[=0;1u\u{1b}[>4;0m\u{1b}[?2004l\u{1b}[?1004l\u{1b}[?1000l\u{1b}[?1002l\u{1b}[?1003l\u{1b}[?1006l\u{1b}[?25h",
    );
    let reset = TerminalReset::LeaveAlternate.sequence();
    let left = history + reset.take(21);
    let before = left.drop_last();
    assert(before =~= history + reset.take(20));
    assert(before.skip(before.len() - 7) =~= switch_prefix().take(7));
    assert(ends_with_switch(left));
    lemma_switches_nothing(left, reset.skip(21));
    assert(left + reset.skip(21) =~= history + reset);
}

/// The reset of a graceful end leaves the screen as the session left it.
pub proof fn graceful_reset_keeps_the_screen(history: Seq<u8>)
    ensures
        alternate_after(history + TerminalReset::KeepCurrentScreen.sequence()) == alternate_after(
            history,
        ),
{
    reveal_strlit(
        "\u{1b}[<64u\u{1b}[=0;1u\u{1b}[>4;0m\u{1b}[?2004l\u{1b}[?1004l\u{1b}[?1000l\u{1b}[?1002l\u{1b}[?1003l\u{1b}[?1006l\u{1b}[?25h",
    );
    lemma_switches_nothing(history, TerminalReset::KeepCurrentScreen.sequence());
}

/// `ESC [ ? 1 0 4 9 h` enters the alternate screen and the same with `l`
/// leaves it, whatever came before; bytes that cannot end either change
/// nothing.
pub proof fn switches_change_the_screen(history: Seq<u8>, byte: u8)
    ensures
        alternate_after(
            history + seq![0x1bu8, 0x5bu8, 0x3fu8, 0x31u8, 0x30u8, 0x34u8, 0x39u8, 0x68u8],
        ),
        !alternate_after(
            history + seq![0x1bu8, 0x5bu8, 0x3fu8, 0x31u8, 0x30u8, 0x34u8, 0x39u8, 0x6cu8],
        ),
        byte != 0x68 && byte != 0x6c ==> alternate_after(history.push(byte)) == alternate_after(
            history,
        ),
        !alternate_after(Seq::empty()),
{
    let begin = seq![0x1bu8, 0x5bu8, 0x3fu8, 0x31u8, 0x30u8, 0x34u8, 0x39u8];
    let on = history + seq![0x1bu8, 0x5bu8, 0x3fu8, 0x31u8, 0x30u8, 0x34u8, 0x39u8, 0x68u8];
    let off = history + seq![0x1bu8, 0x5bu8, 0x3fu8, 0x31u8, 0x30u8, 0x34u8, 0x39u8, 0x6cu8];
    let before = history + begin;
    assert(on.drop_last() =~= before && off.drop_last() =~= before);
    assert(before.skip(before.len() - 7) =~= switch_prefix().take(7)) by {
        assert(before.skip(before.len() - 7) =~= begin);
        assert(switch_prefix().take(7) =~= begin);
    }
    assert(ends_with_prefix(before, 7));
    assert(history.push(byte).drop_last() =~= history);
}

/// A request for the cursor is seen wherever it stands, and nothing shorter
/// than one is taken for it.
pub proof fn cursor_requests_are_seen(bytes: &[u8], before: Seq<u8>, after: Seq<u8>, r: bool)
    requires
        call_ensures(contains_cursor_report_request, (bytes,), r),
    ensures
        bytes@ == before + (seq![0x1bu8, 0x5bu8, 0x36u8, 0x6eu8] + after) ==> r,
        !bytes@.contains(0x1bu8) ==> !r,
        bytes@.len() < 4 ==> !r,
{
    reveal_strlit("\u{1b}[6n");
    let request = ascii(CURSOR_REPORT_REQUEST@);
    assert(request.len() == 4 && request[0] == 0x1b && request[1] == 0x5b && request[2] == 0x36
        && request[3] == 0x6e);
    if bytes@ == before + (seq![0x1bu8, 0x5bu8, 0x36u8, 0x6eu8] + after) {
        let k = before.len() as int;
        assert(bytes@.subrange(k, k + 4) =~= request);
        assert(crate::bytes::occurs_at(bytes@, request, k));
    }
    if r {
        let k = choose|k: int| crate::bytes::occurs_at(bytes@, request, k);
        assert(bytes@.subrange(k, k + 4)[0] == bytes@[k]);
    }
}

/// A session that ends on the alternate screen leaves it, and one that does
/// not stays where it is.
pub proof fn resets_fit_the_screen(alternate: bool, reset: TerminalReset, bytes: Vec<u8>)
    requires
        call_ensures(TerminalReset::for_alternate_screen, (alternate,), reset),
        call_ensures(TerminalReset::bytes, (reset,), bytes),
    ensures
        alternate ==> bytes@ == ascii(TERMINAL_MODE_RESET@),
        !alternate ==> bytes@ == ascii(GRACEFUL_TERMINAL_MODE_RESET@),
        alternate <==> reset == TerminalReset::LeaveAlternate,
{
}

} // verus!
