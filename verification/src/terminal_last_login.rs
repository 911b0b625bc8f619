//! The line about the previous login that a new session shows.
use vstd::prelude::*;
use vstd::slice::slice_subrange;
use vstd::utf8::encode_utf8;

use crate::bytes::{append_bytes, bytes_of};
use crate::text::{ascii, ascii_bytes};

verus! {

/// The bytes of the host in a record.
pub const HOST_BYTES: usize = 256;

/// The form in which a login is told.
pub const LOGIN_TIME_FORMAT: &'static str = "%a %b %e %T %Y";

// Time.

/// What `jiff` makes of a moment at a fixed offset from UTC in some format.
pub uninterp spec fn formatted_time(
    format: Seq<char>,
    timestamp: i64,
    utc_offset: i32,
) -> Option<Seq<char>>;

/// The moments and offsets, in seconds, that `jiff` can express.
pub open spec fn expressible(timestamp: i64, utc_offset: i32) -> bool {
    -377_705_023_201 <= timestamp <= 253_402_207_200 && -93_599 <= utc_offset <= 93_599
}

/// `jiff::fmt::strtime::format` of a moment in a time zone with a fixed
/// offset. The result depends on the arguments alone. Moments that
/// `Timestamp::from_second` and offsets that `Offset::from_seconds` refuse
/// give nothing; all others have every field that the login format asks for.
#[verifier::external_body]
fn format_time(format: &str, timestamp: i64, utc_offset: i32) -> (r: Option<String>)
    ensures
        r.deep_view() == formatted_time(format@, timestamp, utc_offset),
        !expressible(timestamp, utc_offset) ==> r is None,
        expressible(timestamp, utc_offset) && format@ == LOGIN_TIME_FORMAT@ ==> r is Some,
{
    let moment = jiff::Timestamp::from_second(timestamp).ok()?;
    let offset = jiff::tz::Offset::from_seconds(utc_offset).ok()?;
    let zoned = moment.to_zoned(jiff::tz::TimeZone::fixed(offset));
    jiff::fmt::strtime::format(format, &zoned).ok()
}

// Records.

/// Where the fields of a record stand.
#[derive(Debug, Clone, Copy, PartialEq, Eq, Structural)]
pub struct Layout {
    pub record_bytes: usize,
    pub timestamp_bytes: usize,
    pub host_offset: usize,
}

/// The layout of the system. Some keep a time of 32 bits for compatibility,
/// others use their native one.
pub fn native_layout(native_time: bool) -> (layout: Layout)
    ensures
        layout == if native_time {
            Layout { record_bytes: 296, timestamp_bytes: 8, host_offset: 40 }
        } else {
            Layout { record_bytes: 292, timestamp_bytes: 4, host_offset: 36 }
        },
{
    if native_time {
        Layout { record_bytes: 296, timestamp_bytes: 8, host_offset: 40 }
    } else {
        Layout { record_bytes: 292, timestamp_bytes: 4, host_offset: 36 }
    }
}

/// Where the record of a user begins in the file.
pub fn record_position(uid: u32, layout: Layout) -> (r: Option<u64>)
    ensures
        r == if uid * layout.record_bytes <= u64::MAX {
            Some((uid * layout.record_bytes) as u64)
        } else {
            None::<u64>
        },
{
    (uid as u64).checked_mul(layout.record_bytes as u64)
}

/// The number that bytes stand for, the lowest first.
pub open spec fn little_endian(bytes: Seq<u8>) -> nat
    decreases bytes.len(),
{
    if bytes.len() == 0 {
        0
    } else {
        bytes[0] as nat + 256 * little_endian(bytes.skip(1))
    }
}

/// The time of a record, where it has one: an empty record holds zero, and a
/// time before the epoch is none.
pub open spec fn record_time(record: Seq<u8>, layout: Layout) -> Option<i64> {
    if (layout.timestamp_bytes == 4 || layout.timestamp_bytes == 8) && record.len()
        >= layout.timestamp_bytes {
        let value = little_endian(record.take(layout.timestamp_bytes as int));
        if 0 < value <= i64::MAX {
            Some(value as i64)
        } else {
            None
        }
    } else {
        None
    }
}

proof fn lemma_four_bytes(s: Seq<u8>)
    requires
        s.len() == 4,
    ensures
        little_endian(s) == s[0] + 0x100 * s[1] + 0x1_0000 * s[2] + 0x100_0000 * s[3],
{
    reveal_with_fuel(little_endian, 5);
    assert(s.skip(1)[0] == s[1]);
    assert(s.skip(1).skip(1)[0] == s[2]);
    assert(s.skip(1).skip(1).skip(1)[0] == s[3]);
}

proof fn lemma_eight_bytes(s: Seq<u8>)
    requires
        s.len() == 8,
    ensures
        little_endian(s) == little_endian(s.take(4)) + 0x1_0000_0000 * little_endian(s.skip(4)),
{
    lemma_four_bytes(s.take(4));
    let rest = s.skip(4);
    assert(s.skip(1).skip(1).skip(1).skip(1) =~= rest);
    reveal_with_fuel(little_endian, 5);
    assert(s.skip(1)[0] == s[1]);
    assert(s.skip(1).skip(1)[0] == s[2]);
    assert(s.skip(1).skip(1).skip(1)[0] == s[3]);
    assert(s.take(4)[0] == s[0] && s.take(4)[1] == s[1] && s.take(4)[2] == s[2] && s.take(4)[3]
        == s[3]);
}

fn four_bytes(bytes: &[u8]) -> (value: u64)
    requires
        bytes@.len() == 4,
    ensures
        value == little_endian(bytes@),
        value <= u32::MAX,
{
    proof {
        lemma_four_bytes(bytes@);
    }
    bytes[0] as u64 + 0x100 * bytes[1] as u64 + 0x1_0000 * bytes[2] as u64 + 0x100_0000
        * bytes[3] as u64
}

/// The time of a record.
pub fn login_time(record: &[u8], layout: Layout) -> (r: Option<i64>)
    ensures
        r == record_time(record@, layout),
{
    let value: u64 = if layout.timestamp_bytes == 4 && record.len() >= 4 {
        let bytes = slice_subrange(record, 0, 4);
        assert(bytes@ =~= record@.take(4));
        four_bytes(bytes)
    } else if layout.timestamp_bytes == 8 && record.len() >= 8 {
        let low = slice_subrange(record, 0, 4);
        let high = slice_subrange(record, 4, 8);
        proof {
            let whole = record@.take(8);
            lemma_eight_bytes(whole);
            assert(low@ =~= whole.take(4));
            assert(high@ =~= whole.skip(4));
        }
        four_bytes(low) + 0x1_0000_0000 * four_bytes(high)
    } else {
        return None;
    };
    if value > 0 && value <= 0x7fff_ffff_ffff_ffff {
        Some(value as i64)
    } else {
        None
    }
}

/// How many bytes stand before the first zero.
pub open spec fn before_zero(bytes: Seq<u8>) -> int
    decreases bytes.len(),
{
    if bytes.len() == 0 || bytes[0] == 0 {
        0
    } else {
        1 + before_zero(bytes.skip(1))
    }
}

pub open spec fn printable(bytes: Seq<u8>) -> bool {
    forall|i: int| 0 <= i < bytes.len() ==> 0x20 <= #[trigger] bytes[i] <= 0x7e
}

/// The host of a field: what stands before its first zero. A host with bytes
/// that a terminal would act on is not shown.
pub open spec fn shown_host(field: Seq<u8>) -> Option<Seq<u8>> {
    let host = field.take(before_zero(field));
    if host.len() > 0 && printable(host) {
        Some(host)
    } else {
        None
    }
}

proof fn lemma_before_zero(bytes: Seq<u8>, n: int)
    requires
        0 <= n <= bytes.len(),
        forall|i: int| 0 <= i < n ==> bytes[i] != 0,
        n < bytes.len() ==> bytes[n] == 0,
    ensures
        before_zero(bytes) == n,
    decreases n,
{
    if n > 0 {
        assert forall|i: int| 0 <= i < n - 1 implies bytes.skip(1)[i] != 0 by {
            assert(bytes.skip(1)[i] == bytes[i + 1]);
        }
        if n < bytes.len() {
            assert(bytes.skip(1)[n - 1] == bytes[n]);
        }
        lemma_before_zero(bytes.skip(1), n - 1);
    }
}

pub fn sanitize_host(bytes: &[u8]) -> (r: Option<Vec<u8>>)
    ensures
        match (r, shown_host(bytes@)) {
            (Some(host), Some(shown)) => host@ == shown,
            (None, None) => true,
            _ => false,
        },
{
    let len: usize = bytes.len();
    let mut end: usize = 0;
    while end < len && bytes[end] != 0
        invariant
            end <= len,
            len == bytes@.len(),
            forall|i: int| 0 <= i < end ==> bytes@[i] != 0,
        decreases len - end,
    {
        end += 1;
    }
    proof {
        lemma_before_zero(bytes@, end as int);
    }
    let host = slice_subrange(bytes, 0, end);
    assert(host@ =~= bytes@.take(end as int));
    let mut i: usize = 0;
    while i < end
        invariant
            i <= end,
            end == host@.len(),
            host@ == bytes@.take(before_zero(bytes@)),
            forall|j: int| 0 <= j < i ==> 0x20 <= #[trigger] host@[j] <= 0x7e,
        decreases end - i,
    {
        if host[i] < 0x20 || host[i] > 0x7e {
            assert(!(0x20 <= host@[i as int] <= 0x7e));
            return None;
        }
        i += 1;
    }
    if end == 0 {
        return None;
    }
    Some(bytes_of(host))
}

// The line.

/// The line about a login at some time, from a host where it is known.
pub open spec fn login_line(time: Seq<char>, host: Option<Seq<u8>>) -> Seq<u8> {
    ascii("Last login: "@) + encode_utf8(time) + match host {
        Some(host) => ascii(" from "@) + host,
        None => Seq::empty(),
    } + seq![13u8, 10u8]
}

/// Writes the line for a time that is spelled already.
pub fn write_line(time: &str, host: &Option<Vec<u8>>) -> (line: Vec<u8>)
    ensures
        line@ == login_line(
            time@,
            match host {
                Some(host) => Some(host@),
                None => None,
            },
        ),
{
    let mut line = ascii_bytes("Last login: ");
    append_bytes(&mut line, time.as_bytes());
    match host {
        Some(host) => {
            let ghost before = line@;
            let from = ascii_bytes(" from ");
            append_bytes(&mut line, from.as_slice());
            append_bytes(&mut line, host.as_slice());
            assert(line@ =~= before + (ascii(" from "@) + host@));
        },
        None => {
            assert(line@ =~= line@ + Seq::empty());
        },
    }
    let ghost before = line@;
    line.push(13);
    line.push(10);
    assert(line@ =~= before + seq![13u8, 10u8]);
    line
}

/// The line about a login, where its time can be expressed.
pub fn format_line(timestamp: i64, host: &Option<Vec<u8>>, utc_offset: i32) -> (r: Option<Vec<u8>>)
    ensures
        match r {
            Some(line) => formatted_time(LOGIN_TIME_FORMAT@, timestamp, utc_offset) is Some
                && line@ == login_line(
                formatted_time(LOGIN_TIME_FORMAT@, timestamp, utc_offset)->0,
                match host {
                    Some(host) => Some(host@),
                    None => None,
                },
            ),
            None => true,
        },
        r is Some <==> expressible(timestamp, utc_offset),
{
    match format_time(LOGIN_TIME_FORMAT, timestamp, utc_offset) {
        Some(time) => Some(write_line(time.as_str(), host)),
        None => None,
    }
}

/// The host field of a record, where the record is long enough.
pub open spec fn host_field(record: Seq<u8>, layout: Layout) -> Option<Seq<u8>> {
    if layout.host_offset + HOST_BYTES <= record.len() {
        Some(record.subrange(layout.host_offset as int, layout.host_offset + HOST_BYTES))
    } else {
        None
    }
}

/// The line that a record tells, at an offset from UTC. Records without a
/// time, and those that are cut short, tell nothing.
pub fn load_from_record(record: &[u8], layout: Layout, utc_offset: i32) -> (r: Option<Vec<u8>>)
    ensures
        match (record_time(record@, layout), host_field(record@, layout)) {
            (Some(timestamp), Some(field)) => {
                &&& r is Some <==> expressible(timestamp, utc_offset)
                &&& r matches Some(line) ==> formatted_time(
                    LOGIN_TIME_FORMAT@,
                    timestamp,
                    utc_offset,
                ) is Some && line@ == login_line(
                    formatted_time(LOGIN_TIME_FORMAT@, timestamp, utc_offset)->0,
                    shown_host(field),
                )
            },
            _ => r is None,
        },
{
    let timestamp = match login_time(record, layout) {
        Some(timestamp) => timestamp,
        None => {
            return None;
        },
    };
    let len: usize = record.len();
    if len < HOST_BYTES || layout.host_offset > len - HOST_BYTES {
        return None;
    }
    let field = slice_subrange(record, layout.host_offset, layout.host_offset + HOST_BYTES);
    let host = sanitize_host(field);
    format_line(timestamp, &host, utc_offset)
}

/// A record's place follows from its user alone: records stand one behind the
/// other, by number.
pub proof fn records_stand_by_number(uid: u32, layout: Layout, r: Option<u64>, next: Option<u64>)
    requires
        uid < u32::MAX,
        call_ensures(record_position, (uid, layout), r),
        call_ensures(record_position, ((uid + 1) as u32, layout), next),
    ensures
        uid == 0 ==> r == Some(0u64),
        r is Some && next is Some ==> next->0 - r->0 == layout.record_bytes,
{
    assert((uid + 1) * layout.record_bytes == uid * layout.record_bytes + layout.record_bytes)
        by (nonlinear_arith);
}

/// A host is shown up to its first zero byte, as it is; one that a terminal
/// would act on is not shown at all.
pub proof fn hosts_are_shown_plainly(
    bytes: &[u8],
    host: Seq<u8>,
    rest: Seq<u8>,
    r: Option<Vec<u8>>,
)
    requires
        call_ensures(sanitize_host, (bytes,), r),
        bytes@ == host + (seq![0u8] + rest),
        forall|i: int| 0 <= i < host.len() ==> #[trigger] host[i] != 0,
    ensures
        host.len() > 0 && (forall|i: int|
            0 <= i < host.len() ==> 0x20 <= #[trigger] host[i] <= 0x7e) ==> (r matches Some(shown)
            && shown@ == host),
        host.len() == 0 ==> r is None,
        host.contains(0x1bu8) || host.contains(10u8) || host.contains(0x7fu8) ==> r is None,
{
    let k = host.len() as int;
    assert forall|i: int| 0 <= i < k implies bytes@[i] != 0 by {
        assert(bytes@[i] == host[i]);
    }
    lemma_before_zero(bytes@, k);
    assert(bytes@.take(k) =~= host);
}

/// The line tells when the login was and, where it is known, from where, and
/// ends as a raw terminal needs it.
pub proof fn login_lines_tell_when_and_where(
    time: &str,
    host: Vec<u8>,
    line: Vec<u8>,
    bare: Vec<u8>,
)
    requires
        call_ensures(write_line, (time, &Some(host)), line),
        call_ensures(write_line, (time, &None), bare),
    ensures
        line@ == ascii("Last login: "@) + encode_utf8(time@) + ascii(" from "@) + host@ + seq![
            13u8,
            10u8,
        ],
        bare@ == ascii("Last login: "@) + encode_utf8(time@) + seq![13u8, 10u8],
{
    assert(line@ =~= ascii("Last login: "@) + encode_utf8(time@) + ascii(" from "@) + host@ + seq![
        13u8,
        10u8,
    ]);
    assert(bare@ =~= ascii("Last login: "@) + encode_utf8(time@) + seq![13u8, 10u8]);
}

/// The time of a record is the number in its first bytes, the lowest byte
/// first; a record that was never written has none.
pub proof fn login_times_are_little_endian(record: &[u8], layout: Layout, r: Option<i64>)
    requires
        call_ensures(login_time, (record, layout), r),
        layout.timestamp_bytes == 4,
        record@.len() >= 4,
    ensures
        ({
            let time = record@[0] + 0x100 * record@[1] + 0x1_0000 * record@[2] + 0x100_0000
                * record@[3];
            if time > 0 {
                r matches Some(found) && found == time
            } else {
                r is None
            }
        }),
{
    lemma_four_bytes(record@.take(4));
}

/// A record tells a login where it has a time and is long enough to have a
/// host, and the line tells that time and that host.
pub proof fn records_tell_their_login(
    record: &[u8],
    utc_offset: i32,
    wide: Layout,
    r: Option<Vec<u8>>,
)
    requires
        call_ensures(native_layout, (true,), wide),
        call_ensures(load_from_record, (record, wide, utc_offset), r),
    ensures
        record@.len() < 296 ==> r is None,
        r is Some ==> record@.len() >= 296 && (exists|time: Seq<char>, host: Option<Seq<u8>>|
            r->0@ == #[trigger] login_line(time, host) && (host matches Some(shown)
                ==> shown.is_prefix_of(record@.skip(40)))),
        record@.len() >= 8 && (forall|i: int| 0 <= i < 8 ==> #[trigger] record@[i] == 0)
            ==> r is None,
{
    if record@.len() >= 8 && (forall|i: int| 0 <= i < 8 ==> #[trigger] record@[i] == 0) {
        lemma_zero_bytes(record@.take(8));
    }
    if r is Some {
        let field = host_field(record@, wide)->0;
        let host = shown_host(field);
        if let Some(shown) = host {
            lemma_before_zero_bounds(field);
            assert(shown =~= record@.skip(40).subrange(0, shown.len() as int));
        }
        let time = formatted_time(
            LOGIN_TIME_FORMAT@,
            record_time(record@, wide)->0,
            utc_offset,
        )->0;
        assert(r->0@ == login_line(time, host));
    }
}

proof fn lemma_before_zero_bounds(bytes: Seq<u8>)
    ensures
        0 <= before_zero(bytes) <= bytes.len(),
    decreases bytes.len(),
{
    if bytes.len() > 0 && bytes[0] != 0 {
        lemma_before_zero_bounds(bytes.skip(1));
    }
}

proof fn lemma_zero_bytes(bytes: Seq<u8>)
    requires
        forall|i: int| 0 <= i < bytes.len() ==> #[trigger] bytes[i] == 0,
    ensures
        little_endian(bytes) == 0,
    decreases bytes.len(),
{
    if bytes.len() > 0 {
        let rest = bytes.skip(1);
        assert forall|i: int| 0 <= i < rest.len() implies #[trigger] rest[i] == 0 by {
            assert(rest[i] == bytes[i + 1]);
        }
        lemma_zero_bytes(rest);
        assert(bytes[0] == 0);
    }
}

} // verus!
