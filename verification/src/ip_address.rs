//! The text forms of internet addresses.
use vstd::prelude::*;
use vstd::slice::slice_subrange;

use crate::text::{
    all_digits, char_is_digit, decimal, decimal_reads_back, find_char, first_index, is_digit,
    lemma_first_index, lemma_first_index_bounds, number, parse_number,
};

verus! {

pub open spec fn is_hex_digit(c: char) -> bool {
    is_digit(c) || 'a' <= c <= 'f' || 'A' <= c <= 'F'
}

/// One to four hexadecimal digits.
pub open spec fn is_hex_group(s: Seq<char>) -> bool {
    1 <= s.len() <= 4 && forall|i: int| 0 <= i < s.len() ==> is_hex_digit(#[trigger] s[i])
}

/// A decimal number of at most 255, without zeros in front.
pub open spec fn is_octet(s: Seq<char>) -> bool {
    &&& 1 <= s.len() <= 3
    &&& all_digits(s)
    &&& number(s) <= 255
    &&& s[0] == '0' ==> s.len() == 1
}

/// How many octets stand between dots, where nothing else does.
pub open spec fn octet_count(s: Seq<char>) -> Option<int>
    decreases s.len(),
{
    let k = first_index(s, '.');
    if k >= s.len() {
        if is_octet(s) {
            Some(1int)
        } else {
            None
        }
    } else if k >= 0 && is_octet(s.take(k)) {
        match octet_count(s.skip(k + 1)) {
            Some(n) => Some(n + 1),
            None => None,
        }
    } else {
        None
    }
}

/// Four octets with dots between them.
pub open spec fn is_ipv4(s: Seq<char>) -> bool {
    octet_count(s) == Some(4int)
}

/// How many groups of 16 bits stand between colons, where nothing else does.
/// The last two may be written as an IPv4 address where `dotted` allows it.
pub open spec fn group_count(s: Seq<char>, dotted: bool) -> Option<int>
    decreases s.len(),
{
    let k = first_index(s, ':');
    if k >= s.len() {
        if is_hex_group(s) {
            Some(1int)
        } else if dotted && is_ipv4(s) {
            Some(2int)
        } else {
            None
        }
    } else if k >= 0 && is_hex_group(s.take(k)) {
        match group_count(s.skip(k + 1), dotted) {
            Some(n) => Some(n + 1),
            None => None,
        }
    } else {
        None
    }
}

/// The groups on one side of `::`, where there may be none.
pub open spec fn side_count(s: Seq<char>, dotted: bool) -> Option<int> {
    if s.len() == 0 {
        Some(0int)
    } else {
        group_count(s, dotted)
    }
}

/// Whether `::` at `i` stands for one or more groups of zeros.
pub open spec fn compressed_at(s: Seq<char>, i: int) -> bool {
    &&& 0 <= i
    &&& i + 1 < s.len()
    &&& s[i] == ':' && s[i + 1] == ':'
    &&& side_count(s.take(i), false) is Some
    &&& side_count(s.skip(i + 2), true) is Some
    &&& side_count(s.take(i), false)->0 + side_count(s.skip(i + 2), true)->0 <= 7
}

/// Eight groups, or fewer with `::` in place of those that are left out.
pub open spec fn is_ipv6(s: Seq<char>) -> bool {
    group_count(s, true) == Some(8int) || exists|i: int| compressed_at(s, i)
}

/// A count with so many more.
spec fn more(count: Option<int>, by: int) -> Option<int> {
    match count {
        Some(n) => Some(n + by),
        None => None,
    }
}

fn hex_group(s: &[char]) -> (r: bool)
    ensures
        r == is_hex_group(s@),
{
    if s.len() < 1 || s.len() > 4 {
        return false;
    }
    let mut i: usize = 0;
    while i < s.len()
        invariant
            i <= s@.len(),
            forall|j: int| 0 <= j < i ==> is_hex_digit(#[trigger] s@[j]),
        decreases s@.len() - i,
    {
        let c = s[i];
        if !(char_is_digit(c) || (c >= 'a' && c <= 'f') || (c >= 'A' && c <= 'F')) {
            assert(!is_hex_digit(s@[i as int]));
            return false;
        }
        i += 1;
    }
    true
}

fn octet(s: &[char]) -> (r: bool)
    ensures
        r == is_octet(s@),
{
    if s.len() < 1 || s.len() > 3 {
        return false;
    }
    let mut i: usize = 0;
    while i < s.len()
        invariant
            i <= s@.len(),
            forall|j: int| 0 <= j < i ==> is_digit(#[trigger] s@[j]),
        decreases s@.len() - i,
    {
        if !char_is_digit(s[i]) {
            assert(!is_digit(s@[i as int]));
            return false;
        }
        i += 1;
    }
    if s[0] == '0' && s.len() > 1 {
        return false;
    }
    match parse_number(s, 255) {
        Some(_) => true,
        None => false,
    }
}

fn count_octets(s: &[char]) -> (r: Option<usize>)
    ensures
        match (r, octet_count(s@)) {
            (Some(n), Some(count)) => n == count && 1 <= n <= s@.len(),
            (None, None) => true,
            _ => false,
        },
{
    let len: usize = s.len();
    let mut start: usize = 0;
    let mut count: usize = 0;
    assert(s@.skip(0) =~= s@);
    loop
        invariant
            start <= len,
            len == s@.len(),
            count <= start,
            octet_count(s@) == more(octet_count(s@.skip(start as int)), count as int),
        decreases len - start,
    {
        let rest = slice_subrange(s, start, len);
        assert(rest@ =~= s@.skip(start as int));
        let k = find_char(rest, '.');
        proof {
            lemma_first_index_bounds(rest@, '.');
        }
        if k >= rest.len() {
            return if octet(rest) {
                Some(count + 1)
            } else {
                None
            };
        }
        assert(rest@.subrange(0, k as int) =~= rest@.take(k as int));
        if !octet(slice_subrange(rest, 0, k)) {
            return None;
        }
        start += k + 1;
        count += 1;
        assert(rest@.skip(k + 1) =~= s@.skip(start as int));
    }
}

fn count_groups(s: &[char], dotted: bool) -> (r: Option<usize>)
    ensures
        match (r, group_count(s@, dotted)) {
            (Some(n), Some(count)) => n == count && 1 <= n <= s@.len() + 1,
            (None, None) => true,
            _ => false,
        },
{
    let len: usize = s.len();
    let mut start: usize = 0;
    let mut count: usize = 0;
    assert(s@.skip(0) =~= s@);
    loop
        invariant
            start <= len,
            len == s@.len(),
            2 * count <= start,
            group_count(s@, dotted) == more(
                group_count(s@.skip(start as int), dotted),
                count as int,
            ),
        decreases len - start,
    {
        let rest = slice_subrange(s, start, len);
        assert(rest@ =~= s@.skip(start as int));
        let k = find_char(rest, ':');
        proof {
            lemma_first_index_bounds(rest@, ':');
        }
        if k >= rest.len() {
            return if hex_group(rest) {
                Some(count + 1)
            } else if dotted && count_octets(rest) == Some(4usize) {
                Some(count + 2)
            } else {
                None
            };
        }
        assert(rest@.subrange(0, k as int) =~= rest@.take(k as int));
        if !hex_group(slice_subrange(rest, 0, k)) {
            return None;
        }
        start += k + 1;
        count += 1;
        assert(rest@.skip(k + 1) =~= s@.skip(start as int));
    }
}

fn count_side(s: &[char], dotted: bool) -> (r: Option<usize>)
    ensures
        match (r, side_count(s@, dotted)) {
            (Some(n), Some(count)) => n == count && n <= s@.len() + 1,
            (None, None) => true,
            _ => false,
        },
{
    if s.len() == 0 {
        Some(0)
    } else {
        count_groups(s, dotted)
    }
}

/// Whether a text is an IPv6 address.
pub fn is_ipv6_address(s: &[char]) -> (r: bool)
    ensures
        r == is_ipv6(s@),
{
    match count_groups(s, true) {
        Some(n) => {
            if n == 8 {
                return true;
            }
        },
        None => {},
    }
    let len: usize = s.len();
    let mut i: usize = 0;
    while i < len && i + 1 < len
        invariant
            i <= len,
            len == s@.len(),
            forall|j: int| 0 <= j < i ==> !compressed_at(s@, j),
        decreases len - i,
    {
        if s[i] == ':' && s[i + 1] == ':' {
            let head = slice_subrange(s, 0, i);
            let tail = slice_subrange(s, i + 2, len);
            assert(head@ =~= s@.take(i as int));
            assert(tail@ =~= s@.skip(i + 2));
            match (count_side(head, false), count_side(tail, true)) {
                (Some(a), Some(b)) => {
                    if a <= 7 && b <= 7 - a {
                        assert(compressed_at(s@, i as int));
                        return true;
                    }
                },
                _ => {},
            }
        }
        i += 1;
    }
    assert forall|j: int| !compressed_at(s@, j) by {
        if compressed_at(s@, j) {
            assert(j < i);
        }
    }
    false
}

/// Whether a text is an IPv4 or IPv6 address.
pub fn is_ip_address(s: &[char]) -> (r: bool)
    ensures
        r == (is_ipv4(s@) || is_ipv6(s@)),
{
    match count_octets(s) {
        Some(n) => {
            if n == 4 {
                return true;
            }
        },
        None => {},
    }
    is_ipv6_address(s)
}

// Which texts are addresses.

proof fn lemma_octet(n: u8)
    ensures
        is_octet(decimal(n as nat)),
        !decimal(n as nat).contains('.'),
{
    let text = decimal(n as nat);
    decimal_reads_back(n as nat);
    reveal_with_fuel(decimal, 4);
    if text.contains('.') {
        let i = choose|i: int| 0 <= i < text.len() && text[i] == '.';
        assert(is_digit(text[i]));
    }
}

proof fn lemma_octets(first: u8, rest: Seq<char>)
    ensures
        octet_count(decimal(first as nat)) == Some(1int),
        octet_count(decimal(first as nat) + (seq!['.'] + rest)) == match octet_count(rest) {
            Some(n) => Some(n + 1),
            None => None::<int>,
        },
{
    let text = decimal(first as nat);
    lemma_octet(first);
    let k = text.len() as int;
    assert forall|i: int| 0 <= i < k implies text[i] != '.' by {
        assert(text.contains(text[i]));
    }
    lemma_first_index(text, '.', k);
    let all = text + (seq!['.'] + rest);
    assert forall|i: int| 0 <= i < k implies all[i] != '.' by {
        assert(all[i] == text[i]);
        assert(text.contains(text[i]));
    }
    assert(all[k] == '.');
    lemma_first_index(all, '.', k);
    assert(all.take(k) =~= text);
    assert(all.skip(k + 1) =~= rest);
}

/// Four numbers of a byte each, with dots between them, are an address, and
/// three or five are none.
pub proof fn dotted_numbers_are_addresses(a: u8, b: u8, c: u8, d: u8, e: u8)
    ensures
        ({
            let three = decimal(b as nat) + (seq!['.'] + (decimal(c as nat) + (seq!['.'] + decimal(
                d as nat,
            ))));
            let four = decimal(a as nat) + (seq!['.'] + three);
            is_ipv4(four) && !is_ipv4(three) && !is_ipv4(decimal(e as nat) + (seq!['.'] + four))
        }),
{
    let one = decimal(d as nat);
    let two = decimal(c as nat) + (seq!['.'] + one);
    let three = decimal(b as nat) + (seq!['.'] + two);
    let four = decimal(a as nat) + (seq!['.'] + three);
    lemma_octets(d, one);
    lemma_octets(c, one);
    lemma_octets(b, two);
    lemma_octets(a, three);
    lemma_octets(e, four);
}

/// A character that an address can hold.
pub open spec fn address_char(c: char) -> bool {
    is_hex_digit(c) || c == ':' || c == '.'
}

proof fn lemma_octet_chars(s: Seq<char>, i: int)
    requires
        octet_count(s) is Some,
        0 <= i < s.len(),
    ensures
        is_digit(s[i]) || s[i] == '.',
    decreases s.len(),
{
    let k = first_index(s, '.');
    lemma_first_index_bounds(s, '.');
    if k < s.len() {
        if i < k {
            assert(s.take(k)[i] == s[i]);
        } else if i > k {
            lemma_octet_chars(s.skip(k + 1), i - k - 1);
        }
    }
}

proof fn lemma_group_chars(s: Seq<char>, dotted: bool, i: int)
    requires
        group_count(s, dotted) is Some,
        0 <= i < s.len(),
    ensures
        address_char(s[i]),
    decreases s.len(),
{
    let k = first_index(s, ':');
    lemma_first_index_bounds(s, ':');
    if k < s.len() {
        if i < k {
            assert(s.take(k)[i] == s[i]);
        } else if i > k {
            lemma_group_chars(s.skip(k + 1), dotted, i - k - 1);
        }
    } else if !is_hex_group(s) {
        lemma_octet_chars(s, i);
    }
}

/// A name is no address: an address holds hexadecimal digits, colons and dots
/// alone.
pub proof fn names_are_no_addresses(s: &[char], r: bool, i: int)
    requires
        call_ensures(is_ip_address, (s,), r),
        0 <= i < s@.len(),
        !address_char(s@[i]),
    ensures
        !r,
{
    let text = s@;
    if is_ipv4(text) {
        lemma_octet_chars(text, i);
    }
    if group_count(text, true) == Some(8int) {
        lemma_group_chars(text, true, i);
    }
    if exists|j: int| compressed_at(text, j) {
        let j = choose|j: int| compressed_at(text, j);
        if i < j {
            lemma_group_chars(text.take(j), false, i);
        } else if i > j + 1 {
            lemma_group_chars(text.skip(j + 2), true, i - j - 2);
        }
    }
}

/// Two colons stand for what is left out of an address with fewer groups.
pub proof fn compressed_groups_are_addresses(group: Seq<char>)
    requires
        is_hex_group(group),
    ensures
        is_ipv6(seq![':', ':'] + group),
        is_ipv6(seq![':', ':']),
        is_ipv6(group + (seq![':', ':'] + group)),
        !is_ipv6(group),
{
    let k = group.len() as int;
    assert forall|i: int| 0 <= i < k implies group[i] != ':' by {
        assert(is_hex_digit(group[i]));
    }
    lemma_first_index(group, ':', k);
    let last = seq![':', ':'] + group;
    assert(last.take(0) =~= Seq::<char>::empty());
    assert(last.skip(2) =~= group);
    assert(compressed_at(last, 0));
    let none = seq![':', ':'];
    assert(none.take(0) =~= Seq::<char>::empty());
    assert(none.skip(2) =~= Seq::<char>::empty());
    assert(compressed_at(none, 0));
    let both = group + last;
    assert(both.take(k) =~= group);
    assert(both.skip(k + 2) =~= group);
    assert(compressed_at(both, k));
    if exists|i: int| compressed_at(group, i) {
        let i = choose|i: int| compressed_at(group, i);
        assert(is_hex_digit(group[i]));
    }
}

} // verus!
