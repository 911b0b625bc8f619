//! Characters, words, lines and numbers of text, as sequences.
use vstd::prelude::*;
use vstd::slice::slice_subrange;
use vstd::utf8::{decode_utf8, valid_utf8};

verus! {

/// The standard library's `String::push`: the character becomes the last one.
pub assume_specification[ String::push ](s: &mut String, c: char)
    ensures
        final(s)@ == old(s)@.push(c),
;

/// The standard library's `str::from_utf8`: bytes that are valid UTF-8 are
/// borrowed as the text that they encode, any others are refused.
#[verifier::external_body]
pub(crate) fn utf8_text(bytes: &[u8]) -> (r: Option<&str>)
    ensures
        r is Some <==> valid_utf8(bytes@),
        r matches Some(text) ==> text@ == decode_utf8(bytes@),
{
    std::str::from_utf8(bytes).ok()
}

/// The text that `String::from_utf8_lossy` makes of any bytes.
pub uninterp spec fn lossy_text(bytes: Seq<u8>) -> Seq<char>;

/// The standard library's `String::from_utf8_lossy`: a text for any bytes,
/// the encoded one where they are valid UTF-8. What stands in place of the
/// invalid parts is only named.
#[verifier::external_body]
pub(crate) fn utf8_lossy(bytes: &[u8]) -> (text: String)
    ensures
        text@ == lossy_text(bytes@),
        valid_utf8(bytes@) ==> text@ == decode_utf8(bytes@),
{
    String::from_utf8_lossy(bytes).into_owned()
}

/// The text of any bytes: the one that they encode, or what
/// `String::from_utf8_lossy` makes of bytes that are no UTF-8.
pub open spec fn shown_text(bytes: Seq<u8>) -> Seq<char> {
    if valid_utf8(bytes) {
        decode_utf8(bytes)
    } else {
        lossy_text(bytes)
    }
}

/// One byte for each character: the encoding of ASCII text.
pub open spec fn ascii(s: Seq<char>) -> Seq<u8> {
    s.map_values(|c: char| c as u8)
}

/// The first position of `s` that holds `c`, or the length of `s` where none does.
pub open spec fn first_index<T>(s: Seq<T>, c: T) -> int
    decreases s.len(),
{
    if s.len() == 0 || s[0] == c {
        0
    } else {
        1 + first_index(s.skip(1), c)
    }
}

pub proof fn lemma_first_index<T>(s: Seq<T>, c: T, k: int)
    requires
        0 <= k <= s.len(),
        forall|i: int| 0 <= i < k ==> s[i] != c,
        k < s.len() ==> s[k] == c,
    ensures
        first_index(s, c) == k,
    decreases s.len(),
{
    if s.len() != 0 && s[0] != c {
        assert forall|i: int| 0 <= i < k - 1 implies s.skip(1)[i] != c by {
            assert(s.skip(1)[i] == s[i + 1]);
        }
        lemma_first_index(s.skip(1), c, k - 1);
    }
}

pub proof fn lemma_first_index_bounds<T>(s: Seq<T>, c: T)
    ensures
        0 <= first_index(s, c) <= s.len(),
        forall|i: int| 0 <= i < first_index(s, c) ==> s[i] != c,
        first_index(s, c) < s.len() ==> s[first_index(s, c)] == c,
        first_index(s, c) < s.len() <==> s.contains(c),
    decreases s.len(),
{
    if s.len() != 0 && s[0] != c {
        lemma_first_index_bounds(s.skip(1), c);
        assert forall|i: int| 0 <= i < first_index(s, c) implies s[i] != c by {
            if i > 0 {
                assert(s.skip(1)[i - 1] == s[i]);
            }
        }
        if s.contains(c) {
            let i = choose|i: int| 0 <= i < s.len() && s[i] == c;
            assert(s.skip(1)[i - 1] == c);
        }
    } else if s.len() != 0 {
        assert(s[0] == c);
    }
}

/// The last position of `s` that holds `c`, or -1 where none does.
pub open spec fn last_index<T>(s: Seq<T>, c: T) -> int
    decreases s.len(),
{
    if s.len() == 0 {
        -1
    } else if s.last() == c {
        s.len() - 1
    } else {
        last_index(s.drop_last(), c)
    }
}

pub proof fn lemma_last_index<T>(s: Seq<T>, c: T, k: int)
    requires
        -1 <= k < s.len(),
        forall|i: int| k < i < s.len() ==> s[i] != c,
        k >= 0 ==> s[k] == c,
    ensures
        last_index(s, c) == k,
    decreases s.len(),
{
    if s.len() != 0 && s.last() != c {
        lemma_last_index(s.drop_last(), c, k);
    }
}

/// The characters with the Unicode property `White_Space`.
pub open spec fn is_space(c: char) -> bool {
    ||| '\u{9}' <= c <= '\u{d}'
    ||| c == ' '
    ||| c == '\u{85}'
    ||| c == '\u{a0}'
    ||| c == '\u{1680}'
    ||| '\u{2000}' <= c <= '\u{200a}'
    ||| c == '\u{2028}'
    ||| c == '\u{2029}'
    ||| c == '\u{202f}'
    ||| c == '\u{205f}'
    ||| c == '\u{3000}'
}

pub fn char_is_space(c: char) -> (r: bool)
    ensures
        r == is_space(c),
{
    ('\u{9}' <= c && c <= '\u{d}') || c == ' ' || c == '\u{85}' || c == '\u{a0}' || c == '\u{1680}'
        || ('\u{2000}' <= c && c <= '\u{200a}') || c == '\u{2028}' || c == '\u{2029}' || c
        == '\u{202f}' || c == '\u{205f}' || c == '\u{3000}'
}

pub open spec fn is_upper(c: char) -> bool {
    'A' <= c <= 'Z'
}

pub open spec fn is_letter(c: char) -> bool {
    ('a' <= c <= 'z') || is_upper(c)
}

pub open spec fn is_digit(c: char) -> bool {
    '0' <= c <= '9'
}

pub open spec fn is_alphanumeric(c: char) -> bool {
    is_letter(c) || is_digit(c)
}

/// `c` with an ASCII capital letter made small.
pub open spec fn lower(c: char) -> char {
    if is_upper(c) {
        ((c as u32) + 32) as char
    } else {
        c
    }
}

pub open spec fn lowered(s: Seq<char>) -> Seq<char> {
    s.map_values(|c: char| lower(c))
}

/// Equality up to the case of ASCII letters.
pub open spec fn same_ignoring_case(a: Seq<char>, b: Seq<char>) -> bool {
    lowered(a) == lowered(b)
}

pub fn char_is_letter(c: char) -> (r: bool)
    ensures
        r == is_letter(c),
{
    ('a' <= c && c <= 'z') || ('A' <= c && c <= 'Z')
}

pub fn char_is_digit(c: char) -> (r: bool)
    ensures
        r == is_digit(c),
{
    '0' <= c && c <= '9'
}

pub fn char_is_alphanumeric(c: char) -> (r: bool)
    ensures
        r == is_alphanumeric(c),
{
    char_is_letter(c) || char_is_digit(c)
}

pub fn char_lower(c: char) -> (r: char)
    ensures
        r == lower(c),
{
    if 'A' <= c && c <= 'Z' {
        let small: u8 = (c as u8) + 32;
        small as char
    } else {
        c
    }
}

/// The position of the first whitespace character, or the length.
pub open spec fn first_space(s: Seq<char>) -> int
    decreases s.len(),
{
    if s.len() == 0 || is_space(s[0]) {
        0
    } else {
        1 + first_space(s.skip(1))
    }
}

/// The position of the first character that is no whitespace, or the length.
pub open spec fn first_ink(s: Seq<char>) -> int
    decreases s.len(),
{
    if s.len() == 0 || !is_space(s[0]) {
        0
    } else {
        1 + first_ink(s.skip(1))
    }
}

pub proof fn lemma_first_space(s: Seq<char>, k: int)
    requires
        0 <= k <= s.len(),
        forall|i: int| 0 <= i < k ==> !is_space(#[trigger] s[i]),
        k < s.len() ==> is_space(s[k]),
    ensures
        first_space(s) == k,
    decreases s.len(),
{
    if s.len() != 0 && !is_space(s[0]) {
        assert forall|i: int| 0 <= i < k - 1 implies !is_space(#[trigger] s.skip(1)[i]) by {
            assert(s.skip(1)[i] == s[i + 1]);
        }
        lemma_first_space(s.skip(1), k - 1);
    }
}

pub proof fn lemma_first_space_bounds(s: Seq<char>)
    ensures
        0 <= first_space(s) <= s.len(),
        forall|i: int| 0 <= i < first_space(s) ==> !is_space(#[trigger] s[i]),
        first_space(s) < s.len() ==> is_space(s[first_space(s)]),
    decreases s.len(),
{
    if s.len() != 0 && !is_space(s[0]) {
        lemma_first_space_bounds(s.skip(1));
        assert forall|i: int| 0 <= i < first_space(s) implies !is_space(#[trigger] s[i]) by {
            if i > 0 {
                assert(s.skip(1)[i - 1] == s[i]);
            }
        }
    }
}

pub proof fn lemma_first_ink(s: Seq<char>, k: int)
    requires
        0 <= k <= s.len(),
        forall|i: int| 0 <= i < k ==> is_space(#[trigger] s[i]),
        k < s.len() ==> !is_space(s[k]),
    ensures
        first_ink(s) == k,
    decreases s.len(),
{
    if s.len() != 0 && is_space(s[0]) {
        assert forall|i: int| 0 <= i < k - 1 implies is_space(#[trigger] s.skip(1)[i]) by {
            assert(s.skip(1)[i] == s[i + 1]);
        }
        lemma_first_ink(s.skip(1), k - 1);
    }
}

pub proof fn lemma_first_ink_bounds(s: Seq<char>)
    ensures
        0 <= first_ink(s) <= s.len(),
        forall|i: int| 0 <= i < first_ink(s) ==> is_space(#[trigger] s[i]),
        first_ink(s) < s.len() ==> !is_space(s[first_ink(s)]),
    decreases s.len(),
{
    if s.len() != 0 && is_space(s[0]) {
        lemma_first_ink_bounds(s.skip(1));
        assert forall|i: int| 0 <= i < first_ink(s) implies is_space(#[trigger] s[i]) by {
            if i > 0 {
                assert(s.skip(1)[i - 1] == s[i]);
            }
        }
    }
}

/// `s` without its leading whitespace.
pub open spec fn trim_start(s: Seq<char>) -> Seq<char> {
    s.skip(first_ink(s))
}

/// `s` without its trailing whitespace.
pub open spec fn trim_end(s: Seq<char>) -> Seq<char>
    decreases s.len(),
{
    if s.len() == 0 || !is_space(s.last()) {
        s
    } else {
        trim_end(s.drop_last())
    }
}

/// `s` without its leading and trailing whitespace.
pub open spec fn trim(s: Seq<char>) -> Seq<char> {
    trim_end(trim_start(s))
}

/// The words of `s`: its longest runs without whitespace.
pub open spec fn words(s: Seq<char>) -> Seq<Seq<char>>
    decreases s.len(),
    via words_decreases
{
    let t = trim_start(s);
    if t.len() == 0 {
        Seq::empty()
    } else {
        seq![t.take(first_space(t))] + words(t.skip(first_space(t)))
    }
}

#[via_fn]
proof fn words_decreases(s: Seq<char>) {
    lemma_first_ink_bounds(s);
    let t = trim_start(s);
    lemma_first_space_bounds(t);
    if t.len() > 0 {
        assert(t[0] == s[first_ink(s)]);
    }
}

/// A line without the carriage return that belongs to its line ending.
pub open spec fn without_return(s: Seq<char>) -> Seq<char> {
    if s.len() > 0 && s.last() == '\r' {
        s.drop_last()
    } else {
        s
    }
}

/// The lines of `s`. A line ends with a line feed, or a carriage return and a
/// line feed; the ending of the last line may be missing.
pub open spec fn lines(s: Seq<char>) -> Seq<Seq<char>>
    decreases s.len(),
    via lines_decreases
{
    let k = first_index(s, '\n');
    if s.len() == 0 {
        Seq::empty()
    } else if k == s.len() {
        seq![s]
    } else {
        seq![without_return(s.take(k))] + lines(s.skip(k + 1))
    }
}

#[via_fn]
proof fn lines_decreases(s: Seq<char>) {
    lemma_first_index_bounds(s, '\n');
}

/// The decimal digits of `n`, without leading zeros.
pub open spec fn decimal(n: nat) -> Seq<char>
    decreases n,
{
    if n < 10 {
        seq![digit(n)]
    } else {
        decimal(n / 10).push(digit(n % 10))
    }
}

pub open spec fn digit(n: nat) -> char {
    (n + '0' as u32) as char
}

pub open spec fn signed_decimal(n: int) -> Seq<char> {
    if n < 0 {
        seq!['-'] + decimal((-n) as nat)
    } else {
        decimal(n as nat)
    }
}

/// The number that a sequence of decimal digits denotes.
pub open spec fn number(s: Seq<char>) -> nat
    decreases s.len(),
{
    if s.len() == 0 {
        0
    } else {
        (number(s.drop_last()) * 10 + (s.last() as u32 - '0' as u32)) as nat
    }
}

pub open spec fn all_digits(s: Seq<char>) -> bool {
    forall|i: int| 0 <= i < s.len() ==> is_digit(#[trigger] s[i])
}

/// Digits with an optional plus sign before them, up to `max`.
pub open spec fn parsed_number(s: Seq<char>, max: nat) -> Option<nat> {
    let digits = if s.len() > 0 && s[0] == '+' {
        s.skip(1)
    } else {
        s
    };
    if digits.len() > 0 && all_digits(digits) && number(digits) <= max {
        Some(number(digits))
    } else {
        None
    }
}

/// A decimal number reads back as itself.
pub proof fn decimal_reads_back(n: nat)
    ensures
        decimal(n).len() > 0,
        all_digits(decimal(n)),
        number(decimal(n)) == n,
    decreases n,
{
    if n < 10 {
        let d = digit(n);
        assert(decimal(n) == seq![d]);
        assert(is_digit(d));
        assert(decimal(n).drop_last().len() == 0);
        assert(number(decimal(n).drop_last()) == 0);
    } else {
        decimal_reads_back(n / 10);
        let d = digit(n % 10);
        assert(is_digit(d));
        assert(decimal(n).drop_last() =~= decimal(n / 10));
        assert(decimal(n).last() == d);
    }
}

pub proof fn lemma_chars_deep_view(v: Vec<char>)
    ensures
        v.deep_view() == v@,
{
    assert(v.deep_view() =~= v@);
}

/// The characters of `s`, one for each position.
pub fn chars_of(s: &str) -> (out: Vec<char>)
    ensures
        out@ == s@,
{
    let mut out: Vec<char> = Vec::new();
    for c in it: s.chars()
        invariant
            it.seq() == s@,
            out@ == it.seq().take(it.index()),
    {
        out.push(c);
    }
    assert(s@.take(s@.len() as int) == s@);
    out
}

/// One byte for each character of `s`.
pub fn ascii_bytes(s: &str) -> (out: Vec<u8>)
    ensures
        out@ == ascii(s@),
{
    let chars = chars_of(s);
    let mut out: Vec<u8> = Vec::new();
    let mut i: usize = 0;
    while i < chars.len()
        invariant
            i <= chars@.len(),
            out@.len() == i,
            forall|j: int| 0 <= j < i ==> out@[j] == chars@[j] as u8,
        decreases chars@.len() - i,
    {
        out.push(chars[i] as u8);
        i += 1;
    }
    assert(out@ =~= ascii(s@));
    out
}

/// Puts `s` at the end of a list of strings.
pub fn push_text(list: &mut Vec<String>, s: &str)
    ensures
        final(list).deep_view() == old(list).deep_view().push(s@),
{
    list.push(s.to_owned());
    assert(list.deep_view() =~= old(list).deep_view().push(s@));
}

/// A copy of a list of pairs of texts.
pub fn copy_pairs(list: &Vec<(String, String)>) -> (copy: Vec<(String, String)>)
    ensures
        copy.deep_view() == list.deep_view(),
{
    let mut copy: Vec<(String, String)> = Vec::new();
    let mut i: usize = 0;
    while i < list.len()
        invariant
            i <= list@.len(),
            copy.deep_view() == list.deep_view().take(i as int),
        decreases list@.len() - i,
    {
        let ghost before = copy.deep_view();
        copy.push((list[i].0.clone(), list[i].1.clone()));
        assert(copy.deep_view() =~= list.deep_view().take(i + 1)) by {
            assert(copy.deep_view() =~= before.push(list.deep_view()[i as int]));
        }
        i += 1;
    }
    assert(list.deep_view().take(i as int) =~= list.deep_view());
    copy
}

/// A copy of a list of texts.
pub fn copy_texts(list: &Vec<String>) -> (copy: Vec<String>)
    ensures
        copy.deep_view() == list.deep_view(),
{
    let mut copy: Vec<String> = Vec::new();
    let mut i: usize = 0;
    while i < list.len()
        invariant
            i <= list@.len(),
            copy.deep_view() == list.deep_view().take(i as int),
        decreases list@.len() - i,
    {
        let ghost before = copy.deep_view();
        copy.push(list[i].clone());
        assert(copy.deep_view() =~= list.deep_view().take(i + 1)) by {
            assert(copy.deep_view() =~= before.push(list.deep_view()[i as int]));
        }
        i += 1;
    }
    assert(list.deep_view().take(i as int) =~= list.deep_view());
    copy
}

/// The string made of the given characters.
pub fn string_of(chars: &[char]) -> (out: String)
    ensures
        out@ == chars@,
{
    let mut out = String::new();
    let mut i: usize = 0;
    while i < chars.len()
        invariant
            i <= chars@.len(),
            out@ == chars@.take(i as int),
        decreases chars@.len() - i,
    {
        out.push(chars[i]);
        i += 1;
        assert(chars@.take(i as int) == chars@.take(i - 1).push(chars@[i - 1]));
    }
    assert(chars@.take(i as int) == chars@);
    out
}

/// A copy of the given characters.
pub fn copy_of(chars: &[char]) -> (out: Vec<char>)
    ensures
        out@ == chars@,
{
    let mut out: Vec<char> = Vec::new();
    let mut i: usize = 0;
    while i < chars.len()
        invariant
            i <= chars@.len(),
            out@ == chars@.take(i as int),
        decreases chars@.len() - i,
    {
        out.push(chars[i]);
        i += 1;
        assert(chars@.take(i as int) == chars@.take(i - 1).push(chars@[i - 1]));
    }
    assert(chars@.take(i as int) == chars@);
    out
}

pub fn find_char(s: &[char], c: char) -> (k: usize)
    ensures
        k == first_index(s@, c),
        k <= s@.len(),
        k < s@.len() ==> s@[k as int] == c,
        k < s@.len() <==> s@.contains(c),
{
    let mut i: usize = 0;
    while i < s.len() && s[i] != c
        invariant
            i <= s@.len(),
            forall|j: int| 0 <= j < i ==> s@[j] != c,
        decreases s@.len() - i,
    {
        i += 1;
    }
    proof {
        lemma_first_index(s@, c, i as int);
        lemma_first_index_bounds(s@, c);
    }
    i
}

/// The last position of `c`, where it occurs.
pub fn rfind_char(s: &[char], c: char) -> (k: Option<usize>)
    ensures
        match k {
            Some(k) => k == last_index(s@, c) && k < s@.len() && s@[k as int] == c,
            None => last_index(s@, c) == -1,
        },
{
    let mut i: usize = s.len();
    while i > 0
        invariant
            i <= s@.len(),
            forall|j: int| i <= j < s@.len() ==> s@[j] != c,
        decreases i,
    {
        i -= 1;
        if s[i] == c {
            proof {
                lemma_last_index(s@, c, i as int);
            }
            return Some(i);
        }
    }
    proof {
        lemma_last_index(s@, c, -1);
    }
    None
}

pub fn same_chars(a: &[char], b: &[char]) -> (r: bool)
    ensures
        r == (a@ == b@),
{
    if a.len() != b.len() {
        return false;
    }
    let mut i: usize = 0;
    while i < a.len()
        invariant
            i <= a@.len(),
            a@.len() == b@.len(),
            a@.take(i as int) == b@.take(i as int),
        decreases a@.len() - i,
    {
        if a[i] != b[i] {
            return false;
        }
        i += 1;
        assert(a@.take(i as int) == a@.take(i - 1).push(a@[i - 1]));
        assert(b@.take(i as int) == b@.take(i - 1).push(b@[i - 1]));
    }
    assert(a@.take(i as int) == a@);
    assert(b@.take(i as int) == b@);
    true
}

/// Whether the characters spell `literal`.
pub fn spells(s: &[char], literal: &str) -> (r: bool)
    ensures
        r == (s@ == literal@),
{
    same_chars(s, chars_of(literal).as_slice())
}

/// Whether two strings hold the same characters.
pub fn same_text(a: &str, b: &str) -> (r: bool)
    ensures
        r == (a@ == b@),
{
    spells(chars_of(a).as_slice(), b)
}

pub fn starts_with(s: &[char], prefix: &[char]) -> (r: bool)
    ensures
        r == prefix@.is_prefix_of(s@),
{
    if prefix.len() > s.len() {
        return false;
    }
    let head = slice_subrange(s, 0, prefix.len());
    same_chars(head, prefix)
}

pub fn ends_with(s: &[char], suffix: &[char]) -> (r: bool)
    ensures
        r == suffix@.is_suffix_of(s@),
{
    if suffix.len() > s.len() {
        return false;
    }
    let tail = slice_subrange(s, s.len() - suffix.len(), s.len());
    same_chars(tail, suffix)
}

/// Whether the characters spell `literal` up to the case of ASCII letters.
pub fn spells_ignoring_case(s: &[char], literal: &str) -> (r: bool)
    ensures
        r == same_ignoring_case(s@, literal@),
{
    let a = lower_chars(s);
    let b = lower_chars(chars_of(literal).as_slice());
    same_chars(a.as_slice(), b.as_slice())
}

pub fn lower_chars(s: &[char]) -> (out: Vec<char>)
    ensures
        out@ == lowered(s@),
{
    let mut out: Vec<char> = Vec::new();
    let mut i: usize = 0;
    while i < s.len()
        invariant
            i <= s@.len(),
            out@.len() == i,
            forall|j: int| 0 <= j < i ==> out@[j] == lower(s@[j]),
        decreases s@.len() - i,
    {
        out.push(char_lower(s[i]));
        i += 1;
    }
    assert(out@ =~= lowered(s@));
    out
}

pub fn trim_start_chars(s: &[char]) -> (out: &[char])
    ensures
        out@ == trim_start(s@),
{
    let mut i: usize = 0;
    while i < s.len() && char_is_space(s[i])
        invariant
            i <= s@.len(),
            forall|j: int| 0 <= j < i ==> is_space(#[trigger] s@[j]),
        decreases s@.len() - i,
    {
        i += 1;
    }
    proof {
        lemma_first_ink(s@, i as int);
    }
    slice_subrange(s, i, s.len())
}

pub fn trim_end_chars(s: &[char]) -> (out: &[char])
    ensures
        out@ == trim_end(s@),
{
    let mut i: usize = s.len();
    assert(s@.take(i as int) =~= s@);
    while i > 0 && char_is_space(s[i - 1])
        invariant
            i <= s@.len(),
            trim_end(s@.take(i as int)) == trim_end(s@),
        decreases i,
    {
        assert(s@.take(i as int).drop_last() =~= s@.take(i - 1));
        i -= 1;
    }
    slice_subrange(s, 0, i)
}

pub fn trim_chars(s: &[char]) -> (out: &[char])
    ensures
        out@ == trim(s@),
{
    trim_end_chars(trim_start_chars(s))
}

/// The words of a line.
pub fn split_words(s: &[char]) -> (out: Vec<Vec<char>>)
    ensures
        out.deep_view() == words(s@),
{
    let mut out: Vec<Vec<char>> = Vec::new();
    let mut rest: &[char] = s;
    assert(out.deep_view() =~= Seq::<Seq<char>>::empty());
    loop
        invariant_except_break
            out.deep_view() + words(rest@) == words(s@),
        ensures
            out.deep_view() == words(s@),
        decreases rest@.len(),
    {
        let ghost before = rest@;
        let t = trim_start_chars(rest);
        proof {
            lemma_first_ink_bounds(before);
        }
        if t.len() == 0 {
            assert(words(before) =~= Seq::<Seq<char>>::empty());
            assert(out.deep_view() + words(before) =~= out.deep_view());
            break;
        }
        let mut k: usize = 0;
        while k < t.len() && !char_is_space(t[k])
            invariant
                k <= t@.len(),
                forall|j: int| 0 <= j < k ==> !is_space(#[trigger] t@[j]),
            decreases t@.len() - k,
        {
            k += 1;
        }
        proof {
            lemma_first_space(t@, k as int);
            assert(t@[0] == before[first_ink(before)]);
        }
        let ghost done = out.deep_view();
        let word = copy_of(slice_subrange(t, 0, k));
        proof {
            lemma_chars_deep_view(word);
        }
        out.push(word);
        rest = slice_subrange(t, k, t.len());
        proof {
            assert(t@.subrange(0, k as int) =~= t@.take(k as int));
            assert(out.deep_view() =~= done + seq![t@.take(k as int)]);
            assert(done + (seq![t@.take(k as int)] + words(rest@)) =~= out.deep_view() + words(
                rest@,
            ));
        }
    }
    out
}

/// The lines of a text.
pub fn split_lines(s: &[char]) -> (out: Vec<Vec<char>>)
    ensures
        out.deep_view() == lines(s@),
{
    let mut out: Vec<Vec<char>> = Vec::new();
    let mut rest: &[char] = s;
    assert(out.deep_view() =~= Seq::<Seq<char>>::empty());
    loop
        invariant_except_break
            out.deep_view() + lines(rest@) == lines(s@),
        ensures
            out.deep_view() == lines(s@),
        decreases rest@.len(),
    {
        let ghost before = rest@;
        let ghost done = out.deep_view();
        if rest.len() == 0 {
            assert(out.deep_view() + lines(before) =~= out.deep_view());
            break;
        }
        let k = find_char(rest, '\n');
        if k == rest.len() {
            let line = copy_of(rest);
            proof {
                lemma_chars_deep_view(line);
            }
            out.push(line);
            assert(out.deep_view() =~= done + lines(before));
            break;
        }
        let mut end: usize = k;
        if k > 0 && rest[k - 1] == '\r' {
            end = k - 1;
        }
        let line = copy_of(slice_subrange(rest, 0, end));
        let ghost text = line@;
        proof {
            lemma_chars_deep_view(line);
        }
        out.push(line);
        rest = slice_subrange(rest, k + 1, rest.len());
        proof {
            assert(text =~= without_return(before.take(k as int)));
            assert(out.deep_view() =~= done + seq![text]);
            assert(done + (seq![text] + lines(rest@)) =~= out.deep_view() + lines(rest@));
        }
    }
    out
}

/// The decimal digits of `n`.
pub fn decimal_string(n: u64) -> (out: String)
    ensures
        out@ == decimal(n as nat),
    decreases n,
{
    let d: u8 = 48 + (n % 10) as u8;
    if n < 10 {
        let mut out = String::new();
        out.push(d as char);
        assert(out@ =~= decimal(n as nat));
        out
    } else {
        let mut out = decimal_string(n / 10);
        out.push(d as char);
        out
    }
}

/// The decimal digits of `n`, with a minus sign before those of a negative one.
pub fn signed_decimal_string(n: i32) -> (out: String)
    ensures
        out@ == signed_decimal(n as int),
{
    if n < 0 {
        let magnitude: u64 = (-(n as i64)) as u64;
        let mut out = String::new();
        out.push('-');
        out.append(decimal_string(magnitude).as_str());
        assert(out@ =~= signed_decimal(n as int));
        out
    } else {
        decimal_string(n as u64)
    }
}

proof fn lemma_number_grows(s: Seq<char>, i: int)
    requires
        0 <= i <= s.len(),
        all_digits(s),
    ensures
        number(s.take(i)) <= number(s),
    decreases s.len() - i,
{
    if i < s.len() {
        assert(s.take(i + 1).drop_last() =~= s.take(i));
        assert(is_digit(s[i]));
        lemma_number_grows(s, i + 1);
    } else {
        assert(s.take(i) =~= s);
    }
}

/// Reads decimal digits, with an optional plus sign before them, up to `max`.
pub fn parse_number(s: &[char], max: u32) -> (r: Option<u32>)
    ensures
        match r {
            Some(n) => parsed_number(s@, max as nat) == Some(n as nat),
            None => parsed_number(s@, max as nat) is None,
        },
{
    let digits = if s.len() > 0 && s[0] == '+' {
        slice_subrange(s, 1, s.len())
    } else {
        s
    };
    if digits.len() == 0 {
        return None;
    }
    let ghost d = digits@;
    assert(d =~= if s@.len() > 0 && s@[0] == '+' {
        s@.skip(1)
    } else {
        s@
    });
    let mut i: usize = 0;
    let mut value: u64 = 0;
    while i < digits.len()
        invariant
            i <= digits@.len(),
            digits@ == d,
            forall|j: int| 0 <= j < i ==> is_digit(#[trigger] d[j]),
            value == number(d.take(i as int)),
            value <= max,
            d == (if s@.len() > 0 && s@[0] == '+' {
                s@.skip(1)
            } else {
                s@
            }),
        decreases digits@.len() - i,
    {
        let c = digits[i];
        if !char_is_digit(c) {
            assert(!is_digit(d[i as int]));
            return None;
        }
        value = value * 10 + (c as u64 - 48);
        i += 1;
        assert(d.take(i as int).drop_last() =~= d.take(i - 1));
        if value > max as u64 {
            proof {
                if all_digits(d) {
                    lemma_number_grows(d, i as int);
                }
            }
            return None;
        }
    }
    assert(d.take(i as int) =~= d);
    Some(value as u32)
}

/// Text without whitespace.
pub open spec fn is_inked(s: Seq<char>) -> bool {
    forall|i: int| 0 <= i < s.len() ==> !is_space(#[trigger] s[i])
}

/// A run of text without whitespace is the first word of what it begins, and
/// the words behind it follow.
pub proof fn words_are_read_from_the_front(word: Seq<char>, rest: Seq<char>)
    requires
        word.len() > 0,
        is_inked(word),
        rest.len() == 0 || is_space(rest[0]),
    ensures
        words(word + rest) == seq![word] + words(rest),
{
    let all = word + rest;
    assert(all[0] == word[0]);
    lemma_first_ink(all, 0);
    assert(trim_start(all) =~= all);
    assert forall|i: int| 0 <= i < word.len() implies !is_space(#[trigger] all[i]) by {
        assert(all[i] == word[i]);
    }
    lemma_first_space(all, word.len() as int);
    assert(all.take(word.len() as int) =~= word);
    assert(all.skip(word.len() as int) =~= rest);
}

/// Whitespace in front of a text adds no word.
pub proof fn leading_blanks_add_no_word(space: char, rest: Seq<char>)
    requires
        is_space(space),
    ensures
        words(seq![space] + rest) == words(rest),
{
    let all = seq![space] + rest;
    assert(all.skip(1) =~= rest);
    assert(first_ink(all) == 1 + first_ink(rest));
    lemma_first_ink_bounds(rest);
    assert(trim_start(all) =~= trim_start(rest));
}

/// A line feed ends a line, with or without a carriage return before it.
pub proof fn lines_are_read_from_the_front(line: Seq<char>, rest: Seq<char>)
    requires
        !line.contains('\n'),
        line.len() == 0 || line.last() != '\r',
    ensures
        lines(line + (seq!['\n'] + rest)) == seq![line] + lines(rest),
        lines(line + (seq!['\r', '\n'] + rest)) == seq![line] + lines(rest),
        line.len() > 0 ==> lines(line) == seq![line],
{
    let k = line.len() as int;
    let plain = line + (seq!['\n'] + rest);
    assert forall|i: int| 0 <= i < k implies plain[i] != '\n' by {
        assert(plain[i] == line[i]);
        assert(line.contains(line[i]));
    }
    lemma_first_index(plain, '\n', k);
    assert(plain.take(k) =~= line);
    assert(plain.skip(k + 1) =~= rest);
    let returned = line + (seq!['\r', '\n'] + rest);
    assert forall|i: int| 0 <= i < k + 1 implies returned[i] != '\n' by {
        if i < k {
            assert(returned[i] == line[i]);
            assert(line.contains(line[i]));
        }
    }
    lemma_first_index(returned, '\n', k + 1);
    assert(returned.take(k + 1) =~= line.push('\r'));
    assert(line.push('\r').drop_last() =~= line);
    assert(returned.skip(k + 2) =~= rest);
    assert forall|i: int| 0 <= i < k implies line[i] != '\n' by {
        assert(line.contains(line[i]));
    }
    lemma_first_index(line, '\n', k);
}

proof fn lemma_trim_end_keeps(s: Seq<char>)
    requires
        s.len() > 0,
        !is_space(s[0]),
    ensures
        trim_end(s).len() > 0,
    decreases s.len(),
{
    if is_space(s.last()) {
        lemma_trim_end_keeps(s.drop_last());
    }
}

/// A text that does not begin with a space is not blank.
pub proof fn lemma_ink_is_text(s: Seq<char>)
    requires
        s.len() > 0,
        !is_space(s[0]),
    ensures
        trim(s).len() > 0,
{
    lemma_first_ink(s, 0);
    assert(trim_start(s) =~= s);
    lemma_trim_end_keeps(s);
}

} // verus!
