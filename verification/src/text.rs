//! Text primitives shared by both tools: comparing and scanning strings,
//! cutting a source text into lines, and reading and writing numbers.

use vstd::arithmetic::power2::{lemma2_to64, lemma_pow2_unfold, pow2};
use vstd::prelude::*;
use vstd::string::group_string_axioms;

verus! {

/// Compares two strings character by character.
pub fn equal(a: &str, b: &str) -> (same: bool)
    ensures
        same == (a@ == b@),
{
    let n = a.unicode_len();
    if n != b.unicode_len() {
        return false;
    }
    let mut i: usize = 0;
    while i < n
        invariant
            n == a@.len(),
            n == b@.len(),
            i <= n,
            forall|j: int| 0 <= j < i ==> a@[j] == b@[j],
        decreases n - i,
    {
        if a.get_char(i) != b.get_char(i) {
            return false;
        }
        i += 1;
    }
    assert(a@ =~= b@);
    true
}

/// Whether the character `c` occurs in `s`.
pub fn contains_char(s: &str, c: char) -> (found: bool)
    ensures
        found == s@.contains(c),
{
    let n = s.unicode_len();
    let mut i: usize = 0;
    while i < n
        invariant
            n == s@.len(),
            i <= n,
            forall|j: int| 0 <= j < i ==> s@[j] != c,
        decreases n - i,
    {
        if s.get_char(i) == c {
            return true;
        }
        i += 1;
    }
    false
}

/// The character that writes the decimal digit `d`.
pub open spec fn digit_char(d: nat) -> char {
    if d == 0 {
        '0'
    } else if d == 1 {
        '1'
    } else if d == 2 {
        '2'
    } else if d == 3 {
        '3'
    } else if d == 4 {
        '4'
    } else if d == 5 {
        '5'
    } else if d == 6 {
        '6'
    } else if d == 7 {
        '7'
    } else if d == 8 {
        '8'
    } else {
        '9'
    }
}

/// Whether `c` is one of the ten ASCII decimal digits.
pub open spec fn is_digit(c: char) -> bool {
    c == '0' || c == '1' || c == '2' || c == '3' || c == '4' || c == '5' || c == '6' || c == '7'
        || c == '8' || c == '9'
}

/// The value of an ASCII decimal digit; 0 for any other character.
pub open spec fn digit_value(c: char) -> nat {
    if c == '1' {
        1
    } else if c == '2' {
        2
    } else if c == '3' {
        3
    } else if c == '4' {
        4
    } else if c == '5' {
        5
    } else if c == '6' {
        6
    } else if c == '7' {
        7
    } else if c == '8' {
        8
    } else if c == '9' {
        9
    } else {
        0
    }
}

/// The decimal notation of `n`, without leading zeros.
pub open spec fn decimal_text(n: nat) -> Seq<char>
    decreases n,
{
    if n < 10 {
        seq![digit_char(n)]
    } else {
        decimal_text(n / 10).push(digit_char(n % 10))
    }
}

/// The binary notation of `n`, padded with leading zeros to at least `width`
/// characters.
pub open spec fn binary_text(n: nat, width: nat) -> Seq<char>
    decreases n, width,
{
    if n < 2 && width <= 1 {
        seq![digit_char(n)]
    } else {
        binary_text(n / 2, if width > 0 { (width - 1) as nat } else { 0 }).push(digit_char(n % 2))
    }
}

/// Whether every character of `s` is a binary digit.
pub open spec fn is_bits(s: Seq<char>) -> bool {
    forall|i: int| 0 <= i < s.len() ==> s[i] == '0' || s[i] == '1'
}

/// The binary notation of a number holds binary digits only.
pub proof fn lemma_binary_digits(n: nat, width: nat)
    ensures
        is_bits(binary_text(n, width)),
    decreases n, width,
{
    if !(n < 2 && width <= 1) {
        lemma_binary_digits(n / 2, if width > 0 { (width - 1) as nat } else { 0 });
    }
}

/// The binary notation of a number below two to the power of `width` has
/// exactly `width` digits.
pub proof fn lemma_binary_length(n: nat, width: nat)
    requires
        width >= 1,
        n < pow2(width),
    ensures
        binary_text(n, width).len() == width,
    decreases n, width,
{
    lemma2_to64();
    if !(n < 2 && width <= 1) {
        lemma_pow2_unfold(width);
        lemma_binary_length(n / 2, (width - 1) as nat);
    }
}

/// An address below 65536 is written as a machine word of exactly sixteen
/// binary digits.
pub proof fn lemma_address_word_shape(address: nat)
    requires
        address < 0x10000,
    ensures
        binary_text(address, 16).len() == 16,
        is_bits(binary_text(address, 16)),
{
    lemma2_to64();
    lemma_binary_length(address, 16);
    lemma_binary_digits(address, 16);
}

/// The number that a run of decimal digits writes, most significant first.
pub open spec fn digits_value(s: Seq<char>) -> nat
    decreases s.len(),
{
    if s.len() == 0 {
        0
    } else {
        digits_value(s.drop_last()) * 10 + digit_value(s.last())
    }
}

/// Whether `s` is a non-empty run of ASCII decimal digits.
pub open spec fn is_digits(s: Seq<char>) -> bool {
    s.len() > 0 && forall|i: int| 0 <= i < s.len() ==> is_digit(#[trigger] s[i])
}

/// `s` without a leading plus sign.
pub open spec fn unsigned_part(s: Seq<char>) -> Seq<char> {
    if s.len() > 0 && s[0] == '+' {
        s.subrange(1, s.len() as int)
    } else {
        s
    }
}

/// The number that `s` writes in decimal, if it writes one that does not
/// exceed `limit`: an optional plus sign, then one or more ASCII digits and
/// nothing else.
pub open spec fn decimal_value(s: Seq<char>, limit: nat) -> Option<nat> {
    let body = unsigned_part(s);
    if is_digits(body) && digits_value(body) <= limit {
        Some(digits_value(body))
    } else {
        None
    }
}

/// A prefix of a run of digits never writes a larger number than the run.
pub proof fn lemma_prefix_value(s: Seq<char>, k: int)
    requires
        0 <= k <= s.len(),
    ensures
        digits_value(s.subrange(0, k)) <= digits_value(s),
    decreases s.len() - k,
{
    if k == s.len() {
        assert(s.subrange(0, k) =~= s);
    } else {
        lemma_prefix_value(s.drop_last(), k);
        assert(s.drop_last().subrange(0, k) =~= s.subrange(0, k));
    }
}

/// Reading what was written gives the number back: the decimal notation of
/// a number is a run of digits that writes that number.
pub proof fn lemma_decimal_round_trip(n: nat)
    ensures
        is_digits(decimal_text(n)),
        digits_value(decimal_text(n)) == n,
    decreases n,
{
    let s = decimal_text(n);
    if n < 10 {
        assert(s.drop_last() =~= Seq::<char>::empty());
        assert(digits_value(s.drop_last()) == 0);
    } else {
        lemma_decimal_round_trip(n / 10);
        assert(s.drop_last() =~= decimal_text(n / 10));
        assert(s.last() == digit_char(n % 10));
        assert forall|i: int| 0 <= i < s.len() implies is_digit(#[trigger] s[i]) by {
            if i < s.len() - 1 {
                assert(s[i] == decimal_text(n / 10)[i]);
            }
        }
    }
}

/// Different numbers have different decimal notations.
pub proof fn lemma_decimal_distinct(a: nat, b: nat)
    requires
        a != b,
    ensures
        decimal_text(a) != decimal_text(b),
{
    lemma_decimal_round_trip(a);
    lemma_decimal_round_trip(b);
}

fn digit_str(d: u64) -> (s: &'static str)
    requires
        d < 10,
    ensures
        s@ == seq![digit_char(d as nat)],
{
    proof {
        reveal_strlit("0");
        reveal_strlit("1");
        reveal_strlit("2");
        reveal_strlit("3");
        reveal_strlit("4");
        reveal_strlit("5");
        reveal_strlit("6");
        reveal_strlit("7");
        reveal_strlit("8");
        reveal_strlit("9");
    }
    let s = if d == 0 {
        "0"
    } else if d == 1 {
        "1"
    } else if d == 2 {
        "2"
    } else if d == 3 {
        "3"
    } else if d == 4 {
        "4"
    } else if d == 5 {
        "5"
    } else if d == 6 {
        "6"
    } else if d == 7 {
        "7"
    } else if d == 8 {
        "8"
    } else {
        "9"
    };
    assert(s@ =~= seq![digit_char(d as nat)]);
    s
}

fn digit_of(c: char) -> (d: Option<u8>)
    ensures
        match d {
            Some(v) => is_digit(c) && v == digit_value(c),
            None => !is_digit(c),
        },
{
    match c {
        '0' => Some(0),
        '1' => Some(1),
        '2' => Some(2),
        '3' => Some(3),
        '4' => Some(4),
        '5' => Some(5),
        '6' => Some(6),
        '7' => Some(7),
        '8' => Some(8),
        '9' => Some(9),
        _ => None,
    }
}

/// Writes `n` in decimal.
pub fn decimal(n: u64) -> (s: String)
    ensures
        s@ == decimal_text(n as nat),
    decreases n,
{
    if n < 10 {
        String::from_str(digit_str(n))
    } else {
        let mut s = decimal(n / 10);
        s.append(digit_str(n % 10));
        s
    }
}

/// Writes `n` in binary, padded with leading zeros to at least `width`
/// characters.
pub fn binary(n: u32, width: u32) -> (s: String)
    ensures
        s@ == binary_text(n as nat, width as nat),
    decreases n, width,
{
    if n < 2 && width <= 1 {
        String::from_str(digit_str(n as u64))
    } else {
        let mut s = binary(n / 2, if width > 0 { width - 1 } else { 0 });
        s.append(digit_str((n % 2) as u64));
        s
    }
}

/// Whether `s` writes a number in decimal, however large: an optional plus
/// sign, then one or more ASCII digits and nothing else.
pub fn is_number(s: &str) -> (yes: bool)
    ensures
        yes == is_digits(unsigned_part(s@)),
{
    let n = s.unicode_len();
    let start: usize = if n > 0 && s.get_char(0) == '+' { 1 } else { 0 };
    let ghost body = unsigned_part(s@);
    assert(body =~= s@.subrange(start as int, n as int));
    if start == n {
        return false;
    }
    let mut i: usize = start;
    while i < n
        invariant
            n == s@.len(),
            start <= i <= n,
            start < n,
            body == unsigned_part(s@),
            body == s@.subrange(start as int, n as int),
            forall|j: int| 0 <= j < i - start ==> is_digit(#[trigger] body[j]),
        decreases n - i,
    {
        if digit_of(s.get_char(i)).is_none() {
            assert(!is_digit(body[i - start]));
            return false;
        }
        i += 1;
    }
    true
}

/// Reads a decimal number that does not exceed `limit`.
pub fn parse_decimal(s: &str, limit: u64) -> (value: Option<u64>)
    ensures
        match value {
            Some(v) => decimal_value(s@, limit as nat) == Some(v as nat),
            None => decimal_value(s@, limit as nat) is None,
        },
{
    let n = s.unicode_len();
    let start: usize = if n > 0 && s.get_char(0) == '+' { 1 } else { 0 };
    let ghost body = unsigned_part(s@);
    assert(body =~= s@.subrange(start as int, n as int));
    if start == n {
        return None;
    }
    let mut acc: u128 = 0;
    let mut i: usize = start;
    while i < n
        invariant
            n == s@.len(),
            start <= i <= n,
            body == unsigned_part(s@),
            body == s@.subrange(start as int, n as int),
            forall|j: int| 0 <= j < i - start ==> is_digit(#[trigger] body[j]),
            acc == digits_value(body.subrange(0, i - start)),
            acc <= limit,
        decreases n - i,
    {
        let c = s.get_char(i);
        match digit_of(c) {
            None => {
                assert(!is_digit(body[i - start]));
                return None;
            },
            Some(d) => {
                proof {
                    let next = body.subrange(0, i - start + 1);
                    assert(next.drop_last() =~= body.subrange(0, i - start));
                    assert(next.last() == c);
                }
                acc = acc * 10 + d as u128;
                if acc > limit as u128 {
                    proof {
                        lemma_prefix_value(body, i - start + 1);
                    }
                    return None;
                }
            },
        }
        i += 1;
    }
    assert(body.subrange(0, n - start) =~= body);
    Some(acc as u64)
}

/// The text of an optional string.
pub open spec fn optional_text(s: Option<String>) -> Option<Seq<char>> {
    match s {
        Some(t) => Some(t@),
        None => None,
    }
}

/// The texts that a sequence of strings holds.
pub open spec fn texts(v: Seq<String>) -> Seq<Seq<char>> {
    Seq::new(v.len(), |i: int| v[i]@)
}

/// The text that holds `lines` in their order, each followed by a line feed.
pub open spec fn listing(lines: Seq<Seq<char>>) -> Seq<char>
    decreases lines.len(),
{
    if lines.len() == 0 {
        Seq::empty()
    } else {
        listing(lines.drop_last()) + lines.last() + "\n"@
    }
}

/// The number of characters before the first line feed of `text`; the length
/// of `text` where it holds none.
pub open spec fn line_length(text: Seq<char>) -> nat
    decreases text.len(),
{
    if text.len() == 0 || text[0] == '\n' {
        0
    } else {
        1 + line_length(text.drop_first())
    }
}

/// `line` without a carriage return at its end.
pub open spec fn without_return(line: Seq<char>) -> Seq<char> {
    if line.len() > 0 && line.last() == '\r' {
        line.drop_last()
    } else {
        line
    }
}

/// The lines of `text`. A line ends at a line feed, or at a carriage return
/// directly followed by one; the terminator is not part of the line. What
/// follows the last line feed is a line only if it is not empty.
pub open spec fn lines_of(text: Seq<char>) -> Seq<Seq<char>>
    decreases text.len(),
{
    if text.len() == 0 {
        Seq::empty()
    } else {
        let k = line_length(text) as int;
        if k >= text.len() {
            seq![text]
        } else {
            seq![without_return(text.subrange(0, k))] + lines_of(
                text.subrange(k + 1, text.len() as int),
            )
        }
    }
}

/// Whether a line reaches the tools: it is not empty and does not start with
/// the comment marker `//`.
pub open spec fn is_source_line(line: Seq<char>) -> bool {
    line.len() > 0 && !(line.len() >= 2 && line[0] == '/' && line[1] == '/')
}

/// The lines among `lines` that reach the tools, in their order.
pub open spec fn retain_source(lines: Seq<Seq<char>>) -> Seq<Seq<char>>
    decreases lines.len(),
{
    if lines.len() == 0 {
        Seq::empty()
    } else if is_source_line(lines.last()) {
        retain_source(lines.drop_last()).push(lines.last())
    } else {
        retain_source(lines.drop_last())
    }
}

/// The source lines of `text`: its lines, without the empty ones and the
/// full-line comments.
pub open spec fn source_lines(text: Seq<char>) -> Seq<Seq<char>> {
    retain_source(lines_of(text))
}

/// `line_length` is the position of the first line feed.
pub proof fn lemma_line_length(text: Seq<char>, k: int)
    requires
        0 <= k <= text.len(),
        forall|j: int| 0 <= j < k ==> text[j] != '\n',
        k == text.len() || text[k] == '\n',
    ensures
        line_length(text) == k,
    decreases k,
{
    if k > 0 {
        lemma_line_length(text.drop_first(), k - 1);
    }
}

/// `String::push` of the standard library: the string gets one more
/// character at its end.
pub assume_specification[ String::push ](s: &mut String, ch: char)
    ensures
        final(s)@ == old(s)@.push(ch),
;

/// Writes the first `end` of `chars` into a string.
fn text_from(chars: &Vec<char>, end: usize) -> (text: String)
    requires
        end <= chars.len(),
    ensures
        text@ == chars@.take(end as int),
{
    let mut text = String::new();
    let mut i: usize = 0;
    while i < end
        invariant
            i <= end <= chars.len(),
            text@ == chars@.take(i as int),
        decreases end - i,
    {
        assert(chars@.take(i + 1) =~= chars@.take(i as int).push(chars@[i as int]));
        text.push(chars[i]);
        i += 1;
    }
    text
}

/// Cuts `text` into its lines.
pub fn split_lines(text: &str) -> (lines: Vec<String>)
    ensures
        texts(lines@) == lines_of(text@),
{
    broadcast use group_string_axioms;

    let ghost n = text@.len() as int;
    let ghost mut start: int = 0;
    let mut lines: Vec<String> = Vec::new();
    let mut current: Vec<char> = Vec::new();
    assert(text@.subrange(0, n) =~= text@);
    assert(texts(lines@) + lines_of(text@) =~= lines_of(text@));
    assert(current@ =~= text@.subrange(0, 0));
    for c in it: text.chars()
        invariant
            it.seq() == text@,
            n == text@.len(),
            0 <= start <= it.index() <= n,
            current@ == text@.subrange(start, it.index() as int),
            forall|j: int| start <= j < it.index() ==> text@[j] != '\n',
            lines_of(text@) == texts(lines@) + lines_of(text@.subrange(start, n)),
    {
        let ghost i = it.index() as int;
        if c == '\n' {
            let length = current.len();
            let end: usize = if length > 0 && current[length - 1] == '\r' {
                length - 1
            } else {
                length
            };
            let line = text_from(&current, end);
            proof {
                let rest = text@.subrange(start, n);
                let k = i - start;
                lemma_line_length(rest, k);
                assert(rest.subrange(0, k) =~= current@);
                assert(rest.subrange(k + 1, rest.len() as int) =~= text@.subrange(i + 1, n));
                assert(line@ =~= without_return(current@));
                assert(texts(lines@.push(line)) =~= texts(lines@).push(line@));
                assert(texts(lines@).push(line@) + lines_of(text@.subrange(i + 1, n))
                    =~= texts(lines@) + lines_of(rest));
                start = i + 1;
            }
            lines.push(line);
            current = Vec::new();
            assert(current@ =~= text@.subrange(start, i + 1));
        } else {
            current.push(c);
            assert(current@ =~= text@.subrange(start, i + 1));
        }
    }
    let length = current.len();
    if length > 0 {
        let line = text_from(&current, length);
        proof {
            let rest = text@.subrange(start, n);
            lemma_line_length(rest, n - start);
            assert(line@ =~= rest);
            assert(texts(lines@.push(line)) =~= texts(lines@).push(line@));
            assert(texts(lines@).push(line@) =~= texts(lines@) + lines_of(rest));
        }
        lines.push(line);
    } else {
        assert(texts(lines@) + lines_of(text@.subrange(start, n)) =~= texts(lines@));
    }
    lines
}

/// Whether a line reaches the tools.
pub fn keeps_line(line: &str) -> (keep: bool)
    ensures
        keep == is_source_line(line@),
{
    let n = line.unicode_len();
    if n == 0 {
        false
    } else if n >= 2 && line.get_char(0) == '/' && line.get_char(1) == '/' {
        false
    } else {
        true
    }
}

/// Cuts `text` into lines and drops the empty ones and the full-line
/// comments.
pub fn read_source(text: &str) -> (lines: Vec<String>)
    ensures
        texts(lines@) == source_lines(text@),
{
    let all = split_lines(text);
    let mut lines: Vec<String> = Vec::new();
    let mut i: usize = 0;
    assert(texts(all@).take(0) =~= Seq::empty());
    assert(texts(lines@) =~= Seq::empty());
    while i < all.len()
        invariant
            i <= all.len(),
            texts(lines@) == retain_source(texts(all@).take(i as int)),
        decreases all.len() - i,
    {
        proof {
            let next = texts(all@).take(i + 1);
            assert(next.drop_last() =~= texts(all@).take(i as int));
            assert(next.last() == all@[i as int]@);
        }
        if keeps_line(all[i].as_str()) {
            let line = all[i].clone();
            assert(texts(lines@.push(line)) =~= texts(lines@).push(line@));
            lines.push(line);
        }
        i += 1;
    }
    assert(texts(all@).take(all.len() as int) =~= texts(all@));
    lines
}

/// Writes `lines` as one text, each followed by a line feed.
pub fn join_lines(lines: &Vec<String>) -> (text: String)
    ensures
        text@ == listing(texts(lines@)),
{
    let mut text = String::new();
    let mut i: usize = 0;
    assert(texts(lines@).take(0) =~= Seq::empty());
    while i < lines.len()
        invariant
            i <= lines.len(),
            text@ == listing(texts(lines@).take(i as int)),
        decreases lines.len() - i,
    {
        proof {
            let next = texts(lines@).take(i + 1);
            assert(next.drop_last() =~= texts(lines@).take(i as int));
            assert(next.last() == lines@[i as int]@);
        }
        text.append(lines[i].as_str());
        text.append("\n");
        i += 1;
    }
    assert(texts(lines@).take(lines.len() as int) =~= texts(lines@));
    text
}

} // verus!
