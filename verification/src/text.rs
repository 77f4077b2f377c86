//! Reading and building text.
//!
//! Contracts speak of the characters of a string (`Seq<char>`). The standard
//! library's string functions that have no specification are written out here
//! as loops over characters, or declared as trusted where they decode bytes.

use vstd::prelude::*;
use vstd::string::*;
use vstd::utf8::*;

verus! {

/// `String::push` of the standard library: appends one character.
pub assume_specification[ String::push ](s: &mut String, c: char)
    ensures
        final(s)@ == old(s)@.push(c),
;

/// What `String::from_utf8_lossy` makes of a run of bytes.
pub uninterp spec fn utf8_lossy(bytes: Seq<u8>) -> Seq<char>;

/// `String::from_utf8_lossy` of the standard library, with its result owned.
/// The text is a function of the bytes; valid UTF-8 is decoded as it stands.
/// What stands in for invalid runs is left to the name `utf8_lossy`.
#[verifier::external_body]
pub(crate) fn string_from_utf8_lossy(bytes: &[u8]) -> (text: String)
    ensures
        text@ == utf8_lossy(bytes@),
        valid_utf8(bytes@) ==> text@ == decode_utf8(bytes@),
{
    String::from_utf8_lossy(bytes).into_owned()
}

/// `String::from_utf8` of the standard library: succeeds on valid UTF-8 alone
/// and then decodes it.
#[verifier::external_body]
pub(crate) fn string_from_utf8(bytes: Vec<u8>) -> (text: Option<String>)
    ensures
        text is Some <==> valid_utf8(bytes@),
        text matches Some(s) ==> s@ == decode_utf8(bytes@),
{
    String::from_utf8(bytes).ok()
}

/// What the standard library's debug format makes of a list of texts.
pub uninterp spec fn debug_list_text(list: Seq<Seq<char>>) -> Seq<char>;

/// The debug format (`{:?}`) of a vector of strings, of the standard library.
/// The text is a function of the strings; how it quotes and parts them is left
/// to the name `debug_list_text`.
#[verifier::external_body]
pub(crate) fn debug_list(list: &Vec<&str>) -> (text: String)
    ensures
        text@ == debug_list_text(list@.map_values(|s: &str| s@)),
{
    format!("{:?}", list)
}

/// `true` or `false`.
pub open spec fn truth_text(b: bool) -> Seq<char> {
    if b {
        "true"@
    } else {
        "false"@
    }
}

/// Writes a Boolean out.
pub fn truth(b: bool) -> (s: String)
    ensures
        s@ == truth_text(b),
{
    if b {
        "true".to_owned()
    } else {
        "false".to_owned()
    }
}

/// Whether two strings hold the same characters.
pub fn str_eq(a: &str, b: &str) -> (same: bool)
    ensures
        same == (a@ == b@),
{
    let x = a.as_bytes();
    let y = b.as_bytes();
    proof {
        encode_utf8_decode_utf8(a@);
        encode_utf8_decode_utf8(b@);
    }
    if x.len() != y.len() {
        return false;
    }
    let n: usize = x.len();
    let mut i: usize = 0;
    while i < n
        invariant
            i <= n,
            n == x@.len(),
            n == y@.len(),
            x@ == encode_utf8(a@),
            y@ == encode_utf8(b@),
            forall|k: int| 0 <= k < i ==> x@[k] == y@[k],
        decreases n - i,
    {
        if x[i] != y[i] {
            return false;
        }
        i += 1;
    }
    assert(x@ =~= y@);
    true
}

/// The characters of a string, in order.
pub fn chars_of(s: &str) -> (chars: Vec<char>)
    ensures
        chars@ == s@,
{
    let mut chars: Vec<char> = Vec::new();
    for c in it: s.chars()
        invariant
            it.seq() == s@,
            chars@ =~= s@.take(it.index()),
    {
        chars.push(c);
    }
    assert(s@.take(s@.len() as int) =~= s@);
    chars
}

/// The string that holds the characters from `from` up to `to`.
pub fn string_of(chars: &Vec<char>, from: usize, to: usize) -> (s: String)
    requires
        from <= to <= chars@.len(),
    ensures
        s@ == chars@.subrange(from as int, to as int),
{
    let mut s = String::new();
    let mut i: usize = from;
    while i < to
        invariant
            from <= i <= to <= chars@.len(),
            s@ =~= chars@.subrange(from as int, i as int),
        decreases to - i,
    {
        s.push(chars[i]);
        i += 1;
    }
    s
}

/// What stands at `i`, and nowhere before it, is first found there.
pub proof fn lemma_first_at<T>(s: Seq<T>, x: T, i: int)
    requires
        0 <= i < s.len(),
        s[i] == x,
        forall|k: int| 0 <= k < i ==> s[k] != x,
    ensures
        s.index_of_first(x) == Some(i),
{
    s.index_of_first_ensures(x);
    assert(s.contains(x));
    let j = s.index_of_first(x)->0;
    if i < j {
        assert(s.take(j)[i] == x);
    }
}

/// What stands nowhere is not found.
pub proof fn lemma_first_nowhere<T>(s: Seq<T>, x: T)
    requires
        forall|k: int| 0 <= k < s.len() ==> s[k] != x,
    ensures
        s.index_of_first(x) is None,
{
    s.index_of_first_ensures(x);
}

/// The characters before the first `c`, all of them where there is none.
pub open spec fn before_first(s: Seq<char>, c: char) -> Seq<char> {
    match s.index_of_first(c) {
        Some(i) => s.take(i),
        None => s,
    }
}

/// The characters behind the last `c`, all of them where there is none.
pub open spec fn after_last(s: Seq<char>, c: char) -> Seq<char> {
    match s.index_of_last(c) {
        Some(i) => s.skip(i + 1),
        None => s,
    }
}

/// The part of `s` before its first `c`.
pub fn text_before(s: &str, c: char) -> (head: String)
    ensures
        head@ == before_first(s@, c),
{
    let chars = chars_of(s);
    let n: usize = chars.len();
    let mut i: usize = 0;
    while i < n
        invariant
            i <= n,
            n == chars@.len(),
            chars@ == s@,
            forall|k: int| 0 <= k < i ==> s@[k] != c,
        decreases n - i,
    {
        if chars[i] == c {
            proof {
                lemma_first_at(s@, c, i as int);
                assert(s@.take(i as int) =~= s@.subrange(0, i as int));
            }
            return string_of(&chars, 0, i);
        }
        i += 1;
    }
    proof {
        lemma_first_nowhere(s@, c);
        assert(s@.subrange(0, n as int) =~= s@);
    }
    string_of(&chars, 0, n)
}

/// The part of `s` behind its last `c`.
pub fn text_after_last(s: &str, c: char) -> (tail: String)
    ensures
        tail@ == after_last(s@, c),
{
    let chars = chars_of(s);
    let n: usize = chars.len();
    let mut i: usize = n;
    proof {
        s@.index_of_last_ensures(c);
    }
    while i > 0
        invariant
            i <= n,
            n == chars@.len(),
            chars@ == s@,
            forall|k: int| i <= k < n ==> s@[k] != c,
            match s@.index_of_last(c) {
                Some(j) => 0 <= j < s@.len() && s@[j] == c && !s@.skip(j + 1).contains(c),
                None => !s@.contains(c),
            },
        decreases i,
    {
        if chars[i - 1] == c {
            proof {
                assert(s@.contains(c));
                let j = s@.index_of_last(c)->0;
                if j < i - 1 {
                    assert(s@.skip(j + 1)[i - 1 - (j + 1)] == c);
                }
                assert(j == i - 1);
                assert(s@.skip(j + 1) =~= s@.subrange(i as int, n as int));
            }
            return string_of(&chars, i, n);
        }
        i -= 1;
    }
    proof {
        assert(!s@.contains(c));
        assert(s@.subrange(0, n as int) =~= s@);
    }
    string_of(&chars, 0, n)
}

/// `part` occurs in `s` from position `at` on.
pub open spec fn occurs_at(s: Seq<char>, part: Seq<char>, at: int) -> bool {
    &&& 0 <= at
    &&& at + part.len() <= s.len()
    &&& s.subrange(at, at + part.len()) == part
}

/// `part` occurs somewhere in `s`.
pub open spec fn occurs_in(s: Seq<char>, part: Seq<char>) -> bool {
    exists|at: int| occurs_at(s, part, at)
}

/// Whether `part` occurs somewhere in `s`.
pub fn str_contains(s: &str, part: &str) -> (found: bool)
    ensures
        found == occurs_in(s@, part@),
{
    let hay = chars_of(s);
    let needle = chars_of(part);
    let n: usize = hay.len();
    let m: usize = needle.len();
    if m > n {
        return false;
    }
    let mut at: usize = 0;
    while at <= n - m
        invariant
            m <= n,
            at <= n - m + 1,
            n == hay@.len(),
            m == needle@.len(),
            hay@ == s@,
            needle@ == part@,
            forall|k: int| 0 <= k < at ==> !occurs_at(s@, part@, k),
        decreases n - m + 1 - at,
    {
        let mut k: usize = 0;
        while k < m && hay[at + k] == needle[k]
            invariant
                k <= m,
                m <= n,
                at <= n - m,
                n == hay@.len(),
                m == needle@.len(),
                forall|j: int| 0 <= j < k ==> hay@[at + j] == needle@[j],
            decreases m - k,
        {
            k += 1;
        }
        if k == m {
            proof {
                assert(s@.subrange(at as int, at + part@.len()) =~= part@);
                assert(occurs_at(s@, part@, at as int));
            }
            return true;
        }
        proof {
            assert(s@.subrange(at as int, at + part@.len())[k as int] == hay@[at + k]);
        }
        at += 1;
    }
    false
}

/// `s` with every `from` replaced by `to`.
pub open spec fn replaced(s: Seq<char>, from: char, to: char) -> Seq<char> {
    s.map_values(|c: char| if c == from { to } else { c })
}

/// Replaces every `from` in `s` by `to`.
pub fn replace_char(s: &str, from: char, to: char) -> (out: String)
    ensures
        out@ == replaced(s@, from, to),
{
    let chars = chars_of(s);
    let mut out = String::new();
    let n: usize = chars.len();
    let mut i: usize = 0;
    while i < n
        invariant
            i <= n,
            n == chars@.len(),
            chars@ == s@,
            out@ =~= replaced(s@, from, to).take(i as int),
        decreases n - i,
    {
        let c = chars[i];
        out.push(if c == from { to } else { c });
        i += 1;
    }
    assert(replaced(s@, from, to).take(n as int) =~= replaced(s@, from, to));
    out
}

/// The character that writes the decimal digit `d`.
pub open spec fn decimal_digit(d: int) -> char {
    (48 + d) as char
}

/// `n` written in decimal, without leading zeros.
pub open spec fn decimal_text(n: nat) -> Seq<char>
    decreases n,
{
    if n < 10 {
        seq![decimal_digit(n as int)]
    } else {
        decimal_text(n / 10).push(decimal_digit((n % 10) as int))
    }
}

/// Writes `n` in decimal.
pub fn decimal(n: u64) -> (s: String)
    ensures
        s@ == decimal_text(n as nat),
    decreases n,
{
    let digit: u8 = (n % 10) as u8;
    let mut s = if n < 10 {
        String::new()
    } else {
        decimal(n / 10)
    };
    s.push((48 + digit) as char);
    proof {
        if n < 10 {
            assert(s@ =~= decimal_text(n as nat));
        }
    }
    s
}

/// Whether `c` is one of the ten decimal digits.
pub open spec fn is_decimal_digit(c: char) -> bool {
    '0' <= c <= '9'
}

/// Every character of `s` is a decimal digit.
pub open spec fn all_digits(s: Seq<char>) -> bool {
    forall|i: int| 0 <= i < s.len() ==> is_decimal_digit(#[trigger] s[i])
}

/// The number that a run of decimal digits denotes.
pub open spec fn decimal_value(s: Seq<char>) -> int
    decreases s.len(),
{
    if s.len() == 0 {
        0
    } else {
        decimal_value(s.drop_last()) * 10 + (s.last() as int - 48)
    }
}

/// The port number that `s` denotes: an optional `+`, then at least one decimal
/// digit, with a value of at most 65535.
pub open spec fn port_value(s: Seq<char>) -> Option<u16> {
    let digits = if s.len() > 0 && s[0] == '+' {
        s.skip(1)
    } else {
        s
    };
    if digits.len() > 0 && all_digits(digits) && decimal_value(digits) <= u16::MAX {
        Some(decimal_value(digits) as u16)
    } else {
        None
    }
}

proof fn lemma_decimal_value_grows(s: Seq<char>, k: int)
    requires
        all_digits(s),
        0 <= k <= s.len(),
    ensures
        0 <= decimal_value(s.take(k)) <= decimal_value(s),
    decreases s.len() - k, s.len(),
{
    if k == s.len() {
        assert(s.take(k) =~= s);
        if k > 0 {
            let t = s.drop_last();
            assert(forall|i: int| 0 <= i < t.len() ==> t[i] == s[i]);
            lemma_decimal_value_grows(t, t.len() as int);
            assert(t.take(t.len() as int) =~= t);
        }
    } else {
        lemma_decimal_value_grows(s, k + 1);
        assert(s.take(k + 1).drop_last() =~= s.take(k));
        let t = s.take(k);
        assert(forall|i: int| 0 <= i < t.len() ==> t[i] == s[i]);
        if k > 0 {
            lemma_decimal_value_nonneg(t);
        }
    }
}

proof fn lemma_decimal_value_nonneg(s: Seq<char>)
    requires
        all_digits(s),
    ensures
        decimal_value(s) >= 0,
    decreases s.len(),
{
    if s.len() > 0 {
        let t = s.drop_last();
        assert(forall|i: int| 0 <= i < t.len() ==> t[i] == s[i]);
        lemma_decimal_value_nonneg(t);
    }
}

/// Reads a port number.
pub fn parse_port(s: &str) -> (port: Option<u16>)
    ensures
        port == port_value(s@),
{
    let chars = chars_of(s);
    let n: usize = chars.len();
    let start: usize = if n > 0 && chars[0] == '+' {
        1
    } else {
        0
    };
    let ghost digits = if s@.len() > 0 && s@[0] == '+' {
        s@.skip(1)
    } else {
        s@
    };
    if start == n {
        return None;
    }
    let mut value: u32 = 0;
    let mut i: usize = start;
    while i < n
        invariant
            start <= i <= n,
            start <= 1,
            n == chars@.len(),
            chars@ == s@,
            digits == s@.skip(start as int),
            digits.len() == n - start,
            digits.len() > 0,
            port_value(s@) == (if all_digits(digits) && decimal_value(digits) <= u16::MAX {
                Some(decimal_value(digits) as u16)
            } else {
                None
            }),
            all_digits(digits.take(i - start)),
            value == decimal_value(digits.take(i - start)),
            value <= u16::MAX,
        decreases n - i,
    {
        let c = chars[i];
        assert(digits[i - start] == c);
        if c < '0' || c > '9' {
            assert(!is_decimal_digit(digits[i - start]));
            return None;
        }
        let ghost before = digits.take(i - start);
        let ghost after = digits.take(i + 1 - start);
        value = value * 10 + (c as u32 - 48);
        proof {
            assert(after.drop_last() =~= before);
            assert forall|k: int| 0 <= k < after.len() implies is_decimal_digit(
                #[trigger] after[k],
            ) by {
                if k < before.len() {
                    assert(after[k] == before[k]);
                }
            }
        }
        if value > 65535 {
            proof {
                if all_digits(digits) {
                    lemma_decimal_value_grows(digits, i + 1 - start);
                }
            }
            return None;
        }
        i += 1;
    }
    proof {
        assert(digits.take(n - start) =~= digits);
    }
    Some(value as u16)
}

/// The upper-case hexadecimal digit for `d`.
pub open spec fn hex_digit(d: int) -> char {
    if d < 10 {
        (48 + d) as char
    } else {
        (55 + d) as char
    }
}

/// `b` as two upper-case hexadecimal digits.
pub open spec fn hex_byte(b: u8) -> Seq<char> {
    seq![hex_digit(b as int / 16), hex_digit(b as int % 16)]
}

fn push_hex_digit(s: &mut String, d: u8)
    requires
        d < 16,
    ensures
        final(s)@ == old(s)@.push(hex_digit(d as int)),
{
    if d < 10 {
        s.push((48 + d) as char);
    } else {
        s.push((55 + d) as char);
    }
}

/// Appends `b` as two upper-case hexadecimal digits.
pub fn push_hex(s: &mut String, b: u8)
    ensures
        final(s)@ == old(s)@ + hex_byte(b),
{
    push_hex_digit(s, b / 16);
    push_hex_digit(s, b % 16);
    assert(s@ =~= old(s)@ + hex_byte(b));
}

/// Decimal text is made of digits, and reading it gives the number back.
pub proof fn lemma_decimal_round_trip(n: nat)
    ensures
        decimal_text(n).len() > 0,
        all_digits(decimal_text(n)),
        decimal_value(decimal_text(n)) == n,
    decreases n,
{
    if n < 10 {
        reveal_with_fuel(decimal_value, 2);
        assert(decimal_text(n).drop_last() =~= Seq::<char>::empty());
    } else {
        lemma_decimal_round_trip(n / 10);
        let s = decimal_text(n);
        assert(s.drop_last() =~= decimal_text(n / 10));
        assert forall|i: int| 0 <= i < s.len() implies is_decimal_digit(#[trigger] s[i]) by {
            if i < s.len() - 1 {
                assert(s[i] == decimal_text(n / 10)[i]);
            }
        }
    }
}

/// A port number written in decimal is read back unchanged.
pub proof fn law_port_round_trip(port: u16)
    ensures
        port_value(decimal_text(port as nat)) == Some(port),
{
    lemma_decimal_round_trip(port as nat);
    let s = decimal_text(port as nat);
    assert(is_decimal_digit(s[0]));
}

/// A text holds a part where, and only where, it is something, the part, and
/// something.
pub proof fn law_occurrence(s: Seq<char>, part: Seq<char>, a: Seq<char>, b: Seq<char>)
    ensures
        occurs_in(a + part + b, part),
        occurs_in(s, part) ==> exists|x: Seq<char>, y: Seq<char>| s == #[trigger] (x + part + y),
{
    let whole = a + part + b;
    assert(whole.subrange(a.len() as int, (a.len() + part.len()) as int) =~= part);
    assert(occurs_at(whole, part, a.len() as int));
    if occurs_in(s, part) {
        let at = choose|at: int| occurs_at(s, part, at);
        let x = s.take(at);
        let y = s.skip(at + part.len());
        assert(s =~= x + s.subrange(at, at + part.len()) + y);
    }
}

/// What stands before the first of a character is all before it, and is found
/// where that has none of the character; a text without it stands before it
/// whole.
pub proof fn law_before_first(head: Seq<char>, c: char, rest: Seq<char>)
    requires
        !head.contains(c),
    ensures
        before_first(head + seq![c] + rest, c) == head,
        before_first(head, c) == head,
{
    let s = head + seq![c] + rest;
    assert forall|k: int| 0 <= k < head.len() implies s[k] != c by {
        assert(head.contains(head[k]));
    }
    assert(s[head.len() as int] == c);
    lemma_first_at(s, c, head.len() as int);
    assert(s.take(head.len() as int) =~= head);
    assert forall|k: int| 0 <= k < head.len() implies head[k] != c by {
        assert(head.contains(head[k]));
    }
    lemma_first_nowhere(head, c);
}

/// What stands behind the last of a character is all behind it, and is found
/// where that has none of the character; a text without it stands behind it
/// whole.
pub proof fn law_after_last(rest: Seq<char>, c: char, tail: Seq<char>)
    requires
        !tail.contains(c),
    ensures
        after_last(rest + seq![c] + tail, c) == tail,
        after_last(tail, c) == tail,
{
    let s = rest + seq![c] + tail;
    let n = rest.len() as int;
    s.index_of_last_ensures(c);
    tail.index_of_last_ensures(c);
    assert(s[n] == c);
    assert(s.contains(c));
    let j = s.index_of_last(c)->0;
    if j < n {
        assert(s.skip(j + 1)[n - j - 1] == c);
    } else if j > n {
        assert(tail[j - n - 1] == c);
    }
    assert(s.skip(n + 1) =~= tail);
}

/// A replaced character is gone, unless it stands for itself, and every other
/// is as it was, in a text of the same length.
pub proof fn law_replaced(s: Seq<char>, from: char, to: char)
    ensures
        replaced(s, from, to).len() == s.len(),
        from != to ==> !replaced(s, from, to).contains(from),
        forall|i: int|
            0 <= i < s.len() && s[i] != from ==> #[trigger] replaced(s, from, to)[i] == s[i],
        forall|i: int| 0 <= i < s.len() && s[i] == from ==> #[trigger] replaced(s, from, to)[i]
            == to,
{
}

/// Two upper-case hexadecimal digits write a byte: they are digits or letters
/// from A to F, and bytes that are written alike are equal.
pub proof fn law_hex_bytes(a: u8, b: u8)
    ensures
        hex_byte(a).len() == 2,
        forall|i: int|
            0 <= i < 2 ==> '0' <= #[trigger] hex_byte(a)[i] <= '9' || 'A' <= hex_byte(a)[i] <= 'F',
        hex_byte(a) == hex_byte(b) ==> a == b,
        a < 16 ==> hex_byte(a)[0] == '0',
        a < 10 ==> hex_byte(a)[1] as int == '0' as int + a,
        10 <= a < 16 ==> hex_byte(a)[1] as int == 'A' as int + a - 10,
        hex_byte(a)[0] == hex_byte((a / 16) as u8)[1],
        hex_byte(a)[1] == hex_byte((a % 16) as u8)[1],
{
    if hex_byte(a) == hex_byte(b) {
        assert(hex_byte(a)[0] == hex_byte(b)[0]);
        assert(hex_byte(a)[1] == hex_byte(b)[1]);
    }
}

/// What is no port: nothing at all, a text with anything but digits behind a plus
/// sign that may be there, and a number above 65535. A plus sign before a port
/// does not matter.
pub proof fn law_ports(s: Seq<char>, i: int, n: nat)
    ensures
        port_value(Seq::empty()) is None,
        1 <= i < s.len() && !('0' <= s[i] <= '9') ==> port_value(s) is None,
        s.len() > 0 && s[0] != '+' && !('0' <= s[0] <= '9') ==> port_value(s) is None,
        port_value(seq!['+']) is None,
        n > 65535 ==> port_value(decimal_text(n)) is None,
        n <= 65535 ==> port_value(decimal_text(n)) == Some(n as u16),
        n <= 65535 ==> port_value(seq!['+'] + decimal_text(n)) == Some(n as u16),
        n > 65535 ==> port_value(seq!['+'] + decimal_text(n)) is None,
{
    lemma_decimal_round_trip(n);
    let t = decimal_text(n);
    assert(is_decimal_digit(t[0]));
    let plus = seq!['+'] + t;
    assert(plus.skip(1) =~= t);
    if 1 <= i < s.len() && !('0' <= s[i] <= '9') {
        assert(s.skip(1)[i - 1] == s[i]);
        assert(!is_decimal_digit(s[i]));
    }
    if s.len() > 0 && s[0] != '+' && !('0' <= s[0] <= '9') {
        assert(!is_decimal_digit(s[0]));
    }
}

/// Numbers that are written alike in decimal are equal.
pub proof fn law_decimal_is_unique(a: nat, b: nat)
    requires
        decimal_text(a) == decimal_text(b),
    ensures
        a == b,
{
    lemma_decimal_round_trip(a);
    lemma_decimal_round_trip(b);
}

/// A number is written in decimal digit by digit: up to 9 as the one digit, and
/// beyond as the tens with the last digit behind them.
pub proof fn law_decimal_digits(n: nat, d: nat)
    requires
        d < 10,
    ensures
        decimal_text(d).len() == 1,
        decimal_text(d)[0] as int == '0' as int + d,
        n > 0 ==> decimal_text(10 * n + d) == decimal_text(n) + decimal_text(d),
{
    if n > 0 {
        assert((10 * n + d) / 10 == n);
        assert((10 * n + d) % 10 == d);
        assert(decimal_text(10 * n + d) =~= decimal_text(n) + decimal_text(d));
    }
}

} // verus!
