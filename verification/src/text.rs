//! Text building blocks: comparison, decimal and hexadecimal numbers, and
//! character substitution, each with its meaning over sequences of characters.

use vstd::prelude::*;
use vstd::string::*;

verus! {

/// `String::push` adds one character at the end of the string.
pub assume_specification[ String::push ](s: &mut String, c: char)
    ensures
        final(s)@ == old(s)@.push(c),
;

/// Tells whether two texts hold the same characters.
pub fn same_text(a: &str, b: &str) -> (r: bool)
    ensures
        r == (a@ == b@),
{
    a.to_owned() == b.to_owned()
}

/// The characters of a text, one by one.
pub fn chars_of(s: &str) -> (r: Vec<char>)
    ensures
        r@ == s@,
{
    let mut out: Vec<char> = Vec::new();
    for c in it: s.chars()
        invariant
            out@ == it.seq().take(it.index()),
            it.seq() == s@,
    {
        proof {
            assert(it.seq().take(it.index() + 1) =~= it.seq().take(it.index()).push(c));
        }
        out.push(c);
    }
    proof {
        assert(out@ =~= s@);
    }
    out
}

/// The decimal digit with value `d`.
pub open spec fn digit(d: nat) -> char {
    ((48 + d) as u8) as char
}

/// `n` written in decimal, without leading zeros.
pub open spec fn decimal_text(n: nat) -> Seq<char>
    decreases n,
{
    if n < 10 {
        seq![digit(n)]
    } else {
        decimal_text(n / 10).push(digit(n % 10))
    }
}

/// `s` with zeros put in front until it is at least `width` characters long.
pub open spec fn zero_padded(s: Seq<char>, width: nat) -> Seq<char> {
    if s.len() >= width {
        s
    } else {
        Seq::new((width - s.len()) as nat, |i: int| '0') + s
    }
}

/// The decimal digit with value `d`.
fn digit_char(d: u64) -> (c: char)
    requires
        d < 10,
    ensures
        c == digit(d as nat),
{
    (48 + d as u8) as char
}

/// Writes `n` in decimal.
pub fn decimal(n: u64) -> (r: String)
    ensures
        r@ == decimal_text(n as nat),
    decreases n,
{
    if n < 10 {
        let mut s = String::new();
        s.push(digit_char(n));
        proof {
            assert(s@ =~= decimal_text(n as nat));
        }
        s
    } else {
        let mut s = decimal(n / 10);
        s.push(digit_char(n % 10));
        s
    }
}

/// Writes `n` in decimal with leading zeros up to `width` characters.
pub fn decimal_padded(n: u64, width: usize) -> (r: String)
    ensures
        r@ == zero_padded(decimal_text(n as nat), width as nat),
{
    let digits = decimal(n);
    let len: usize = digits.as_str().unicode_len();
    let mut out = String::new();
    if len < width {
        let mut i: usize = 0;
        while i < width - len
            invariant
                i <= width - len,
                len < width,
                out@ == Seq::new(i as nat, |j: int| '0'),
            decreases width - len - i,
        {
            out.push('0');
            i += 1;
            proof {
                assert(out@ =~= Seq::new(i as nat, |j: int| '0'));
            }
        }
    }
    let ghost zeros = out@;
    out.append(digits.as_str());
    proof {
        assert(out@ == zeros + decimal_text(n as nat));
        if len >= width {
            assert(out@ =~= decimal_text(n as nat));
        }
    }
    out
}

/// The lower-case hexadecimal digit with value `d`.
pub open spec fn hex_digit(d: nat) -> char {
    if d < 10 {
        ((48 + d) as u8) as char
    } else {
        ((87 + d) as u8) as char
    }
}

/// The last `width` hexadecimal digits of `n`, most significant first.
pub open spec fn hex_text(n: nat, width: nat) -> Seq<char>
    decreases width,
{
    if width == 0 {
        Seq::empty()
    } else {
        hex_text(n / 16, (width - 1) as nat).push(hex_digit(n % 16))
    }
}

/// Writes the last `width` hexadecimal digits of `n`.
pub fn hex_padded(n: u64, width: usize) -> (r: String)
    ensures
        r@ == hex_text(n as nat, width as nat),
    decreases width,
{
    if width == 0 {
        let s = String::new();
        proof {
            assert(s@ =~= Seq::<char>::empty());
        }
        s
    } else {
        let mut s = hex_padded(n / 16, width - 1);
        let d: u8 = (n % 16) as u8;
        if d < 10 {
            s.push((48 + d) as char);
        } else {
            s.push((87 + d) as char);
        }
        s
    }
}

/// `s` with every character that occurs in `from` replaced by `to`.
pub open spec fn replaced(s: Seq<char>, from: Seq<char>, to: Seq<char>) -> Seq<char>
    decreases s.len(),
{
    if s.len() == 0 {
        Seq::empty()
    } else {
        replaced(s.drop_last(), from, to) + (if from.contains(s.last()) {
            to
        } else {
            seq![s.last()]
        })
    }
}

/// Replaces every character of `s` that occurs in `from` by the text `to`.
pub fn replace_any(s: &str, from: &str, to: &str) -> (r: String)
    ensures
        r@ == replaced(s@, from@, to@),
{
    let chars = chars_of(s);
    let targets = chars_of(from);
    let mut out = String::new();
    let mut i: usize = 0;
    proof {
        assert(s@.take(0) =~= Seq::<char>::empty());
        assert(out@ =~= replaced(s@.take(0), from@, to@));
    }
    while i < chars.len()
        invariant
            chars@ == s@,
            targets@ == from@,
            i <= chars@.len(),
            out@ == replaced(s@.take(i as int), from@, to@),
        decreases chars@.len() - i,
    {
        let c = chars[i];
        proof {
            assert(s@.take(i + 1).drop_last() =~= s@.take(i as int));
            assert(s@.take(i + 1).last() == c);
        }
        let ghost before = out@;
        if contains_char(&targets, c) {
            out.append(to);
        } else {
            out.push(c);
            proof {
                assert(out@ =~= before + seq![c]);
            }
        }
        i += 1;
    }
    proof {
        assert(s@.take(i as int) =~= s@);
    }
    out
}

/// Tells whether `c` is one of `chars`.
fn contains_char(chars: &Vec<char>, c: char) -> (r: bool)
    ensures
        r == chars@.contains(c),
{
    let mut i: usize = 0;
    while i < chars.len()
        invariant
            i <= chars@.len(),
            forall|j: int| 0 <= j < i ==> chars@[j] != c,
        decreases chars@.len() - i,
    {
        if chars[i] == c {
            proof {
                assert(chars@[i as int] == c);
            }
            return true;
        }
        i += 1;
    }
    false
}

/// Tells whether a character is white space, that is, has the Unicode property
/// `White_Space`.
pub open spec fn is_white(c: char) -> bool {
    let n = c as u32;
    ||| 0x09 <= n <= 0x0d
    ||| n == 0x20
    ||| n == 0x85
    ||| n == 0xa0
    ||| n == 0x1680
    ||| 0x2000 <= n <= 0x200a
    ||| n == 0x2028
    ||| n == 0x2029
    ||| n == 0x202f
    ||| n == 0x205f
    ||| n == 0x3000
}

/// Tells whether a character is white space.
fn white(c: char) -> (r: bool)
    ensures
        r == is_white(c),
{
    let n: u32 = c as u32;
    (0x09 <= n && n <= 0x0d) || n == 0x20 || n == 0x85 || n == 0xa0 || n == 0x1680 || (0x2000 <= n
        && n <= 0x200a) || n == 0x2028 || n == 0x2029 || n == 0x202f || n == 0x205f || n == 0x3000
}

/// `s` without the white space at its end.
pub open spec fn trimmed_end(s: Seq<char>) -> Seq<char>
    decreases s.len(),
{
    if s.len() > 0 && is_white(s.last()) {
        trimmed_end(s.drop_last())
    } else {
        s
    }
}

/// `s` without the white space at its start.
pub open spec fn trimmed_start(s: Seq<char>) -> Seq<char>
    decreases s.len(),
{
    if s.len() > 0 && is_white(s.first()) {
        trimmed_start(s.drop_first())
    } else {
        s
    }
}

/// `s` without the white space around it.
pub open spec fn trimmed(s: Seq<char>) -> Seq<char> {
    trimmed_start(trimmed_end(s))
}

/// The characters of a text without the white space around it.
pub fn trim_chars(s: &str) -> (r: Vec<char>)
    ensures
        r@ == trimmed(s@),
{
    let mut chars = chars_of(s);
    while chars.len() > 0 && white(chars[chars.len() - 1])
        invariant
            trimmed_end(chars@) == trimmed_end(s@),
        decreases chars@.len(),
    {
        let ghost before = chars@;
        chars.pop();
        proof {
            assert(chars@ =~= before.drop_last());
        }
    }
    proof {
        assert(chars@ == trimmed_end(s@));
    }
    while chars.len() > 0 && white(chars[0])
        invariant
            trimmed_start(chars@) == trimmed(s@),
        decreases chars@.len(),
    {
        let ghost before = chars@;
        chars.remove(0);
        proof {
            assert(chars@ =~= before.drop_first());
        }
    }
    chars
}

/// Tells whether a character is a decimal digit.
pub open spec fn is_digit(c: char) -> bool {
    '0' <= c <= '9'
}

/// The number that a run of decimal digits stands for.
pub open spec fn digits_value(s: Seq<char>) -> nat
    decreases s.len(),
{
    if s.len() == 0 {
        0
    } else {
        digits_value(s.drop_last()) * 10 + (s.last() as nat - 48) as nat
    }
}

/// `s` without one plus sign at its start.
pub open spec fn unsigned_part(s: Seq<char>) -> Seq<char> {
    if s.len() > 0 && s[0] == '+' {
        s.skip(1)
    } else {
        s
    }
}

/// The number that a text stands for: an optional plus sign, then one or more
/// decimal digits, at most `u32::MAX`.
pub open spec fn u32_value(s: Seq<char>) -> Option<u32> {
    let digits = unsigned_part(s);
    if digits.len() > 0 && (forall|i: int| 0 <= i < digits.len() ==> is_digit(#[trigger] digits[i]))
        && digits_value(digits) <= u32::MAX {
        Some(digits_value(digits) as u32)
    } else {
        None
    }
}

proof fn lemma_digits_value_grows(s: Seq<char>, n: int)
    requires
        0 <= n <= s.len(),
        forall|i: int| 0 <= i < s.len() ==> is_digit(#[trigger] s[i]),
    ensures
        digits_value(s.take(n)) <= digits_value(s),
    decreases s.len() - n,
{
    if n < s.len() {
        lemma_digits_value_grows(s, n + 1);
        assert(s.take(n + 1).drop_last() =~= s.take(n));
    } else {
        assert(s.take(n) =~= s);
    }
}

/// Reads a text as a number.
pub fn parse_u32(s: &Vec<char>) -> (r: Option<u32>)
    ensures
        r == u32_value(s@),
{
    let start: usize = if s.len() > 0 && s[0] == '+' {
        1
    } else {
        0
    };
    let ghost digits = unsigned_part(s@);
    proof {
        assert(digits =~= s@.skip(start as int));
    }
    if s.len() == start {
        return None;
    }
    let mut i: usize = start;
    let mut value: u64 = 0;
    proof {
        assert(digits.take(0) =~= Seq::<char>::empty());
    }
    while i < s.len()
        invariant
            start <= i <= s@.len(),
            digits == s@.skip(start as int),
            digits == unsigned_part(s@),
            digits.len() > 0,
            forall|j: int| 0 <= j < i - start ==> is_digit(#[trigger] digits[j]),
            value == digits_value(digits.take(i - start)),
            value <= u32::MAX,
        decreases s@.len() - i,
    {
        let c = s[i];
        proof {
            assert(digits[i - start] == c);
        }
        if c < '0' || c > '9' {
            return None;
        }
        value = value * 10 + (c as u64 - 48);
        proof {
            assert(digits.take(i + 1 - start).drop_last() =~= digits.take(i - start));
            assert(digits.take(i + 1 - start).last() == c);
        }
        if value > 4294967295 {
            proof {
                if forall|j: int| 0 <= j < digits.len() ==> is_digit(#[trigger] digits[j]) {
                    lemma_digits_value_grows(digits, i + 1 - start);
                }
            }
            return None;
        }
        i += 1;
    }
    proof {
        assert(digits.take(i - start) =~= digits);
    }
    Some(value as u32)
}

/// A number written in decimal stands for itself, and is nothing but digits.
pub proof fn lemma_decimal_reads_back(n: nat)
    ensures
        digits_value(decimal_text(n)) == n,
        decimal_text(n).len() > 0,
        forall|i: int| 0 <= i < decimal_text(n).len() ==> is_digit(#[trigger] decimal_text(n)[i]),
    decreases n,
{
    let s = decimal_text(n);
    if n < 10 {
        assert(s.drop_last() =~= Seq::<char>::empty());
        assert(digits_value(s.drop_last()) == 0);
        assert(digit(n) as nat == 48 + n);
    } else {
        lemma_decimal_reads_back(n / 10);
        assert(s.drop_last() =~= decimal_text(n / 10));
        assert(digit(n % 10) as nat == 48 + n % 10);
    }
}

/// A text that neither starts nor ends with white space is trimmed already.
pub proof fn lemma_nothing_to_trim(s: Seq<char>)
    requires
        s.len() > 0 ==> !is_white(s.first()) && !is_white(s.last()),
    ensures
        trimmed(s) == s,
{
}

/// A text that does not start with white space is not all white space.
pub proof fn lemma_not_blank(s: Seq<char>)
    requires
        s.len() > 0,
        !is_white(s[0]),
    ensures
        trimmed(s).len() > 0,
    decreases s.len(),
{
    if is_white(s.last()) {
        lemma_not_blank(s.drop_last());
    }
}

/// Tells whether `part` stands in `s` at position `i`.
pub open spec fn stands_at(s: Seq<char>, part: Seq<char>, i: int) -> bool {
    0 <= i <= s.len() - part.len() && s.subrange(i, i + part.len()) == part
}

/// Tells whether one text is part of another.
pub open spec fn has_part(s: Seq<char>, part: Seq<char>) -> bool {
    exists|i: int| #[trigger] stands_at(s, part, i)
}

/// Tells whether `part` stands in `s` at position `i`.
fn part_stands_at(s: &Vec<char>, part: &Vec<char>, i: usize) -> (r: bool)
    requires
        i <= s@.len() - part@.len(),
    ensures
        r == stands_at(s@, part@, i as int),
{
    let n: usize = s.len();
    let mut j: usize = 0;
    while j < part.len()
        invariant
            j <= part@.len(),
            n == s@.len(),
            i <= s@.len() - part@.len(),
            forall|k: int| 0 <= k < j ==> s@[i + k] == part@[k],
        decreases part@.len() - j,
    {
        if s[i + j] != part[j] {
            proof {
                assert(s@.subrange(i as int, i + part@.len())[j as int] != part@[j as int]);
            }
            return false;
        }
        j += 1;
    }
    proof {
        assert(s@.subrange(i as int, i + part@.len()) =~= part@);
    }
    true
}

/// Tells whether one text is part of another.
pub fn contains_text(s: &str, part: &str) -> (r: bool)
    ensures
        r == has_part(s@, part@),
{
    let chars = chars_of(s);
    let wanted = chars_of(part);
    if wanted.len() > chars.len() {
        return false;
    }
    let last: usize = chars.len() - wanted.len();
    let mut i: usize = 0;
    while i <= last
        invariant
            chars@ == s@,
            wanted@ == part@,
            last == chars@.len() - wanted@.len(),
            i <= last + 1,
            forall|j: int| 0 <= j < i ==> !stands_at(s@, part@, j),
        decreases last + 1 - i,
    {
        if part_stands_at(&chars, &wanted, i) {
            proof {
                assert(stands_at(s@, part@, i as int));
            }
            return true;
        }
        if i == last {
            return false;
        }
        i += 1;
    }
    false
}

/// Replacing goes character by character: a text in two parts is replaced part by part,
/// and a character is replaced exactly when it is one of those to replace.
pub proof fn law_replacing_goes_character_by_character(
    a: Seq<char>,
    b: Seq<char>,
    c: char,
    from: Seq<char>,
    to: Seq<char>,
)
    ensures
        replaced(a + b, from, to) == replaced(a, from, to) + replaced(b, from, to),
        replaced(seq![c], from, to) == if from.contains(c) {
            to
        } else {
            seq![c]
        },
        replaced(Seq::empty(), from, to) == Seq::<char>::empty(),
    decreases b.len(),
{
    assert(seq![c].drop_last() =~= Seq::<char>::empty());
    assert(replaced(seq![c].drop_last(), from, to) =~= Seq::<char>::empty());
    assert(replaced(seq![c], from, to) =~= if from.contains(c) {
        to
    } else {
        seq![c]
    });
    if b.len() == 0 {
        assert(a + b =~= a);
        assert(replaced(a, from, to) + replaced(b, from, to) =~= replaced(a, from, to));
    } else {
        law_replacing_goes_character_by_character(a, b.drop_last(), c, from, to);
        assert((a + b).drop_last() =~= a + b.drop_last());
        assert(replaced(a + b, from, to) =~= replaced(a, from, to) + replaced(b, from, to));
    }
}

proof fn lemma_trimmed_end(s: Seq<char>) -> (n: int)
    ensures
        0 <= n <= s.len(),
        trimmed_end(s) == s.take(n),
        n > 0 ==> !is_white(s[n - 1]),
        forall|i: int| n <= i < s.len() ==> is_white(#[trigger] s[i]),
    decreases s.len(),
{
    if s.len() > 0 && is_white(s.last()) {
        let n = lemma_trimmed_end(s.drop_last());
        assert(s.drop_last().take(n) =~= s.take(n));
        assert forall|i: int| n <= i < s.len() implies is_white(#[trigger] s[i]) by {
            if i < s.len() - 1 {
                assert(s.drop_last()[i] == s[i]);
            }
        }
        n
    } else {
        assert(s.take(s.len() as int) =~= s);
        s.len() as int
    }
}

proof fn lemma_trimmed_start(s: Seq<char>) -> (n: int)
    ensures
        0 <= n <= s.len(),
        trimmed_start(s) == s.skip(n),
        n < s.len() ==> !is_white(s[n]),
        forall|i: int| 0 <= i < n ==> is_white(#[trigger] s[i]),
    decreases s.len(),
{
    if s.len() > 0 && is_white(s.first()) {
        let n = lemma_trimmed_start(s.drop_first());
        assert(s.drop_first().skip(n) =~= s.skip(n + 1));
        assert forall|i: int| 0 <= i < n + 1 implies is_white(#[trigger] s[i]) by {
            if i > 0 {
                assert(s.drop_first()[i - 1] == s[i]);
            }
        }
        if n + 1 < s.len() {
            assert(s.drop_first()[n] == s[n + 1]);
        }
        n + 1
    } else {
        assert(s.skip(0) =~= s);
        0
    }
}

/// Tells whether a text is cut down to the part between two places, where everything
/// outside is white space and neither end of the part is.
pub open spec fn is_cut(s: Seq<char>, part: Seq<char>, i: int, j: int) -> bool {
    &&& 0 <= i <= j <= s.len()
    &&& part == s.subrange(i, j)
    &&& forall|k: int| 0 <= k < i || j <= k < s.len() ==> is_white(#[trigger] s[k])
    &&& part.len() > 0 ==> !is_white(part.first()) && !is_white(part.last())
}

/// Trimming takes away the white space around a text and nothing else. Blanks, tabs and
/// line ends are white space; what can be seen is not.
pub proof fn law_trimming_takes_the_white_space_around(s: Seq<char>)
    ensures
        exists|i: int, j: int| #[trigger] is_cut(s, trimmed(s), i, j),
        is_white(' ') && is_white('\t') && is_white('\n') && is_white('\r'),
        forall|c: char| '!' <= c <= '~' ==> !is_white(c),
{
    let end = trimmed_end(s);
    let j = lemma_trimmed_end(s);
    let i = lemma_trimmed_start(end);
    let part = trimmed(s);
    assert(part =~= s.subrange(i, j));
    if part.len() > 0 {
        assert(part.first() == end[i]);
        assert(part.last() == s[j - 1]);
    }
    assert forall|k: int| 0 <= k < i || j <= k < s.len() implies is_white(#[trigger] s[k]) by {
        if k < i {
            assert(end[k] == s[k]);
        }
    }
    assert(is_cut(s, part, i, j));
}

/// A number in decimal is read as that number, with or without a plus sign before it, as
/// long as it fits. Nothing but digits after an optional plus sign is read.
pub proof fn law_decimal_numbers_are_read(n: nat, s: Seq<char>)
    ensures
        n <= u32::MAX ==> u32_value(decimal_text(n)) == Some(n as u32),
        n <= u32::MAX ==> u32_value(seq!['+'] + decimal_text(n)) == Some(n as u32),
        n > u32::MAX ==> u32_value(decimal_text(n)) is None,
        u32_value(s) is Some ==> s.len() > 0 && is_digit(s.last()) && forall|i: int|
            0 <= i < s.len() ==> is_digit(#[trigger] s[i]) || (i == 0 && s[0] == '+'),
        forall|c: char| #[trigger] is_digit(c) <==> '0' <= c && c <= '9',
{
    lemma_decimal_reads_back(n);
    let text = decimal_text(n);
    assert(is_digit(text[0]));
    assert((seq!['+'] + text).skip(1) =~= text);
    if u32_value(s) is Some {
        let digits = unsigned_part(s);
        assert(is_digit(digits[digits.len() - 1]));
        assert forall|i: int| 0 <= i < s.len() implies is_digit(#[trigger] s[i]) || (i == 0 && s[0]
            == '+') by {
            if s[0] == '+' {
                if i > 0 {
                    assert(digits[i - 1] == s[i]);
                }
            } else {
                assert(digits[i] == s[i]);
            }
        }
    }
}

/// A text is part of another exactly when something, possibly nothing, stands before it
/// and after it there.
pub proof fn law_part_stands_somewhere(a: Seq<char>, part: Seq<char>, b: Seq<char>, s: Seq<char>)
    ensures
        has_part(a + part + b, part),
        has_part(s, part) ==> exists|i: int|
            0 <= i <= s.len() - part.len() && s == #[trigger] s.take(i) + part + s.skip(
                i + part.len(),
            ),
{
    let all = a + part + b;
    assert(all.subrange(a.len() as int, (a.len() + part.len()) as int) =~= part);
    assert(stands_at(all, part, a.len() as int));
    if has_part(s, part) {
        let i = choose|i: int| #[trigger] stands_at(s, part, i);
        assert(s =~= s.take(i) + part + s.skip(i + part.len()));
    }
}

/// Numbers are written digit by digit, the last digit last: in decimal without zeros in
/// front unless they are asked for, in hexadecimal with as many digits as are asked for.
pub proof fn law_numbers_are_written_in_digits(n: nat, d: nat, width: nat)
    ensures
        d < 10 ==> decimal_text(d) == seq!["0123456789"@[d as int]],
        n > 0 && d < 10 ==> decimal_text(10 * n + d) == decimal_text(n) + seq![
            "0123456789"@[d as int],
        ],
        hex_text(n, 0) == Seq::<char>::empty(),
        d < 16 ==> hex_text(16 * n + d, width + 1) == hex_text(n, width) + seq![
            "0123456789abcdef"@[d as int],
        ],
        decimal_text(n).len() >= width ==> zero_padded(decimal_text(n), width) == decimal_text(n),
        decimal_text(n).len() < width ==> zero_padded(decimal_text(n), width) == zero_padded(
            seq!['0'] + decimal_text(n),
            width,
        ),
{
    reveal_strlit("0123456789");
    reveal_strlit("0123456789abcdef");
    if d < 10 {
        assert(digit(d) == "0123456789"@[d as int]);
        if n > 0 {
            assert((10 * n + d) / 10 == n && (10 * n + d) % 10 == d);
            assert(decimal_text(10 * n + d) =~= decimal_text(n) + seq!["0123456789"@[d as int]]);
        }
    }
    if d < 16 {
        assert((16 * n + d) / 16 == n && (16 * n + d) % 16 == d);
        assert(hex_digit(d) == "0123456789abcdef"@[d as int]);
        assert(hex_text(16 * n + d, width + 1) =~= hex_text(n, width) + seq![
            "0123456789abcdef"@[d as int],
        ]);
    }
    if decimal_text(n).len() < width {
        assert(zero_padded(decimal_text(n), width) =~= zero_padded(
            seq!['0'] + decimal_text(n),
            width,
        ));
    }
}

} // verus!
