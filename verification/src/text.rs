//! Text as sequences of characters: building, searching, and the decimal and
//! hexadecimal notations the tool reads and writes.

use vstd::prelude::*;

verus! {

/// `String::push` appends one character to the end of the string.
pub assume_specification[ String::push ](string: &mut String, ch: char)
    ensures
        final(string)@ == old(string)@.push(ch),
;

/// The characters of a string slice, in order.
pub fn chars_of(text: &str) -> (chars: Vec<char>)
    ensures
        chars@ == text@,
{
    let mut chars: Vec<char> = Vec::new();
    for c in it: text.chars()
        invariant
            chars@ == it.seq().take(it.index() as int),
            it.seq() == text@,
    {
        chars.push(c);
    }
    chars
}

/// The string made of the given characters.
pub fn string_of(chars: &[char]) -> (text: String)
    ensures
        text@ == chars@,
{
    let mut text = String::new();
    let mut i: usize = 0;
    while i < chars.len()
        invariant
            i <= chars@.len(),
            text@ == chars@.take(i as int),
        decreases chars@.len() - i,
    {
        text.push(chars[i]);
        i += 1;
    }
    text
}

/// The code point of a character.
pub fn code_of(c: char) -> (code: u32)
    ensures
        code == c as u32,
        code <= 0x10ffff,
{
    c as u32
}

/// The decimal digit of a number below ten.
pub open spec fn digit(n: int) -> char {
    (48 + n) as char
}

/// The usual decimal notation of a number, without leading zeros.
pub open spec fn decimal(n: nat) -> Seq<char>
    decreases n,
{
    if n < 10 {
        seq![digit(n as int)]
    } else {
        decimal(n / 10).push(digit((n % 10) as int))
    }
}

/// Appends the decimal notation of `n`.
pub fn push_decimal(out: &mut String, n: u64)
    ensures
        final(out)@ == old(out)@ + decimal(n as nat),
    decreases n,
{
    if n >= 10 {
        push_decimal(out, n / 10);
    }
    let d: u8 = (n % 10) as u8;
    out.push((48 + d) as char);
}

/// The text with as many copies of `fill` in front as the width asks for.
pub open spec fn pad_left(s: Seq<char>, width: nat, fill: char) -> Seq<char> {
    filler(s, width, fill) + s
}

/// The text with as many copies of `fill` behind as the width asks for.
pub open spec fn pad_right(s: Seq<char>, width: nat, fill: char) -> Seq<char> {
    s + filler(s, width, fill)
}

/// What a text lacks to its width.
pub open spec fn filler(s: Seq<char>, width: nat, fill: char) -> Seq<char> {
    Seq::new(
        if s.len() < width {
            (width - s.len()) as nat
        } else {
            0
        },
        |i: int| fill,
    )
}

fn push_filler(out: &mut String, length: usize, width: usize, fill: char)
    ensures
        forall|s: Seq<char>| #![trigger filler(s, width as nat, fill)]
            s.len() == length ==> final(out)@ == old(out)@ + filler(s, width as nat, fill),
{
    let mut i: usize = length;
    let ghost start = out@;
    while i < width
        invariant
            length <= i,
            i <= width || i == length,
            out@ == start + Seq::new((i - length) as nat, |k: int| fill),
        decreases width - i,
    {
        out.push(fill);
        i += 1;
        assert(out@ =~= start + Seq::new((i - length) as nat, |k: int| fill));
    }
    assert forall|s: Seq<char>| #![trigger filler(s, width as nat, fill)] s.len() == length implies out@
        == start + filler(s, width as nat, fill) by {
        assert(out@ =~= start + filler(s, width as nat, fill));
    }
}

/// Appends `text`, padded on the left to `width` characters.
pub fn push_right_aligned(out: &mut String, text: &str, width: usize, fill: char)
    ensures
        final(out)@ == old(out)@ + pad_left(text@, width as nat, fill),
{
    push_filler(out, text.unicode_len(), width, fill);
    out.append(text);
    assert(out@ =~= old(out)@ + pad_left(text@, width as nat, fill));
}

/// Appends `text`, padded on the right to `width` characters.
pub fn push_left_aligned(out: &mut String, text: &str, width: usize, fill: char)
    ensures
        final(out)@ == old(out)@ + pad_right(text@, width as nat, fill),
{
    out.append(text);
    push_filler(out, text.unicode_len(), width, fill);
    assert(out@ =~= old(out)@ + pad_right(text@, width as nat, fill));
}

/// The decimal notation of a number, as a string.
pub fn decimal_string(n: u64) -> (text: String)
    ensures
        text@ == decimal(n as nat),
{
    let mut text = String::new();
    push_decimal(&mut text, n);
    assert(text@ =~= decimal(n as nat));
    text
}

/// The decimal notation of a number, with leading zeros up to a width.
pub open spec fn padded_decimal(n: nat, width: nat) -> Seq<char> {
    pad_left(decimal(n), width, '0')
}

/// Appends the decimal notation of `n` with leading zeros up to `width`.
pub fn push_padded_decimal(out: &mut String, n: u64, width: usize)
    ensures
        final(out)@ == old(out)@ + padded_decimal(n as nat, width as nat),
{
    let text = decimal_string(n);
    push_right_aligned(out, text.as_str(), width, '0');
}

/// The lower-case hexadecimal digit of a number below sixteen.
pub open spec fn hex_digit(n: int) -> char {
    if n < 10 {
        (48 + n) as char
    } else {
        (87 + n) as char
    }
}

/// The lowest `count` hexadecimal digits of a number, most significant first.
pub open spec fn hex(n: nat, count: nat) -> Seq<char>
    decreases count,
{
    if count == 0 {
        seq![]
    } else {
        hex(n / 16, (count - 1) as nat).push(hex_digit((n % 16) as int))
    }
}

fn push_hex(out: &mut String, n: u64, count: usize)
    ensures
        final(out)@ == old(out)@ + hex(n as nat, count as nat),
    decreases count,
{
    if count > 0 {
        push_hex(out, n / 16, count - 1);
        let d: u8 = (n % 16) as u8;
        if d < 10 {
            out.push((48 + d) as char);
        } else {
            out.push((87 + d) as char);
        }
    }
    assert(out@ =~= old(out)@ + hex(n as nat, count as nat));
}

/// A 64-bit number as sixteen hexadecimal digits.
pub fn hex_string(n: u64) -> (text: String)
    ensures
        text@ == hex(n as nat, 16),
{
    let mut text = String::new();
    push_hex(&mut text, n, 16);
    assert(text@ =~= hex(n as nat, 16));
    text
}

/// A decimal digit character.
pub open spec fn is_digit(c: char) -> bool {
    '0' <= c <= '9'
}

/// Only decimal digits.
pub open spec fn all_digits(s: Seq<char>) -> bool {
    forall|i: int| 0 <= i < s.len() ==> is_digit(#[trigger] s[i])
}

/// The number that a sequence of decimal digits denotes.
pub open spec fn digits_value(s: Seq<char>) -> int
    decreases s.len(),
{
    if s.len() == 0 {
        0
    } else {
        digits_value(s.drop_last()) * 10 + (s.last() as int - 48)
    }
}

/// A number's text without the plus sign that may precede its digits.
pub open spec fn unsigned_digits(s: Seq<char>) -> Seq<char> {
    if s.len() > 0 && s[0] == '+' {
        s.skip(1)
    } else {
        s
    }
}

/// The unsigned number that a text denotes: at least one decimal digit, behind
/// a plus sign or not, of a value that `max` does not fall short of.
pub open spec fn number(s: Seq<char>, max: nat) -> Option<nat> {
    let digits = unsigned_digits(s);
    if digits.len() > 0 && all_digits(digits) && digits_value(digits) <= max {
        Some(digits_value(digits) as nat)
    } else {
        None
    }
}

proof fn lemma_digits_value_grows(s: Seq<char>, i: int)
    requires
        0 <= i <= s.len(),
        all_digits(s),
    ensures
        0 <= digits_value(s.take(i)) <= digits_value(s),
    decreases s.len(),
{
    if s.len() == 0 {
        assert(s.take(i) =~= s);
    } else if i == s.len() {
        assert(s.take(i) =~= s);
        lemma_digits_value_grows(s.drop_last(), s.len() - 1);
        assert(s.drop_last().take(s.len() - 1) =~= s.drop_last());
    } else {
        lemma_digits_value_grows(s.drop_last(), i);
        assert(s.drop_last().take(i) =~= s.take(i));
    }
}

/// Reads an unsigned number no larger than `max`.
pub fn parse_number(text: &[char], max: u64) -> (result: Option<u64>)
    ensures
        result is Some <==> number(text@, max as nat) is Some,
        result is Some ==> result->0 == number(text@, max as nat)->0 && result->0 <= max,
{
    let mut i: usize = 0;
    if text.len() > 0 && text[0] == '+' {
        i = 1;
    }
    let start: usize = i;
    let ghost digits = unsigned_digits(text@);
    assert(digits =~= text@.skip(start as int));
    if i == text.len() {
        return None;
    }
    let mut value: u64 = 0;
    while i < text.len()
        invariant
            start <= i <= text@.len(),
            digits == text@.skip(start as int),
            digits == unsigned_digits(text@),
            all_digits(digits.take(i - start)),
            value == digits_value(digits.take(i - start)),
            value <= max,
        decreases text@.len() - i,
    {
        let c: char = text[i];
        assert(c == digits[i - start]);
        if c < '0' || c > '9' {
            return None;
        }
        let d: u64 = (c as u32 - 48) as u64;
        proof {
            let longer = digits.take(i + 1 - start);
            assert(longer.drop_last() =~= digits.take(i - start));
            if all_digits(digits) {
                lemma_digits_value_grows(digits, i + 1 - start);
            }
        }
        if d > max || value > max / 10 || value * 10 > max - d {
            return None;
        }
        value = value * 10 + d;
        i += 1;
    }
    assert(digits.take(text@.len() - start) =~= digits);
    Some(value)
}

proof fn lemma_decimal_value(n: nat)
    ensures
        decimal(n).len() > 0,
        all_digits(decimal(n)),
        digits_value(decimal(n)) == n,
    decreases n,
{
    if n < 10 {
        assert(decimal(n).drop_last() =~= seq![]);
        assert(digits_value(decimal(n).drop_last()) == 0);
    } else {
        lemma_decimal_value(n / 10);
        assert(decimal(n).drop_last() =~= decimal(n / 10));
    }
}

proof fn lemma_leading_zeros(zeros: Seq<char>, s: Seq<char>)
    requires
        forall|i: int| 0 <= i < zeros.len() ==> zeros[i] == '0',
    ensures
        digits_value(zeros + s) == digits_value(s),
    decreases zeros.len() + s.len(),
{
    if s.len() == 0 {
        assert(zeros + s =~= zeros);
        if zeros.len() > 0 {
            assert(zeros.drop_last() + s =~= zeros.drop_last());
            lemma_leading_zeros(zeros.drop_last(), s);
        }
    } else {
        assert((zeros + s).drop_last() =~= zeros + s.drop_last());
        lemma_leading_zeros(zeros, s.drop_last());
    }
}

/// Reading the decimal notation of a number gives the number back, however
/// many leading zeros it was padded with.
pub proof fn padded_decimal_reads_back(n: nat, width: nat, max: nat)
    requires
        n <= max,
    ensures
        number(padded_decimal(n, width), max) == Some(n),
        padded_decimal(n, width).len() > 0,
        all_digits(padded_decimal(n, width)),
{
    let s = decimal(n);
    lemma_decimal_value(n);
    lemma_leading_zeros(filler(s, width, '0'), s);
    let p = padded_decimal(n, width);
    assert forall|i: int| 0 <= i < p.len() implies is_digit(#[trigger] p[i]) by {
        let f = filler(s, width, '0');
        if i >= f.len() {
            assert(p[i] == s[i - f.len()]);
        }
    }
    assert(p[0] != '+');
}

/// Where a character first occurs, or the length if it does not.
pub open spec fn find(s: Seq<char>, c: char) -> int
    decreases s.len(),
{
    if s.len() == 0 || s[0] == c {
        0
    } else {
        1 + find(s.skip(1), c)
    }
}

/// `find` is the least index that holds the character.
pub proof fn lemma_find(s: Seq<char>, c: char)
    ensures
        0 <= find(s, c) <= s.len(),
        find(s, c) < s.len() ==> s[find(s, c)] == c,
        forall|i: int| 0 <= i < find(s, c) ==> #[trigger] s[i] != c,
    decreases s.len(),
{
    if s.len() > 0 && s[0] != c {
        lemma_find(s.skip(1), c);
        assert forall|i: int| 0 <= i < find(s, c) implies #[trigger] s[i] != c by {
            if i > 0 {
                assert(s[i] == s.skip(1)[i - 1]);
            }
        }
    }
}

/// The index is where the character first occurs.
pub proof fn lemma_find_is(s: Seq<char>, c: char, k: int)
    requires
        0 <= k <= s.len(),
        k < s.len() ==> s[k] == c,
        forall|i: int| 0 <= i < k ==> #[trigger] s[i] != c,
    ensures
        find(s, c) == k,
{
    lemma_find(s, c);
    let f = find(s, c);
    if f < k {
        assert(s[f] != c);
    } else if k < f {
        assert(s[k] != c);
    }
}

/// Finds where a character first occurs.
pub fn find_char(text: &[char], c: char) -> (index: usize)
    ensures
        index == find(text@, c),
        index <= text@.len(),
{
    let mut i: usize = 0;
    while i < text.len()
        invariant
            i <= text@.len(),
            forall|k: int| 0 <= k < i ==> #[trigger] text@[k] != c,
        decreases text@.len() - i,
    {
        if text[i] == c {
            proof {
                lemma_find_is(text@, c, i as int);
            }
            return i;
        }
        i += 1;
    }
    proof {
        lemma_find_is(text@, c, i as int);
    }
    i
}

/// The pieces between the occurrences of a separator: one more than there are
/// separators, empty pieces counted.
pub open spec fn split(s: Seq<char>, separator: char) -> Seq<Seq<char>>
    decreases s.len(),
{
    let k = find(s, separator);
    if k < 0 || k >= s.len() {
        seq![s]
    } else {
        seq![s.take(k)] + split(s.skip(k + 1), separator)
    }
}

/// The texts that a vector of strings holds.
pub open spec fn string_texts(strings: Seq<String>) -> Seq<Seq<char>> {
    strings.map_values(|s: String| s@)
}

/// The texts that a vector of character vectors holds.
pub open spec fn texts(v: Seq<Vec<char>>) -> Seq<Seq<char>> {
    v.map_values(|t: Vec<char>| t@)
}

/// Copies a part of a text.
pub fn part(text: &[char], from: usize, to: usize) -> (result: Vec<char>)
    requires
        from <= to <= text@.len(),
    ensures
        result@ == text@.subrange(from as int, to as int),
{
    let mut result: Vec<char> = Vec::new();
    let mut i: usize = from;
    while i < to
        invariant
            from <= i <= to <= text@.len(),
            result@ == text@.subrange(from as int, i as int),
        decreases to - i,
    {
        result.push(text[i]);
        i += 1;
        assert(result@ =~= text@.subrange(from as int, i as int));
    }
    result
}

/// Splits a text at every occurrence of a separator.
pub fn split_at(text: &[char], separator: char) -> (pieces: Vec<Vec<char>>)
    ensures
        texts(pieces@) == split(text@, separator),
{
    let mut pieces: Vec<Vec<char>> = Vec::new();
    let mut start: usize = 0;
    assert(text@.skip(0) =~= text@);
    assert(texts(pieces@) + split(text@.skip(0), separator) =~= split(text@, separator));
    loop
        invariant
            start <= text@.len(),
            texts(pieces@) + split(text@.skip(start as int), separator) == split(text@, separator),
        decreases text@.len() - start,
    {
        let ghost rest = text@.skip(start as int);
        let ghost before = texts(pieces@);
        proof {
            lemma_find(rest, separator);
        }
        let k: usize = start + find_char(&text[start..text.len()], separator);
        assert(text@.subrange(start as int, text@.len() as int) =~= rest);
        let piece = part(text, start, k);
        assert(piece@ =~= rest.take(k - start));
        if k == text.len() {
            assert(piece@ =~= rest);
            pieces.push(piece);
            assert(texts(pieces@) =~= before + seq![rest]);
            return pieces;
        }
        pieces.push(piece);
        start = k + 1;
        proof {
            assert(rest.skip(k - (start - 1 - find(rest, separator)) + 1) =~= text@.skip(start as int));
            assert(texts(pieces@) =~= before + seq![rest.take(find(rest, separator))]);
            assert(texts(pieces@) + split(text@.skip(start as int), separator) =~= before + split(
                rest,
                separator,
            ));
        }
    }
}

/// Unicode white space: the characters of the property `White_Space`.
pub open spec fn is_space(c: char) -> bool {
    let n = c as int;
    ||| 9 <= n <= 13
    ||| n == 0x20 || n == 0x85 || n == 0xa0 || n == 0x1680
    ||| 0x2000 <= n <= 0x200a
    ||| n == 0x2028 || n == 0x2029 || n == 0x202f || n == 0x205f || n == 0x3000
}

/// Tells white space from other characters.
pub fn space(c: char) -> (result: bool)
    ensures
        result == is_space(c),
{
    let n: u32 = c as u32;
    (9 <= n && n <= 13) || n == 0x20 || n == 0x85 || n == 0xa0 || n == 0x1680 || (0x2000 <= n && n
        <= 0x200a) || n == 0x2028 || n == 0x2029 || n == 0x202f || n == 0x205f || n == 0x3000
}

/// The text without the white space at its start.
pub open spec fn trim_start(s: Seq<char>) -> Seq<char>
    decreases s.len(),
{
    if s.len() > 0 && is_space(s[0]) {
        trim_start(s.skip(1))
    } else {
        s
    }
}

/// The text without the white space at its end.
pub open spec fn trim_end(s: Seq<char>) -> Seq<char>
    decreases s.len(),
{
    if s.len() > 0 && is_space(s.last()) {
        trim_end(s.drop_last())
    } else {
        s
    }
}

/// The text without the white space at its ends.
pub open spec fn trim(s: Seq<char>) -> Seq<char> {
    trim_end(trim_start(s))
}

/// Removes the white space at the ends of a text.
pub fn trimmed(text: &[char]) -> (result: Vec<char>)
    ensures
        result@ == trim(text@),
{
    let mut from: usize = 0;
    assert(text@.skip(0) =~= text@);
    while from < text.len() && space(text[from])
        invariant
            from <= text@.len(),
            trim_start(text@) == trim_start(text@.skip(from as int)),
        decreases text@.len() - from,
    {
        assert(text@.skip(from as int).skip(1) =~= text@.skip(from + 1));
        from += 1;
    }
    let ghost rest = text@.skip(from as int);
    assert(trim_start(text@) == rest);
    let mut to: usize = text.len();
    assert(rest =~= text@.subrange(from as int, to as int));
    while to > from && space(text[to - 1])
        invariant
            from <= to <= text@.len(),
            trim_end(rest) == trim_end(text@.subrange(from as int, to as int)),
        decreases to - from,
    {
        assert(text@.subrange(from as int, to as int).drop_last() =~= text@.subrange(
            from as int,
            to - 1,
        ));
        to -= 1;
    }
    part(text, from, to)
}

/// Where the run of characters that are not white space ends.
pub open spec fn word_end(s: Seq<char>) -> int
    decreases s.len(),
{
    if s.len() == 0 || is_space(s[0]) {
        0
    } else {
        1 + word_end(s.skip(1))
    }
}

proof fn lemma_word_end(s: Seq<char>)
    ensures
        0 <= word_end(s) <= s.len(),
    decreases s.len(),
{
    if s.len() > 0 && !is_space(s[0]) {
        lemma_word_end(s.skip(1));
    }
}

/// The words of a text: its longest runs without white space, in order.
pub open spec fn words(s: Seq<char>) -> Seq<Seq<char>>
    decreases s.len(),
{
    if s.len() == 0 {
        seq![]
    } else if is_space(s[0]) {
        words(s.skip(1))
    } else {
        let n = word_end(s);
        if 0 < n <= s.len() {
            seq![s.take(n)] + words(s.skip(n))
        } else {
            seq![]
        }
    }
}

/// Splits a text into its words.
pub fn words_of(text: &[char]) -> (result: Vec<Vec<char>>)
    ensures
        texts(result@) == words(text@),
{
    let mut result: Vec<Vec<char>> = Vec::new();
    let mut start: usize = 0;
    assert(text@.skip(0) =~= text@);
    assert(texts(result@) + words(text@.skip(0)) =~= words(text@));
    while start < text.len()
        invariant
            start <= text@.len(),
            texts(result@) + words(text@.skip(start as int)) == words(text@),
        decreases text@.len() - start,
    {
        let ghost rest = text@.skip(start as int);
        if space(text[start]) {
            assert(rest.skip(1) =~= text@.skip(start + 1));
            start += 1;
        } else {
            let mut end: usize = start;
            assert(rest.skip(0) =~= rest);
            while end < text.len() && !space(text[end])
                invariant
                    start <= end <= text@.len(),
                    rest == text@.skip(start as int),
                    word_end(rest) == (end - start) + word_end(rest.skip(end - start)),
                decreases text@.len() - end,
            {
                assert(rest.skip(end - start)[0] == text@[end as int]);
                assert(rest.skip(end - start).skip(1) =~= rest.skip(end + 1 - start));
                end += 1;
            }
            proof {
                if end < text@.len() {
                    assert(rest.skip(end - start)[0] == text@[end as int]);
                }
                assert(word_end(rest) == end - start);
                if end == start {
                    assert(rest[0] == text@[start as int]);
                }
            }
            let ghost before = texts(result@);
            let word = part(text, start, end);
            assert(word@ =~= rest.take(end - start));
            result.push(word);
            assert(rest.skip(end - start) =~= text@.skip(end as int));
            assert(texts(result@) =~= before + seq![rest.take(end - start)]);
            assert(texts(result@) + words(text@.skip(end as int)) =~= before + words(rest));
            start = end;
        }
    }
    assert(texts(result@) =~= words(text@));
    result
}

/// Tells whether two texts hold the same characters.
pub fn same_chars(a: &[char], b: &[char]) -> (result: bool)
    ensures
        result == (a@ == b@),
{
    if a.len() != b.len() {
        return false;
    }
    let mut i: usize = 0;
    while i < a.len()
        invariant
            i <= a@.len(),
            a@.len() == b@.len(),
            forall|k: int| 0 <= k < i ==> #[trigger] a@[k] == b@[k],
        decreases a@.len() - i,
    {
        if a[i] != b[i] {
            return false;
        }
        i += 1;
    }
    assert(a@ =~= b@);
    true
}

/// Tells whether a text holds the characters of a string.
pub fn is_text(chars: &[char], text: &str) -> (result: bool)
    ensures
        result == (chars@ == text@),
{
    let other = chars_of(text);
    same_chars(chars, other.as_slice())
}

/// Tells whether two string slices are equal.
pub fn same_text(a: &str, b: &str) -> (result: bool)
    ensures
        result == (a@ == b@),
{
    let chars = chars_of(a);
    is_text(chars.as_slice(), b)
}

/// Tells whether a text begins with another.
pub open spec fn has_prefix(s: Seq<char>, prefix: Seq<char>) -> bool {
    s.len() >= prefix.len() && s.take(prefix.len() as int) == prefix
}

/// Tells whether a text ends with another.
pub open spec fn has_suffix(s: Seq<char>, suffix: Seq<char>) -> bool {
    s.len() >= suffix.len() && s.skip(s.len() - suffix.len()) == suffix
}

/// Tells whether a text begins with a string.
pub fn starts_with(text: &[char], prefix: &str) -> (result: bool)
    ensures
        result == has_prefix(text@, prefix@),
{
    let other = chars_of(prefix);
    if text.len() < other.len() {
        return false;
    }
    assert(text@.subrange(0, other@.len() as int) =~= text@.take(other@.len() as int));
    same_chars(&text[0..other.len()], other.as_slice())
}

/// Tells whether a text ends with a string.
pub fn ends_with(text: &[char], suffix: &str) -> (result: bool)
    ensures
        result == has_suffix(text@, suffix@),
{
    let other = chars_of(suffix);
    if text.len() < other.len() {
        return false;
    }
    let from: usize = text.len() - other.len();
    assert(text@.subrange(from as int, text@.len() as int) =~= text@.skip(from as int));
    same_chars(&text[from..text.len()], other.as_slice())
}

/// Tells whether a text occurs inside another.
pub open spec fn occurs_in(s: Seq<char>, pattern: Seq<char>) -> bool {
    exists|i: int| 0 <= i <= s.len() && #[trigger] has_prefix(s.skip(i), pattern)
}

/// Tells whether a string occurs inside a text.
pub fn contains_text(text: &[char], pattern: &str) -> (result: bool)
    ensures
        result == occurs_in(text@, pattern@),
{
    let mut i: usize = 0;
    loop
        invariant
            i <= text@.len(),
            forall|k: int| 0 <= k < i ==> !(#[trigger] has_prefix(text@.skip(k), pattern@)),
        decreases text@.len() - i,
    {
        assert(text@.subrange(i as int, text@.len() as int) =~= text@.skip(i as int));
        if starts_with(&text[i..text.len()], pattern) {
            return true;
        }
        if i == text.len() {
            return false;
        }
        i += 1;
    }
}

/// The lower-case form of an ASCII letter; other characters stay.
pub open spec fn ascii_lower(c: char) -> char {
    if 'A' <= c <= 'Z' {
        (c as int + 32) as char
    } else {
        c
    }
}

/// A text with its ASCII letters in lower case.
pub open spec fn lower(s: Seq<char>) -> Seq<char> {
    s.map_values(|c: char| ascii_lower(c))
}

/// Turns the ASCII letters of a text into lower case.
pub fn lowered(text: &[char]) -> (result: Vec<char>)
    ensures
        result@ == lower(text@),
{
    let mut result: Vec<char> = Vec::new();
    let mut i: usize = 0;
    while i < text.len()
        invariant
            i <= text@.len(),
            result@ == lower(text@.take(i as int)),
        decreases text@.len() - i,
    {
        let c: char = text[i];
        let l: char = if 'A' <= c && c <= 'Z' {
            (c as u8 + 32) as char
        } else {
            c
        };
        result.push(l);
        i += 1;
        assert(result@ =~= lower(text@.take(i as int)));
    }
    assert(text@.take(i as int) =~= text@);
    result
}

/// White space is what Unicode calls so, and nothing else.
pub proof fn spaces_are_those_of_unicode(c: char)
    ensures
        is_space(c) <==> {
            ||| c == '\t' || c == '\n' || c == '\u{b}' || c == '\u{c}' || c == '\r'
            ||| c == ' ' || c == '\u{85}' || c == '\u{a0}' || c == '\u{1680}'
            ||| '\u{2000}' <= c <= '\u{200a}'
            ||| c == '\u{2028}' || c == '\u{2029}' || c == '\u{202f}' || c == '\u{205f}'
            ||| c == '\u{3000}'
        },
{
}

proof fn lemma_trim_start(s: Seq<char>) -> (n: int)
    ensures
        0 <= n <= s.len(),
        trim_start(s) == s.skip(n),
        forall|i: int| 0 <= i < n ==> is_space(#[trigger] s[i]),
        n < s.len() ==> !is_space(s[n]),
    decreases s.len(),
{
    if s.len() > 0 && is_space(s[0]) {
        let n = lemma_trim_start(s.skip(1));
        assert(s.skip(1).skip(n) =~= s.skip(n + 1));
        assert forall|i: int| 0 <= i < n + 1 implies is_space(#[trigger] s[i]) by {
            if i > 0 {
                assert(s[i] == s.skip(1)[i - 1]);
            }
        }
        if n + 1 < s.len() {
            assert(s.skip(1)[n] == s[n + 1]);
        }
        n + 1
    } else {
        assert(s.skip(0) =~= s);
        0
    }
}

proof fn lemma_trim_end(s: Seq<char>) -> (n: int)
    ensures
        0 <= n <= s.len(),
        trim_end(s) == s.take(n),
        forall|i: int| n <= i < s.len() ==> is_space(#[trigger] s[i]),
        n > 0 ==> !is_space(s[n - 1]),
    decreases s.len(),
{
    if s.len() > 0 && is_space(s.last()) {
        let n = lemma_trim_end(s.drop_last());
        assert(s.drop_last().take(n) =~= s.take(n));
        assert forall|i: int| n <= i < s.len() implies is_space(#[trigger] s[i]) by {
            if i < s.len() - 1 {
                assert(s[i] == s.drop_last()[i]);
            }
        }
        n
    } else {
        assert(s.take(s.len() as int) =~= s);
        s.len() as int
    }
}

/// Trimming takes away white space at the ends and nothing else, and leaves none
/// there.
pub proof fn trimming_takes_spaces_only(s: Seq<char>) -> (ends: (Seq<char>, Seq<char>))
    ensures
        s == ends.0 + trim(s) + ends.1,
        forall|i: int| 0 <= i < ends.0.len() ==> is_space(#[trigger] ends.0[i]),
        forall|i: int| 0 <= i < ends.1.len() ==> is_space(#[trigger] ends.1[i]),
        trim(s).len() > 0 ==> !is_space(trim(s)[0]) && !is_space(trim(s).last()),
{
    let from = lemma_trim_start(s);
    let rest = s.skip(from);
    let n = lemma_trim_end(rest);
    assert(s =~= s.take(from) + rest.take(n) + rest.skip(n));
    assert(forall|i: int| 0 <= i < rest.len() ==> #[trigger] rest[i] == s[from + i]);
    (s.take(from), rest.skip(n))
}

/// A text is its pieces with the separator between them, and no piece holds one.
pub open spec fn joined(pieces: Seq<Seq<char>>, separator: char) -> Seq<char>
    decreases pieces.len(),
{
    if pieces.len() == 0 {
        seq![]
    } else if pieces.len() == 1 {
        pieces[0]
    } else {
        pieces[0].push(separator) + joined(pieces.skip(1), separator)
    }
}

/// Splitting a text takes away the separators and nothing else: its pieces hold
/// none, and joined together they are the text again.
pub proof fn pieces_join_again(s: Seq<char>, separator: char)
    ensures
        split(s, separator).len() >= 1,
        joined(split(s, separator), separator) == s,
        forall|i: int|
            0 <= i < split(s, separator).len() ==> !(#[trigger] split(s, separator)[i]).contains(
                separator,
            ),
    decreases s.len(),
{
    let k = find(s, separator);
    lemma_find(s, separator);
    let pieces = split(s, separator);
    if k >= s.len() {
        assert(!s.contains(separator));
    } else {
        let rest = s.skip(k + 1);
        pieces_join_again(rest, separator);
        assert(pieces.skip(1) =~= split(rest, separator));
        assert(s =~= s.take(k).push(separator) + rest);
        assert forall|i: int| 0 <= i < pieces.len() implies !(#[trigger] pieces[i]).contains(
            separator,
        ) by {
            if i > 0 {
                assert(pieces[i] == split(rest, separator)[i - 1]);
            } else {
                assert(forall|j: int| 0 <= j < k ==> #[trigger] s.take(k)[j] == s[j]);
            }
        }
    }
}

/// Pieces without a separator, joined together, are what the text is split into.
pub proof fn joined_pieces_split_again(pieces: Seq<Seq<char>>, separator: char)
    requires
        pieces.len() >= 1,
        forall|i: int| 0 <= i < pieces.len() ==> !(#[trigger] pieces[i]).contains(separator),
    ensures
        split(joined(pieces, separator), separator) == pieces,
    decreases pieces.len(),
{
    let s = joined(pieces, separator);
    let first = pieces[0];
    assert(!first.contains(separator));
    if pieces.len() == 1 {
        assert forall|i: int| 0 <= i < s.len() implies #[trigger] s[i] != separator by {
            assert(first.contains(s[i]));
        }
        lemma_find_is(s, separator, s.len() as int);
        assert(split(s, separator) =~= pieces);
    } else {
        let rest = pieces.skip(1);
        assert forall|i: int| 0 <= i < rest.len() implies !(#[trigger] rest[i]).contains(
            separator,
        ) by {
            assert(rest[i] == pieces[i + 1]);
        }
        joined_pieces_split_again(rest, separator);
        let k = first.len() as int;
        assert forall|i: int| 0 <= i < k implies #[trigger] s[i] != separator by {
            assert(s[i] == first[i]);
            assert(first.contains(first[i]));
        }
        assert(s[k] == separator);
        lemma_find_is(s, separator, k);
        assert(s.take(k) =~= first);
        assert(s.skip(k + 1) =~= joined(rest, separator));
        assert(split(s, separator) =~= pieces);
    }
}

/// No character is white space.
pub open spec fn is_solid(s: Seq<char>) -> bool {
    forall|i: int| 0 <= i < s.len() ==> !is_space(#[trigger] s[i])
}

proof fn lemma_solid_word_end(s: Seq<char>, n: int)
    requires
        0 <= n <= s.len(),
        is_solid(s.take(n)),
        n < s.len() ==> is_space(s[n]),
    ensures
        word_end(s) == n,
    decreases n,
{
    if n > 0 {
        assert(s.take(n)[0] == s[0]);
        assert forall|i: int| 0 <= i < n - 1 implies !is_space(
            #[trigger] s.skip(1).take(n - 1)[i],
        ) by {
            assert(s.skip(1).take(n - 1)[i] == s.take(n)[i + 1]);
        }
        lemma_solid_word_end(s.skip(1), n - 1);
    }
}

/// The words of a text: white space in front adds none, and what stands in front
/// of the first white space is a word, followed by the words of the rest.
pub proof fn words_lie_between_spaces(word: Seq<char>, space: char, rest: Seq<char>)
    requires
        is_space(space),
        is_solid(word),
    ensures
        words(Seq::<char>::empty()) == Seq::<Seq<char>>::empty(),
        words(seq![space] + rest) == words(rest),
        word.len() > 0 ==> words(word) == seq![word],
        word.len() > 0 ==> words(word + seq![space] + rest) == seq![word] + words(rest),
{
    let front = seq![space] + rest;
    assert(front.skip(1) =~= rest);
    if word.len() > 0 {
        let n = word.len() as int;
        assert(word.take(n) =~= word);
        assert(!is_space(word[0]));
        lemma_solid_word_end(word, n);
        assert(word.skip(n) =~= Seq::<char>::empty());
        assert(words(word.skip(n)) =~= seq![]);
        assert(words(word) == seq![word.take(n)] + words(word.skip(n)));
        assert(words(word) =~= seq![word]);
        let s = word + seq![space] + rest;
        assert(s.take(n) =~= word);
        assert(s[0] == word[0]);
        assert(s[n] == space);
        lemma_solid_word_end(s, n);
        assert(words(s) == seq![s.take(n)] + words(s.skip(n)));
        assert(s.skip(n) =~= front);
    }
}

/// A word is never empty and holds no white space.
pub proof fn words_are_solid(s: Seq<char>)
    ensures
        forall|i: int|
            0 <= i < words(s).len() ==> (#[trigger] words(s)[i]).len() > 0 && is_solid(words(s)[i]),
    decreases s.len(),
{
    if s.len() > 0 {
        if is_space(s[0]) {
            words_are_solid(s.skip(1));
            assert(words(s) == words(s.skip(1)));
        } else {
            let n = word_end(s);
            lemma_word_end(s.skip(1));
            lemma_word_is_solid(s);
            if 0 < n {
                words_are_solid(s.skip(n));
                assert(words(s) == seq![s.take(n)] + words(s.skip(n)));
                assert forall|i: int| 0 <= i < words(s).len() implies (#[trigger] words(s)[i]).len()
                    > 0 && is_solid(words(s)[i]) by {
                    if i > 0 {
                        assert(words(s)[i] == words(s.skip(n))[i - 1]);
                    }
                }
            }
        }
    }
}

proof fn lemma_word_is_solid(s: Seq<char>)
    ensures
        0 <= word_end(s) <= s.len(),
        is_solid(s.take(word_end(s))),
    decreases s.len(),
{
    lemma_word_end(s);
    if s.len() > 0 && !is_space(s[0]) {
        let rest = s.skip(1);
        lemma_word_is_solid(rest);
        lemma_word_end(rest);
        let n = word_end(s);
        assert forall|i: int| 0 <= i < n implies !is_space(#[trigger] s.take(n)[i]) by {
            if i > 0 {
                assert(s.take(n)[i] == rest.take(n - 1)[i - 1]);
            }
        }
    }
}

/// A text begins with another exactly if something can be put behind that to make
/// it, ends with it exactly if something can be put in front, and holds it exactly
/// if something can be put on both sides.
pub proof fn parts_of_texts(s: Seq<char>, part: Seq<char>, front: Seq<char>, rest: Seq<char>)
    ensures
        has_prefix(part + rest, part),
        has_prefix(s, part) ==> s == part + s.skip(part.len() as int),
        has_suffix(front + part, part),
        has_suffix(s, part) ==> s == s.take(s.len() - part.len()) + part,
        occurs_in(front + part + rest, part),
        occurs_in(s, part) ==> exists|i: int|
            0 <= i && i + part.len() <= s.len() && #[trigger] s.subrange(i, i + part.len())
                == part,
{
    assert((part + rest).take(part.len() as int) =~= part);
    if has_prefix(s, part) {
        assert(s =~= part + s.skip(part.len() as int));
    }
    assert((front + part).skip(front.len() as int) =~= part);
    if has_suffix(s, part) {
        assert(s =~= s.take(s.len() - part.len()) + part);
    }
    let all = front + part + rest;
    assert(all.skip(front.len() as int).take(part.len() as int) =~= part);
    assert(has_prefix(all.skip(front.len() as int), part));
    if occurs_in(s, part) {
        let i = choose|i: int| 0 <= i <= s.len() && #[trigger] has_prefix(s.skip(i), part);
        assert(s.subrange(i, i + part.len()) =~= s.skip(i).take(part.len() as int));
    }
}

/// Lower case changes the letters from A to Z, each to the one 32 codes on, and
/// nothing else.
pub proof fn lower_case_changes_letters_only(s: Seq<char>, i: int)
    requires
        0 <= i < s.len(),
    ensures
        lower(s).len() == s.len(),
        'A' <= s[i] <= 'Z' ==> lower(s)[i] as int == s[i] as int + 32,
        !('A' <= s[i] <= 'Z') ==> lower(s)[i] == s[i],
        lower(lower(s)) == lower(s),
{
    assert(lower(lower(s)) =~= lower(s));
}

/// Padding brings a text to its width with copies of one character on one side,
/// and leaves a text that has its width as it is.
pub proof fn padding_fills_to_the_width(s: Seq<char>, width: nat, fill: char)
    ensures
        pad_left(s, width, fill).len() == if s.len() < width {
            width
        } else {
            s.len()
        },
        pad_right(s, width, fill).len() == pad_left(s, width, fill).len(),
        pad_left(s, width, fill).skip(pad_left(s, width, fill).len() - s.len()) == s,
        pad_right(s, width, fill).take(s.len() as int) == s,
        forall|i: int|
            0 <= i < width - s.len() ==> #[trigger] pad_left(s, width, fill)[i] == fill,
        forall|i: int|
            s.len() <= i < width ==> #[trigger] pad_right(s, width, fill)[i] == fill,
{
    let n = filler(s, width, fill).len() as int;
    assert(pad_left(s, width, fill).skip(n) =~= s);
    assert(pad_right(s, width, fill).take(s.len() as int) =~= s);
}

/// Decimal notation reads back as the number, has digits only, and does not begin
/// with a zero unless it is the notation of zero.
pub proof fn decimal_reads_back(n: nat, max: nat)
    ensures
        decimal(n).len() > 0,
        all_digits(decimal(n)),
        digits_value(decimal(n)) == n,
        number(decimal(n), max) == if n <= max {
            Some(n)
        } else {
            None
        },
        number(seq!['+'] + decimal(n), max) == number(decimal(n), max),
        n > 0 ==> decimal(n)[0] != '0',
        n == 0 ==> decimal(n) == seq!['0'],
    decreases n,
{
    lemma_decimal_value(n);
    lemma_no_leading_zero(n);
    assert(is_digit(decimal(n)[0]));
    let signed = seq!['+'] + decimal(n);
    assert(signed.skip(1) =~= decimal(n));
}

proof fn lemma_no_leading_zero(n: nat)
    ensures
        decimal(n).len() > 0,
        n > 0 ==> decimal(n)[0] != '0',
        n == 0 ==> decimal(n) == seq!['0'],
    decreases n,
{
    if n >= 10 {
        lemma_no_leading_zero(n / 10);
    }
}

/// What a further digit does to the value of digits.
pub proof fn digits_are_decimal(s: Seq<char>, c: char)
    ensures
        digits_value(Seq::<char>::empty()) == 0,
        '0' <= c <= '9' ==> digits_value(s.push(c)) == 10 * digits_value(s) + (c as int
            - '0' as int),
{
    assert(s.push(c).drop_last() =~= s);
}

/// A number is read only from digits, behind a plus sign or not, and only up to
/// its bound.
pub proof fn only_digits_are_numbers(s: Seq<char>, max: nat)
    ensures
        number(s, max) is Some ==> {
            &&& s.len() > 0
            &&& s[0] == '+' || '0' <= s[0] <= '9'
            &&& s[0] == '+' ==> s.len() > 1
            &&& forall|i: int| 1 <= i < s.len() ==> '0' <= #[trigger] s[i] <= '9'
            &&& number(s, max)->0 <= max
        },
        s.len() > 0 && all_digits(s) && digits_value(s) <= max ==> number(s, max) is Some
            && number(s, max)->0 == digits_value(s),
{
    let digits = unsigned_digits(s);
    if number(s, max) is Some {
        lemma_digits_value_grows(digits, 0);
        assert(digits.take(0) =~= seq![]);
        assert forall|i: int| 1 <= i < s.len() implies '0' <= #[trigger] s[i] <= '9' by {
            if s[0] == '+' {
                assert(is_digit(digits[i - 1]));
            } else {
                assert(is_digit(digits[i]));
            }
        }
        assert(is_digit(digits[0]));
    }
    if s.len() > 0 && all_digits(s) {
        assert(is_digit(s[0]));
        lemma_digits_value_grows(s, 0);
        assert(s.take(0) =~= seq![]);
    }
}

/// The value of a lower-case hexadecimal digit.
pub open spec fn hex_value(c: char) -> int {
    if '0' <= c <= '9' {
        c as int - '0' as int
    } else {
        c as int - 'a' as int + 10
    }
}

/// Hexadecimal notation has the digits of the number, each in its place: the last
/// is the remainder by sixteen, and those in front are the notation of the rest.
pub proof fn hexadecimal_digits_are_in_place(n: nat, count: nat)
    ensures
        hex(n, count).len() == count,
        forall|i: int|
            0 <= i < count ==> {
                ||| '0' <= #[trigger] hex(n, count)[i] <= '9'
                ||| 'a' <= hex(n, count)[i] <= 'f'
            },
        count > 0 ==> hex_value(hex(n, count).last()) == n % 16,
        count > 0 ==> hex(n, count).drop_last() == hex(n / 16, (count - 1) as nat),
    decreases count,
{
    if count > 0 {
        let front = hex(n / 16, (count - 1) as nat);
        hexadecimal_digits_are_in_place(n / 16, (count - 1) as nat);
        assert(hex(n, count).drop_last() =~= front);
        assert forall|i: int| 0 <= i < count implies {
            ||| '0' <= #[trigger] hex(n, count)[i] <= '9'
            ||| 'a' <= hex(n, count)[i] <= 'f'
        } by {
            if i < count - 1 {
                assert(hex(n, count)[i] == front[i]);
            }
        }
    }
}

/// Splitting goes on behind a separator: the pieces of two texts with one between
/// them are those of the first and then those of the second.
pub proof fn splitting_goes_on(front: Seq<char>, separator: char, rest: Seq<char>)
    ensures
        split(front + seq![separator] + rest, separator) == split(front, separator) + split(
            rest,
            separator,
        ),
    decreases front.len(),
{
    let all = front + seq![separator] + rest;
    let k = find(front, separator);
    lemma_find(front, separator);
    assert forall|i: int| 0 <= i < k implies #[trigger] all[i] != separator by {
        assert(all[i] == front[i]);
    }
    lemma_find_is(all, separator, k);
    assert(all.take(k) =~= front.take(k));
    if k < front.len() {
        let further = front.skip(k + 1);
        splitting_goes_on(further, separator, rest);
        assert(all.skip(k + 1) =~= further + seq![separator] + rest);
        assert(split(all, separator) =~= split(front, separator) + split(rest, separator));
    } else {
        assert(front.take(k) =~= front);
        assert(all.skip(k + 1) =~= rest);
        assert(split(all, separator) =~= split(front, separator) + split(rest, separator));
    }
}

} // verus!
