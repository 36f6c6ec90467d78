//! What every parser is made of: a look at the next character, white
//! space, fixed words and runs of digits.
use vstd::prelude::*;

verus! {

/// The character at a place in the text, if the place is inside it.
pub open spec fn char_at(s: Seq<char>, pos: int) -> Option<char> {
    if 0 <= pos < s.len() {
        Some(s[pos])
    } else {
        None
    }
}

/// White space: a blank, a tab or the end of a line.
pub open spec fn is_space(c: char) -> bool {
    c == ' ' || c == '\t' || c == '\n' || c == '\r'
}

/// The length of the white space that starts at `pos`.
pub open spec fn ws_len(s: Seq<char>, pos: int) -> nat
    decreases s.len() - pos,
{
    if 0 <= pos < s.len() && is_space(s[pos]) {
        1 + ws_len(s, pos + 1)
    } else {
        0
    }
}

/// The place behind the white space that starts at `pos`.
pub open spec fn ws_end(s: Seq<char>, pos: int) -> int {
    pos + ws_len(s, pos)
}

/// Whether the text goes on with `word` at `pos`.
pub open spec fn prefix_at(s: Seq<char>, pos: int, word: Seq<char>) -> bool {
    0 <= pos && pos + word.len() <= s.len() && s.subrange(pos, pos + word.len()) == word
}

/// A decimal digit.
pub open spec fn is_digit(c: char) -> bool {
    0x30 <= c as u32 <= 0x39
}

/// A hexadecimal digit.
pub open spec fn is_hex(c: char) -> bool {
    let n = c as u32;
    0x30 <= n <= 0x39 || 0x41 <= n <= 0x46 || 0x61 <= n <= 0x66
}

/// The value of a hexadecimal digit.
pub open spec fn hex_value(c: char) -> int {
    let n = c as u32;
    if 0x30 <= n <= 0x39 {
        n - 0x30
    } else if 0x41 <= n <= 0x46 {
        n - 0x41 + 10
    } else {
        n - 0x61 + 10
    }
}

/// A letter of the ASCII alphabet.
pub open spec fn is_letter(c: char) -> bool {
    let n = c as u32;
    0x41 <= n <= 0x5a || 0x61 <= n <= 0x7a
}

/// The number of digits that start at `pos`.
pub open spec fn digits_len(s: Seq<char>, pos: int) -> nat
    decreases s.len() - pos,
{
    if 0 <= pos < s.len() && is_digit(s[pos]) {
        1 + digits_len(s, pos + 1)
    } else {
        0
    }
}

/// The place behind the digits that start at `pos`.
pub open spec fn digits_end(s: Seq<char>, pos: int) -> int {
    pos + digits_len(s, pos)
}

/// The number of letters that start at `pos`.
pub open spec fn letters_len(s: Seq<char>, pos: int) -> nat
    decreases s.len() - pos,
{
    if 0 <= pos < s.len() && is_letter(s[pos]) {
        1 + letters_len(s, pos + 1)
    } else {
        0
    }
}

/// The place behind the letters that start at `pos`.
pub open spec fn letters_end(s: Seq<char>, pos: int) -> int {
    pos + letters_len(s, pos)
}

/// The number that the digits from `from` up to `to` write.
pub open spec fn digits_value(s: Seq<char>, from: int, to: int) -> int
    decreases to - from,
{
    if to <= from || to > s.len() || from < 0 {
        0
    } else {
        digits_value(s, from, to - 1) * 10 + (s[to - 1] as u32 - 0x30)
    }
}

/// Ten to the power of `k`.
pub open spec fn pow10(k: nat) -> int
    decreases k,
{
    if k == 0 {
        1
    } else {
        10 * pow10((k - 1) as nat)
    }
}

/// The most digits that a number may be written with.
pub open spec fn max_digits() -> int {
    36
}

/// A run of digits writes a number below the power of ten of its length.
pub proof fn lemma_digits_bound(s: Seq<char>, from: int, to: int)
    requires
        0 <= from <= to <= s.len(),
        forall|i: int| from <= i < to ==> is_digit(s[i]),
    ensures
        0 <= digits_value(s, from, to) < pow10((to - from) as nat),
    decreases to - from,
{
    if to > from {
        lemma_digits_bound(s, from, to - 1);
    }
}

/// Powers of ten grow with the exponent.
pub proof fn lemma_pow10_monotonic(a: nat, b: nat)
    requires
        a <= b,
    ensures
        0 < pow10(a) <= pow10(b),
    decreases b,
{
    if b > 0 {
        if a < b {
            lemma_pow10_monotonic(a, (b - 1) as nat);
        } else {
            lemma_pow10_monotonic((a - 1) as nat, (b - 1) as nat);
        }
    }
}

/// Ten to the power of 36.
pub proof fn lemma_pow10_36()
    ensures
        pow10(36) == 1_000_000_000_000_000_000_000_000_000_000_000_000,
{
    reveal_with_fuel(pow10, 37);
}

/// Whether the character at a place is `c`.
pub fn next_is(input: &Vec<char>, pos: usize, c: char) -> (b: bool)
    ensures
        b == (char_at(input@, pos as int) == Some(c)),
{
    pos < input.len() && input[pos] == c
}

/// Whether a character is white space.
pub fn space(c: char) -> (b: bool)
    ensures
        b == is_space(c),
{
    c == ' ' || c == '\t' || c == '\n' || c == '\r'
}

/// Whether a character is a decimal digit.
pub fn digit(c: char) -> (b: bool)
    ensures
        b == is_digit(c),
{
    let n: u32 = c as u32;
    0x30 <= n && n <= 0x39
}

/// Whether a character is a hexadecimal digit.
pub fn hex(c: char) -> (b: bool)
    ensures
        b == is_hex(c),
{
    let n: u32 = c as u32;
    (0x30 <= n && n <= 0x39) || (0x41 <= n && n <= 0x46) || (0x61 <= n && n <= 0x66)
}

/// The value of a hexadecimal digit: see [`hex_value`].
pub(crate) fn hex_number(c: char) -> (v: u8)
    requires
        is_hex(c),
    ensures
        v == hex_value(c),
        v < 16,
{
    let n: u32 = c as u32;
    if 0x30 <= n && n <= 0x39 {
        (n - 0x30) as u8
    } else if 0x41 <= n && n <= 0x46 {
        (n - 0x41 + 10) as u8
    } else {
        (n - 0x61 + 10) as u8
    }
}

/// Whether a character is a letter of the ASCII alphabet.
pub fn letter(c: char) -> (b: bool)
    ensures
        b == is_letter(c),
{
    let n: u32 = c as u32;
    (0x41 <= n && n <= 0x5a) || (0x61 <= n && n <= 0x7a)
}

/// The place behind the white space that starts at `pos`.
pub(crate) fn skip_ws(input: &Vec<char>, pos: usize) -> (r: usize)
    requires
        pos <= input.len(),
    ensures
        r == ws_end(input@, pos as int),
        pos <= r <= input.len(),
{
    let mut i: usize = pos;
    while i < input.len() && space(input[i])
        invariant
            pos <= i <= input.len(),
            ws_end(input@, pos as int) == ws_end(input@, i as int),
        decreases input.len() - i,
    {
        i += 1;
    }
    i
}

/// The place behind the digits that start at `pos`.
pub(crate) fn skip_digits(input: &Vec<char>, pos: usize) -> (r: usize)
    requires
        pos <= input.len(),
    ensures
        r == digits_end(input@, pos as int),
        pos <= r <= input.len(),
        forall|i: int| pos <= i < r ==> is_digit(input@[i]),
{
    let mut i: usize = pos;
    while i < input.len() && digit(input[i])
        invariant
            pos <= i <= input.len(),
            digits_end(input@, pos as int) == digits_end(input@, i as int),
            forall|j: int| pos <= j < i ==> is_digit(input@[j]),
        decreases input.len() - i,
    {
        i += 1;
    }
    i
}

/// The place behind the letters that start at `pos`.
pub(crate) fn skip_letters(input: &Vec<char>, pos: usize) -> (r: usize)
    requires
        pos <= input.len(),
    ensures
        r == letters_end(input@, pos as int),
        pos <= r <= input.len(),
{
    let mut i: usize = pos;
    while i < input.len() && letter(input[i])
        invariant
            pos <= i <= input.len(),
            letters_end(input@, pos as int) == letters_end(input@, i as int),
        decreases input.len() - i,
    {
        i += 1;
    }
    i
}

/// Whether the text goes on with `word` at `pos`.
pub(crate) fn starts_with(input: &Vec<char>, pos: usize, word: &str) -> (b: bool)
    requires
        pos <= input.len(),
    ensures
        b == prefix_at(input@, pos as int, word@),
{
    let mut same: bool = true;
    let mut n: usize = 0;
    for c in it: word.chars()
        invariant
            it.seq() == word@,
            pos <= input.len(),
            same ==> n == it.index(),
            same ==> pos + n <= input.len(),
            same ==> input@.subrange(pos as int, pos + n) == word@.take(n as int),
            !same ==> !prefix_at(input@, pos as int, word@),
    {
        if same {
            if pos + n < input.len() && input[pos + n] == c {
                n += 1;
            } else {
                same = false;
            }
        }
    }
    proof {
        if same {
            assert(word@.take(n as int) =~= word@);
        }
    }
    same
}

/// The characters of the text from `from` up to `to`.
pub(crate) fn slice(input: &Vec<char>, from: usize, to: usize) -> (r: Vec<char>)
    requires
        from <= to <= input.len(),
    ensures
        r@ == input@.subrange(from as int, to as int),
{
    let mut out: Vec<char> = Vec::new();
    let mut i: usize = from;
    while i < to
        invariant
            from <= i <= to <= input.len(),
            out@ == input@.subrange(from as int, i as int),
        decreases to - i,
    {
        out.push(input[i]);
        i += 1;
    }
    out
}

/// The number that the digits from `from` up to `to` write.
pub(crate) fn read_digits(input: &Vec<char>, from: usize, to: usize) -> (v: i128)
    requires
        from <= to <= input.len(),
        to - from <= max_digits(),
        forall|i: int| from <= i < to ==> is_digit(input@[i]),
    ensures
        v == digits_value(input@, from as int, to as int),
        0 <= v < pow10((to - from) as nat),
{
    let mut acc: i128 = 0;
    let mut i: usize = from;
    while i < to
        invariant
            from <= i <= to <= input.len(),
            to - from <= max_digits(),
            forall|j: int| from <= j < to ==> is_digit(input@[j]),
            acc == digits_value(input@, from as int, i as int),
            0 <= acc < pow10((i - from) as nat),
        decreases to - i,
    {
        proof {
            lemma_pow10_monotonic((i - from) as nat, 35);
            lemma_pow10_monotonic(35, 36);
            lemma_pow10_36();
            lemma_digits_bound(input@, from as int, i + 1);
        }
        let d: u32 = input[i] as u32 - 0x30;
        acc = acc * 10 + d as i128;
        i += 1;
    }
    acc
}

/// Ten to the power of `k`.
pub(crate) fn power_of_ten(k: usize) -> (v: i128)
    requires
        k <= max_digits(),
    ensures
        v == pow10(k as nat),
        v > 0,
{
    let mut acc: i128 = 1;
    let mut i: usize = 0;
    while i < k
        invariant
            i <= k <= max_digits(),
            acc == pow10(i as nat),
            acc > 0,
        decreases k - i,
    {
        proof {
            lemma_pow10_monotonic((i + 1) as nat, 36);
            lemma_pow10_36();
        }
        acc = acc * 10;
        i += 1;
    }
    acc
}

} // verus!
