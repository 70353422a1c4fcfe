//! Text as sequences of characters: conversion between `str`, `String` and
//! `Vec<char>`, on which the parsers and formatters of this crate work.

use vstd::prelude::*;

verus! {

/// `String::push` appends one character to the end of the string.
///
/// Trusted: the standard library's `String::push`, as documented.
pub assume_specification[ String::push ](s: &mut String, c: char)
    ensures
        final(s)@ == old(s)@.push(c),
;

/// The characters of `s`, in order.
pub fn chars_of(s: &str) -> (chars: Vec<char>)
    ensures
        chars@ == s@,
{
    let mut chars: Vec<char> = Vec::new();
    for c in it: s.chars()
        invariant
            chars@ == s@.take(it.index() as int),
            it.seq() == s@,
    {
        chars.push(c);
    }
    chars
}

/// The string made of `chars[from..to]`.
pub fn string_of(chars: &Vec<char>, from: usize, to: usize) -> (s: String)
    requires
        from <= to <= chars.len(),
    ensures
        s@ == chars@.subrange(from as int, to as int),
{
    let mut s = String::new();
    let mut i: usize = from;
    while i < to
        invariant
            from <= i <= to <= chars.len(),
            s@ == chars@.subrange(from as int, i as int),
        decreases to - i,
    {
        s.push(chars[i]);
        i += 1;
    }
    s
}

/// The character that writes the decimal digit `d`, for `d` below ten.
pub open spec fn digit_char(d: nat) -> char {
    if d == 0 {
        '0'
    } else if d == 1 {
        '1'
    } else if d == 2 {
        '2'
    } else if d == 3 {
        '3'
    } else if d == 4 {
        '4'
    } else if d == 5 {
        '5'
    } else if d == 6 {
        '6'
    } else if d == 7 {
        '7'
    } else if d == 8 {
        '8'
    } else {
        '9'
    }
}

/// The digit that `c` writes, if `c` is one of `'0'` to `'9'`.
pub open spec fn digit_value(c: char) -> Option<nat> {
    if c == '0' {
        Some(0)
    } else if c == '1' {
        Some(1)
    } else if c == '2' {
        Some(2)
    } else if c == '3' {
        Some(3)
    } else if c == '4' {
        Some(4)
    } else if c == '5' {
        Some(5)
    } else if c == '6' {
        Some(6)
    } else if c == '7' {
        Some(7)
    } else if c == '8' {
        Some(8)
    } else if c == '9' {
        Some(9)
    } else {
        None
    }
}

/// The decimal numeral of `n`: no sign, no leading zero, `"0"` for zero.
pub open spec fn decimal(n: nat) -> Seq<char>
    decreases n,
{
    if n < 10 {
        seq![digit_char(n)]
    } else {
        decimal(n / 10).push(digit_char(n % 10))
    }
}

fn digit(d: u64) -> (c: char)
    requires
        d < 10,
    ensures
        c == digit_char(d as nat),
{
    if d == 0 {
        '0'
    } else if d == 1 {
        '1'
    } else if d == 2 {
        '2'
    } else if d == 3 {
        '3'
    } else if d == 4 {
        '4'
    } else if d == 5 {
        '5'
    } else if d == 6 {
        '6'
    } else if d == 7 {
        '7'
    } else if d == 8 {
        '8'
    } else {
        '9'
    }
}

/// Appends the decimal numeral of `n` to `out`.
pub fn push_decimal(out: &mut String, n: u64)
    ensures
        final(out)@ == old(out)@ + decimal(n as nat),
    decreases n,
{
    if n >= 10 {
        push_decimal(out, n / 10);
    }
    out.push(digit(n % 10));
}

/// The decimal numeral of `n` as a string.
pub fn decimal_string(n: u64) -> (s: String)
    ensures
        s@ == decimal(n as nat),
{
    let mut s = String::new();
    push_decimal(&mut s, n);
    s
}

/// A numeral has at least one digit, and at least two from ten on.
pub proof fn lemma_decimal_len(n: nat)
    ensures
        decimal(n).len() >= 1,
        n >= 10 ==> decimal(n).len() >= 2,
    decreases n,
{
    if n >= 10 {
        lemma_decimal_len(n / 10);
    }
}

/// Every character of a numeral is a digit.
pub proof fn lemma_decimal_digits(n: nat)
    ensures
        all_digits(decimal(n)),
    decreases n,
{
    if n >= 10 {
        lemma_decimal_digits(n / 10);
    }
}

/// Different numbers have different numerals.
pub proof fn lemma_decimal_injective(a: nat, b: nat)
    requires
        decimal(a) == decimal(b),
    ensures
        a == b,
    decreases a,
{
    lemma_decimal_len(a);
    lemma_decimal_len(b);
    if a < 10 && b < 10 {
        assert(decimal(a)[0] == digit_char(a));
        assert(decimal(b)[0] == digit_char(b));
    } else if a < 10 {
        assert(decimal(a).len() == 1);
    } else if b < 10 {
        assert(decimal(b).len() == 1);
    } else {
        let x = decimal(a / 10);
        let y = decimal(b / 10);
        assert(x.push(digit_char(a % 10)).drop_last() == x);
        assert(y.push(digit_char(b % 10)).drop_last() == y);
        assert(x.push(digit_char(a % 10)).last() == digit_char(a % 10));
        assert(y.push(digit_char(b % 10)).last() == digit_char(b % 10));
        lemma_decimal_injective(a / 10, b / 10);
    }
}

/// Whether every character of `s` is a decimal digit.
pub open spec fn all_digits(s: Seq<char>) -> bool {
    forall|i: int| 0 <= i < s.len() ==> (#[trigger] digit_value(s[i])) is Some
}

/// The number that the digits of `s` write, most significant first.
pub open spec fn digits_value(s: Seq<char>) -> nat
    decreases s.len(),
{
    if s.len() == 0 {
        0
    } else {
        digits_value(s.drop_last()) * 10 + digit_value(s.last()).unwrap_or(0)
    }
}

/// What is left of `s` after one leading `'+'`, if it has one.
pub open spec fn without_plus(s: Seq<char>) -> Seq<char> {
    if s.len() > 0 && s[0] == '+' {
        s.drop_first()
    } else {
        s
    }
}

/// The number that `s` writes as a `u32`: an optional `'+'`, then one or
/// more decimal digits and nothing else, whose value fits. Leading zeros
/// are accepted.
pub open spec fn parse_u32_spec(s: Seq<char>) -> Option<u32> {
    let d = without_plus(s);
    if d.len() > 0 && all_digits(d) && digits_value(d) <= u32::MAX {
        Some(digits_value(d) as u32)
    } else {
        None
    }
}

/// A longer run of digits writes no smaller a number than its beginning.
pub proof fn lemma_digits_value_prefix(s: Seq<char>, k: int)
    requires
        0 <= k <= s.len(),
    ensures
        digits_value(s.take(k)) <= digits_value(s),
    decreases s.len(),
{
    if k == s.len() {
        assert(s.take(k) == s);
    } else {
        assert(s.drop_last().take(k) == s.take(k));
        lemma_digits_value_prefix(s.drop_last(), k);
    }
}

fn digit_of(c: char) -> (d: Option<u64>)
    ensures
        match d {
            Some(v) => digit_value(c) == Some(v as nat) && v < 10,
            None => digit_value(c) is None,
        },
{
    if c == '0' {
        Some(0)
    } else if c == '1' {
        Some(1)
    } else if c == '2' {
        Some(2)
    } else if c == '3' {
        Some(3)
    } else if c == '4' {
        Some(4)
    } else if c == '5' {
        Some(5)
    } else if c == '6' {
        Some(6)
    } else if c == '7' {
        Some(7)
    } else if c == '8' {
        Some(8)
    } else if c == '9' {
        Some(9)
    } else {
        None
    }
}

/// Reads `chars[from..to]` as a `u32`.
pub fn parse_u32_in(chars: &Vec<char>, from: usize, to: usize) -> (r: Option<u32>)
    requires
        from <= to <= chars.len(),
    ensures
        r == parse_u32_spec(chars@.subrange(from as int, to as int)),
{
    let ghost s = chars@.subrange(from as int, to as int);
    let start: usize = if from < to && chars[from] == '+' {
        from + 1
    } else {
        from
    };
    let ghost d = without_plus(s);
    assert(d == chars@.subrange(start as int, to as int));
    if start == to {
        return None;
    }
    let mut acc: u64 = 0;
    let mut i: usize = start;
    while i < to
        invariant
            from <= start <= i <= to <= chars.len(),
            start < to,
            d == chars@.subrange(start as int, to as int),
            d == without_plus(chars@.subrange(from as int, to as int)),
            acc == digits_value(d.take(i - start)),
            acc <= u32::MAX,
            all_digits(d.take(i - start)),
        decreases to - i,
    {
        let ghost before = d.take(i - start);
        let ghost after = d.take(i - start + 1);
        assert(after.drop_last() == before);
        assert(after.last() == chars@[i as int]);
        match digit_of(chars[i]) {
            None => {
                assert(digit_value(d[i - start]) is None);
                return None;
            },
            Some(v) => {
                let next: u64 = acc * 10 + v;
                if next > 0xffff_ffff {
                    proof {
                        lemma_digits_value_prefix(d, i - start + 1);
                    }
                    return None;
                }
                acc = next;
                assert forall|j: int| 0 <= j < after.len() implies (#[trigger] digit_value(
                    after[j],
                )) is Some by {
                    if j < before.len() {
                        assert(after[j] == before[j]);
                    }
                }
            },
        }
        i += 1;
    }
    assert(d.take(to - start) == d);
    Some(acc as u32)
}

/// Reads `s` as a `u32`.
pub fn parse_u32(s: &str) -> (r: Option<u32>)
    ensures
        r == parse_u32_spec(s@),
{
    let chars = chars_of(s);
    assert(chars@.subrange(0, chars@.len() as int) == chars@);
    parse_u32_in(&chars, 0, chars.len())
}

/// Reading a numeral gives back the number it was written from.
pub proof fn lemma_parse_decimal(n: u32)
    ensures
        parse_u32_spec(decimal(n as nat)) == Some(n),
{
    lemma_decimal_len(n as nat);
    lemma_decimal_digits(n as nat);
    lemma_decimal_value(n as nat);
    assert(digit_value(decimal(n as nat)[0]) is Some);
}

/// The digits of a numeral write the number it was made from.
pub proof fn lemma_decimal_value(n: nat)
    ensures
        digits_value(decimal(n)) == n,
    decreases n,
{
    if n < 10 {
        let s = decimal(n);
        assert(s.drop_last().len() == 0);
        assert(digits_value(s.drop_last()) == 0);
    } else {
        let x = decimal(n / 10);
        lemma_decimal_value(n / 10);
        assert(x.push(digit_char(n % 10)).drop_last() == x);
    }
}

/// Whether `c` is white space: a character with the Unicode property
/// `White_Space`.
pub open spec fn is_whitespace(c: char) -> bool {
    ||| '\u{9}' <= c <= '\u{d}'
    ||| c == ' '
    ||| c == '\u{85}'
    ||| c == '\u{a0}'
    ||| c == '\u{1680}'
    ||| '\u{2000}' <= c <= '\u{200a}'
    ||| c == '\u{2028}'
    ||| c == '\u{2029}'
    ||| c == '\u{202f}'
    ||| c == '\u{205f}'
    ||| c == '\u{3000}'
}

/// Tells whether `c` is white space.
pub fn whitespace(c: char) -> (b: bool)
    ensures
        b == is_whitespace(c),
{
    let n: u32 = c as u32;
    (0x9 <= n && n <= 0xd) || n == 0x20 || n == 0x85 || n == 0xa0 || n == 0x1680 || (0x2000 <= n
        && n <= 0x200a) || n == 0x2028 || n == 0x2029 || n == 0x202f || n == 0x205f || n
        == 0x3000
}

/// A set of characters that a scan looks for.
#[derive(Clone, Copy, Debug, PartialEq, Eq, Structural)]
pub enum CharClass {
    /// This character and no other.
    Is(char),
    /// Any white space.
    Space,
    /// Anything but white space.
    NonSpace,
}

impl CharClass {
    /// Whether `c` belongs to the class.
    pub open spec fn has(self, c: char) -> bool {
        match self {
            CharClass::Is(d) => c == d,
            CharClass::Space => is_whitespace(c),
            CharClass::NonSpace => !is_whitespace(c),
        }
    }

    /// Tells whether `c` belongs to the class.
    pub fn test(self, c: char) -> (b: bool)
        ensures
            b == self.has(c),
    {
        match self {
            CharClass::Is(d) => c == d,
            CharClass::Space => whitespace(c),
            CharClass::NonSpace => !whitespace(c),
        }
    }
}

/// The number of characters of `s` before the first one of `class`: its
/// index, or the length of `s` if there is none.
pub open spec fn scan(s: Seq<char>, class: CharClass) -> nat
    decreases s.len(),
{
    if s.len() == 0 || class.has(s[0]) {
        0
    } else {
        1 + scan(s.drop_first(), class)
    }
}

/// A scan ends within the text, at a character of the class or at the
/// end, and passes over none of the class.
pub proof fn lemma_scan(s: Seq<char>, class: CharClass)
    ensures
        0 <= scan(s, class) <= s.len(),
        scan(s, class) < s.len() ==> class.has(s[scan(s, class) as int]),
        forall|i: int| 0 <= i < scan(s, class) ==> !class.has(#[trigger] s[i]),
    decreases s.len(),
{
    if s.len() == 0 || class.has(s[0]) {
    } else {
        let t = s.drop_first();
        lemma_scan(t, class);
        assert forall|i: int| 0 <= i < scan(s, class) implies !class.has(#[trigger] s[i]) by {
            if i > 0 {
                assert(s[i] == t[i - 1]);
            }
        }
    }
}

/// A position that no character of the class precedes, and that holds one
/// or is the end, is where the scan ends.
pub proof fn lemma_scan_is(s: Seq<char>, class: CharClass, k: int)
    requires
        0 <= k <= s.len(),
        forall|i: int| 0 <= i < k ==> !class.has(#[trigger] s[i]),
        k < s.len() ==> class.has(s[k]),
    ensures
        scan(s, class) == k,
    decreases k,
{
    if k > 0 {
        let t = s.drop_first();
        assert(!class.has(s[0]));
        assert forall|i: int| 0 <= i < k - 1 implies !class.has(#[trigger] t[i]) by {
            assert(t[i] == s[i + 1]);
        }
        lemma_scan_is(t, class, k - 1);
    }
}

/// Scans `chars[from..to]` for the first character of `class` and returns
/// its index in `chars`, or `to`.
pub fn scan_in(chars: &Vec<char>, from: usize, to: usize, class: CharClass) -> (k: usize)
    requires
        from <= to <= chars.len(),
    ensures
        from <= k <= to,
        k - from == scan(chars@.subrange(from as int, to as int), class),
{
    let ghost s = chars@.subrange(from as int, to as int);
    let mut k: usize = from;
    while k < to && !class.test(chars[k])
        invariant
            from <= k <= to <= chars.len(),
            s == chars@.subrange(from as int, to as int),
            forall|i: int| 0 <= i < k - from ==> !class.has(#[trigger] s[i]),
        decreases to - k,
    {
        k += 1;
    }
    proof {
        lemma_scan_is(s, class, k - from);
    }
    k
}

/// Whether `s` begins with `prefix`.
pub open spec fn has_prefix(s: Seq<char>, prefix: Seq<char>) -> bool {
    prefix.len() <= s.len() && s.take(prefix.len() as int) == prefix
}

/// Tells whether `chars` begins with `prefix`.
pub fn starts_with(chars: &Vec<char>, prefix: &Vec<char>) -> (b: bool)
    ensures
        b == has_prefix(chars@, prefix@),
{
    if prefix.len() > chars.len() {
        return false;
    }
    let mut i: usize = 0;
    while i < prefix.len()
        invariant
            i <= prefix.len() <= chars.len(),
            chars@.take(i as int) == prefix@.take(i as int),
        decreases prefix.len() - i,
    {
        if chars[i] != prefix[i] {
            assert(chars@.take(prefix.len() as int)[i as int] != prefix@[i as int]);
            return false;
        }
        assert(chars@.take(i + 1) == chars@.take(i as int).push(chars@[i as int]));
        assert(prefix@.take(i + 1) == prefix@.take(i as int).push(prefix@[i as int]));
        i += 1;
    }
    assert(prefix@.take(prefix.len() as int) == prefix@);
    true
}

/// Tells whether `chars` is the text `other`.
pub fn same_text(chars: &Vec<char>, other: &Vec<char>) -> (b: bool)
    ensures
        b == (chars@ == other@),
{
    if chars.len() != other.len() {
        return false;
    }
    let b = starts_with(chars, other);
    assert(chars@.take(chars.len() as int) == chars@);
    b
}

/// The values of a sequence of texts.
pub open spec fn texts(pieces: Seq<Vec<char>>) -> Seq<Seq<char>> {
    pieces.map_values(|p: Vec<char>| p@)
}

/// A copy of `chars[from..to]`.
pub fn copy_range(chars: &Vec<char>, from: usize, to: usize) -> (piece: Vec<char>)
    requires
        from <= to <= chars.len(),
    ensures
        piece@ == chars@.subrange(from as int, to as int),
{
    let mut piece: Vec<char> = Vec::new();
    let mut i: usize = from;
    while i < to
        invariant
            from <= i <= to <= chars.len(),
            piece@ == chars@.subrange(from as int, i as int),
        decreases to - i,
    {
        piece.push(chars[i]);
        i += 1;
    }
    piece
}

/// The pieces of `s` from index `from` on, between the occurrences of
/// `sep`.
pub open spec fn split_from(s: Seq<char>, from: nat, sep: char) -> Seq<Seq<char>>
    decreases s.len() - from,
    via split_from_decreases
{
    let k = from + scan(s.skip(from as int), CharClass::Is(sep));
    if k >= s.len() {
        seq![s.skip(from as int)]
    } else {
        seq![s.subrange(from as int, k as int)] + split_from(s, k + 1, sep)
    }
}

#[via_fn]
proof fn split_from_decreases(s: Seq<char>, from: nat, sep: char) {
    lemma_scan(s.skip(from as int), CharClass::Is(sep));
}

/// The pieces of `s` between the occurrences of `sep`: one more piece than
/// there are separators, so at least one; a piece may be empty.
pub open spec fn split_on(s: Seq<char>, sep: char) -> Seq<Seq<char>> {
    split_from(s, 0, sep)
}

/// A split gives at least one piece.
pub proof fn lemma_split_len(s: Seq<char>, sep: char)
    ensures
        split_on(s, sep).len() >= 1,
{
}

/// Splits `chars` at every `sep`.
pub fn split(chars: &Vec<char>, sep: char) -> (pieces: Vec<Vec<char>>)
    ensures
        texts(pieces@) == split_on(chars@, sep),
{
    let n = chars.len();
    let mut pieces: Vec<Vec<char>> = Vec::new();
    let mut start: usize = 0;
    assert(texts(pieces@) + split_from(chars@, 0, sep) == split_from(chars@, 0, sep));
    loop
        invariant_except_break
            start <= n,
            texts(pieces@) + split_from(chars@, start as nat, sep) == split_on(chars@, sep),
        invariant
            n == chars.len(),
        ensures
            texts(pieces@) == split_on(chars@, sep),
        decreases n - start,
    {
        assert(chars@.skip(start as int) == chars@.subrange(start as int, n as int));
        let k = scan_in(chars, start, n, CharClass::Is(sep));
        let piece = copy_range(chars, start, k);
        let ghost before = pieces@;
        pieces.push(piece);
        proof {
            assert(texts(pieces@) == texts(before).push(piece@));
        }
        if k >= n {
            proof {
                assert(texts(before) + seq![piece@] == texts(before).push(piece@));
            }
            break;
        }
        proof {
            assert(texts(before) + (seq![piece@] + split_from(chars@, (k + 1) as nat, sep))
                == texts(before).push(piece@) + split_from(chars@, (k + 1) as nat, sep));
        }
        start = k + 1;
    }
    pieces
}

/// The texts of `pieces` in a row, with `sep` between each two.
pub open spec fn join(pieces: Seq<Seq<char>>, sep: char) -> Seq<char>
    decreases pieces.len(),
{
    if pieces.len() == 0 {
        Seq::empty()
    } else if pieces.len() == 1 {
        pieces[0]
    } else {
        join(pieces.drop_last(), sep).push(sep) + pieces.last()
    }
}

/// Appends `chars[..]` to `out`.
pub fn push_chars(out: &mut String, chars: &Vec<char>)
    ensures
        final(out)@ == old(out)@ + chars@,
{
    let mut i: usize = 0;
    assert(chars@.take(0) == Seq::<char>::empty());
    assert(out@ + Seq::<char>::empty() == out@);
    while i < chars.len()
        invariant
            i <= chars.len(),
            out@ == old(out)@ + chars@.take(i as int),
        decreases chars.len() - i,
    {
        out.push(chars[i]);
        assert(chars@.take(i + 1) == chars@.take(i as int).push(chars@[i as int]));
        i += 1;
    }
    assert(chars@.take(chars.len() as int) == chars@);
}

/// Joins `pieces[from..]` with `sep` between each two.
pub fn join_from(pieces: &Vec<Vec<char>>, from: usize, sep: char) -> (out: String)
    requires
        from <= pieces.len(),
    ensures
        out@ == join(texts(pieces@).skip(from as int), sep),
{
    let ghost all = texts(pieces@).skip(from as int);
    let mut out = String::new();
    let mut i: usize = from;
    assert(all.take(0) == Seq::<Seq<char>>::empty());
    while i < pieces.len()
        invariant
            from <= i <= pieces.len(),
            all == texts(pieces@).skip(from as int),
            out@ == join(all.take(i - from), sep),
        decreases pieces.len() - i,
    {
        let ghost done = all.take(i - from);
        let ghost more = all.take(i - from + 1);
        assert(more.drop_last() == done);
        assert(more.last() == pieces@[i as int]@);
        if i > from {
            out.push(sep);
        }
        push_chars(&mut out, &pieces[i]);
        proof {
            if i == from {
                assert(done.len() == 0);
                assert(Seq::<char>::empty() + pieces@[i as int]@ == pieces@[i as int]@);
            }
        }
        i += 1;
    }
    assert(all.take(pieces.len() - from) == all);
    out
}

} // verus!
