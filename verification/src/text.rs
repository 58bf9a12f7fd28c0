//! Plain text: splitting, trimming, comparing and writing numbers.
//!
//! Every function works on the sequence of characters of its argument.
use vstd::prelude::*;

verus! {

/// `String::push` adds one character at the end.
pub assume_specification[ String::push ](s: &mut String, c: char)
    ensures
        final(s)@ == old(s)@.push(c),
;

/// A class of characters at which text is split or which is trimmed off its ends.
#[derive(Clone, Copy, PartialEq, Eq, Structural)]
pub enum Separator {
    Comma,
    Slash,
    Newline,
    Whitespace,
}

impl Separator {
    /// Whether `c` belongs to the class.
    pub open spec fn has(self, c: char) -> bool {
        match self {
            Separator::Comma => c == ',',
            Separator::Slash => c == '/',
            Separator::Newline => c == '\n',
            Separator::Whitespace => is_whitespace(c),
        }
    }

    fn matches(&self, c: char) -> (res: bool)
        ensures
            res == self.has(c),
    {
        match self {
            Separator::Comma => c == ',',
            Separator::Slash => c == '/',
            Separator::Newline => c == '\n',
            Separator::Whitespace => white(c),
        }
    }
}

/// The characters with Unicode's White_Space property.
pub open spec fn is_whitespace(c: char) -> bool {
    ||| '\u{9}' <= c <= '\u{d}'
    ||| c == ' '
    ||| c == '\u{85}'
    ||| c == '\u{a0}'
    ||| c == '\u{1680}'
    ||| '\u{2000}' <= c <= '\u{200a}'
    ||| c == '\u{2028}'
    ||| c == '\u{2029}'
    ||| c == '\u{202f}'
    ||| c == '\u{205f}'
    ||| c == '\u{3000}'
}

fn white(c: char) -> (res: bool)
    ensures
        res == is_whitespace(c),
{
    ('\u{9}' <= c && c <= '\u{d}') || c == ' ' || c == '\u{85}' || c == '\u{a0}' || c == '\u{1680}'
        || ('\u{2000}' <= c && c <= '\u{200a}') || c == '\u{2028}' || c == '\u{2029}' || c
        == '\u{202f}' || c == '\u{205f}' || c == '\u{3000}'
}

/// The pieces of `s` between the characters of `sep`; there is always at least one.
pub open spec fn split(s: Seq<char>, sep: Separator) -> Seq<Seq<char>>
    decreases s.len(),
{
    if s.len() == 0 {
        seq![s]
    } else {
        let before = split(s.drop_last(), sep);
        if sep.has(s.last()) {
            before.push(Seq::empty())
        } else {
            before.drop_last().push(before.last().push(s.last()))
        }
    }
}

/// `s` without the characters of `sep` that it starts with.
pub open spec fn trim_start(s: Seq<char>, sep: Separator) -> Seq<char>
    decreases s.len(),
{
    if s.len() > 0 && sep.has(s.first()) {
        trim_start(s.drop_first(), sep)
    } else {
        s
    }
}

/// `s` without the characters of `sep` that it ends with.
pub open spec fn trim_end(s: Seq<char>, sep: Separator) -> Seq<char>
    decreases s.len(),
{
    if s.len() > 0 && sep.has(s.last()) {
        trim_end(s.drop_last(), sep)
    } else {
        s
    }
}

/// `s` without the characters of `sep` at either end.
pub open spec fn trimmed(s: Seq<char>, sep: Separator) -> Seq<char> {
    trim_end(trim_start(s, sep), sep)
}

/// The characters of `s`, one by one.
pub fn chars_of(s: &str) -> (res: Vec<char>)
    ensures
        res@ == s@,
{
    let mut res: Vec<char> = Vec::new();
    for c in it: s.chars()
        invariant
            res@ == it.seq().take(it.index()),
            it.seq() == s@,
    {
        res.push(c);
    }
    res
}

/// The string made of the characters `chars[from..to]`.
pub fn string_of(chars: &Vec<char>, from: usize, to: usize) -> (res: String)
    requires
        from <= to <= chars@.len(),
    ensures
        res@ == chars@.subrange(from as int, to as int),
{
    let mut res = String::new();
    let mut i: usize = from;
    while i < to
        invariant
            from <= i <= to <= chars@.len(),
            res@ == chars@.subrange(from as int, i as int),
        decreases to - i,
    {
        res.push(chars[i]);
        i = i + 1;
    }
    res
}

proof fn lemma_trim_start_from(s: Seq<char>, sep: Separator, k: int)
    requires
        0 <= k <= s.len(),
        forall|i: int| 0 <= i < k ==> sep.has(#[trigger] s[i]),
    ensures
        trim_start(s, sep) == trim_start(s.skip(k), sep),
    decreases k,
{
    if k > 0 {
        lemma_trim_start_from(s.drop_first(), sep, k - 1);
        assert(s.drop_first().skip(k - 1) =~= s.skip(k));
    } else {
        assert(s.skip(0) =~= s);
    }
}

proof fn lemma_trim_end_from(s: Seq<char>, sep: Separator, k: int)
    requires
        0 <= k <= s.len(),
        forall|i: int| k <= i < s.len() ==> sep.has(#[trigger] s[i]),
    ensures
        trim_end(s, sep) == trim_end(s.take(k), sep),
    decreases s.len() - k,
{
    if k < s.len() {
        lemma_trim_end_from(s.drop_last(), sep, k);
        assert(s.drop_last().take(k) =~= s.take(k));
    } else {
        assert(s.take(k) =~= s);
    }
}

/// `s` without the characters of `sep` at either end.
pub fn trim(s: &str, sep: Separator) -> (res: String)
    ensures
        res@ == trimmed(s@, sep),
{
    let chars = chars_of(s);
    let mut from: usize = 0;
    while from < chars.len() && sep.matches(chars[from])
        invariant
            from <= chars@.len(),
            forall|i: int| 0 <= i < from ==> sep.has(#[trigger] chars@[i]),
        decreases chars@.len() - from,
    {
        from = from + 1;
    }
    let mut to: usize = chars.len();
    while to > from && sep.matches(chars[to - 1])
        invariant
            from <= to <= chars@.len(),
            forall|i: int| to <= i < chars@.len() ==> sep.has(#[trigger] chars@[i]),
        decreases to,
    {
        to = to - 1;
    }
    proof {
        lemma_trim_start_from(chars@, sep, from as int);
        let rest = chars@.skip(from as int);
        assert(trim_start(rest, sep) == rest);
        lemma_trim_end_from(rest, sep, to - from);
        assert(rest.take(to - from) =~= chars@.subrange(from as int, to as int));
    }
    string_of(&chars, from, to)
}

/// The views of a list of strings.
pub open spec fn texts(list: Seq<String>) -> Seq<Seq<char>> {
    list.map_values(|s: String| s@)
}

/// The pieces of `s` between the characters of `sep`, in order.
pub fn split_text(s: &str, sep: Separator) -> (res: Vec<String>)
    ensures
        texts(res@) == split(s@, sep),
{
    let chars = chars_of(s);
    let mut res: Vec<String> = Vec::new();
    let mut current = String::new();
    let mut i: usize = 0;
    proof {
        assert(chars@.take(0) =~= Seq::<char>::empty());
        assert(texts(res@).push(current@) =~= split(chars@.take(0), sep));
    }
    while i < chars.len()
        invariant
            i <= chars@.len(),
            texts(res@).push(current@) == split(chars@.take(i as int), sep),
        decreases chars@.len() - i,
    {
        let c = chars[i];
        proof {
            assert(chars@.take(i + 1).drop_last() =~= chars@.take(i as int));
            assert(texts(res@).push(current@).drop_last() =~= texts(res@));
        }
        if sep.matches(c) {
            let ghost done = texts(res@).push(current@);
            res.push(current);
            current = String::new();
            assert(texts(res@) =~= done);
        } else {
            current.push(c);
        }
        i = i + 1;
    }
    let ghost done = texts(res@).push(current@);
    res.push(current);
    proof {
        assert(texts(res@) =~= done);
        assert(chars@.take(chars@.len() as int) =~= chars@);
    }
    res
}

/// An ASCII capital as the small letter, any other character as it is.
pub open spec fn lower(c: char) -> char {
    if 'A' <= c <= 'Z' {
        ((c as u8) + 32) as u8 as char
    } else {
        c
    }
}

/// `s` with every ASCII capital as the small letter.
pub open spec fn lowered(s: Seq<char>) -> Seq<char> {
    s.map_values(|c: char| lower(c))
}

fn lower_char(c: char) -> (res: char)
    ensures
        res == lower(c),
{
    if 'A' <= c && c <= 'Z' {
        let b: u8 = c as u8;
        (b + 32) as char
    } else {
        c
    }
}

/// Whether two texts are the same but for the case of their ASCII letters.
pub fn eq_ignore_ascii_case(a: &str, b: &str) -> (res: bool)
    ensures
        res == (lowered(a@) == lowered(b@)),
{
    let left = chars_of(a);
    let right = chars_of(b);
    if left.len() != right.len() {
        assert(lowered(a@).len() != lowered(b@).len());
        return false;
    }
    let mut i: usize = 0;
    while i < left.len()
        invariant
            left@ == a@,
            right@ == b@,
            i <= left@.len(),
            left@.len() == right@.len(),
            forall|j: int| 0 <= j < i ==> #[trigger] lowered(a@)[j] == lowered(b@)[j],
        decreases left@.len() - i,
    {
        if lower_char(left[i]) != lower_char(right[i]) {
            assert(lowered(a@)[i as int] != lowered(b@)[i as int]);
            return false;
        }
        i = i + 1;
    }
    assert(lowered(a@) =~= lowered(b@));
    true
}

/// Whether two texts are the same.
pub fn same_text(a: &str, b: &str) -> (res: bool)
    ensures
        res == (a@ == b@),
{
    a.to_owned() == b.to_owned()
}

/// Whether `c` is a decimal digit.
pub open spec fn is_digit(c: char) -> bool {
    '0' <= c <= '9'
}

/// The number that a row of digits stands for.
pub open spec fn decimal_value(digits: Seq<char>) -> nat
    decreases digits.len(),
{
    if digits.len() == 0 {
        0
    } else {
        10 * decimal_value(digits.drop_last()) + (digits.last() as u32 - '0' as u32) as nat
    }
}

/// `s` without the plus sign that it starts with, if it does.
pub open spec fn unsigned(s: Seq<char>) -> Seq<char> {
    if s.len() > 0 && s[0] == '+' {
        s.skip(1)
    } else {
        s
    }
}

/// Whether `s` holds nothing but digits.
pub open spec fn all_digits(s: Seq<char>) -> bool {
    forall|i: int| 0 <= i < s.len() ==> is_digit(#[trigger] s[i])
}

/// The unsigned 64-bit number that `s` spells: digits, after a plus sign if there is one.
pub open spec fn parse_u64(s: Seq<char>) -> Option<u64> {
    let digits = unsigned(s);
    if digits.len() > 0 && all_digits(digits) && decimal_value(digits) <= u64::MAX {
        Some(decimal_value(digits) as u64)
    } else {
        None
    }
}

proof fn lemma_decimal_value_grows(digits: Seq<char>, k: int)
    requires
        0 <= k <= digits.len(),
        all_digits(digits),
    ensures
        decimal_value(digits.take(k)) <= decimal_value(digits),
    decreases digits.len() - k,
{
    if k < digits.len() {
        lemma_decimal_value_grows(digits.drop_last(), k);
        assert(digits.drop_last().take(k) =~= digits.take(k));
    } else {
        assert(digits.take(k) =~= digits);
    }
}

/// Reads an unsigned 64-bit number as `str::parse` does.
pub fn parse_number(s: &str) -> (res: Option<u64>)
    ensures
        res == parse_u64(s@),
{
    let chars = chars_of(s);
    let start: usize = if chars.len() > 0 && chars[0] == '+' {
        1
    } else {
        0
    };
    let ghost digits = chars@.skip(start as int);
    assert(digits =~= unsigned(s@));
    if start == chars.len() {
        return None;
    }
    let mut value: u64 = 0;
    let mut i: usize = start;
    assert(digits.take(0) =~= Seq::<char>::empty());
    while i < chars.len()
        invariant
            start <= i <= chars@.len(),
            digits == chars@.skip(start as int),
            digits == unsigned(s@),
            forall|j: int| 0 <= j < i - start ==> is_digit(#[trigger] digits[j]),
            value == decimal_value(digits.take(i - start)),
        decreases chars@.len() - i,
    {
        let c = chars[i];
        assert(digits[i - start] == c);
        if c < '0' || c > '9' {
            assert(!all_digits(digits));
            return None;
        }
        let digit: u64 = (c as u32 - '0' as u32) as u64;
        proof {
            assert(digits.take(i + 1 - start).drop_last() =~= digits.take(i - start));
            assert(digits.take(i + 1 - start).last() == c);
        }
        if value > (u64::MAX - digit) / 10 {
            proof {
                assert(10 * value + digit > u64::MAX);
                if all_digits(digits) {
                    lemma_decimal_value_grows(digits, i + 1 - start);
                }
            }
            return None;
        }
        value = value * 10 + digit;
        i = i + 1;
    }
    assert(digits.take(digits.len() as int) =~= digits);
    Some(value)
}

/// The digits of `n` in decimal.
pub open spec fn decimal(n: nat) -> Seq<char>
    decreases n,
{
    if n < 10 {
        seq![(('0' as u32) + n) as u32 as char]
    } else {
        decimal(n / 10).push((('0' as u32) + n % 10) as u32 as char)
    }
}

/// `n` in decimal.
pub fn write_decimal(n: u16) -> (res: String)
    ensures
        res@ == decimal(n as nat),
    decreases n,
{
    let digit = ('0' as u8 + (n % 10) as u8) as char;
    if n < 10 {
        let mut res = String::new();
        res.push(digit);
        assert(res@ =~= decimal(n as nat));
        res
    } else {
        let mut res = write_decimal(n / 10);
        res.push(digit);
        res
    }
}

/// The texts of `list` one after the other, with `sep` between two neighbours.
pub open spec fn joined(list: Seq<Seq<char>>, sep: Seq<char>) -> Seq<char>
    decreases list.len(),
{
    if list.len() == 0 {
        Seq::empty()
    } else if list.len() == 1 {
        list[0]
    } else {
        joined(list.drop_last(), sep) + sep + list.last()
    }
}

/// The strings of `list` one after the other, with `sep` between two neighbours.
pub fn join(list: &Vec<String>, sep: &str) -> (res: String)
    ensures
        res@ == joined(texts(list@), sep@),
{
    let mut res = String::new();
    let mut i: usize = 0;
    assert(texts(list@).take(0) =~= Seq::<Seq<char>>::empty());
    while i < list.len()
        invariant
            i <= list@.len(),
            res@ == joined(texts(list@).take(i as int), sep@),
        decreases list@.len() - i,
    {
        proof {
            assert(texts(list@).take(i + 1).drop_last() =~= texts(list@).take(i as int));
            assert(texts(list@).take(i + 1).last() == list@[i as int]@);
        }
        if i > 0 {
            res.append(sep);
        }
        res.append(list[i].as_str());
        assert(i == 0 ==> res@ =~= list@[0]@);
        i = i + 1;
    }
    assert(texts(list@).take(list@.len() as int) =~= texts(list@));
    res
}

/// One text behind the other.
pub fn concatenate(left: &str, right: &str) -> (res: String)
    ensures
        res@ == left@ + right@,
{
    let mut res = left.to_owned();
    res.append(right);
    res
}

/// Whether two byte strings are the same.
pub fn same_bytes(left: &Vec<u8>, right: &Vec<u8>) -> (res: bool)
    ensures
        res == (left@ == right@),
{
    if left.len() != right.len() {
        return false;
    }
    let mut i: usize = 0;
    while i < left.len()
        invariant
            i <= left@.len(),
            left@.len() == right@.len(),
            forall|j: int| 0 <= j < i ==> left@[j] == right@[j],
        decreases left@.len() - i,
    {
        if left[i] != right[i] {
            return false;
        }
        i = i + 1;
    }
    assert(left@ =~= right@);
    true
}

} // verus!
