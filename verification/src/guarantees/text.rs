//! Promises on plain text: comparing, trimming, splitting, joining, and numbers.
use vstd::prelude::*;

use crate::text::{
    all_digits, chars_of, concatenate, decimal, decimal_value, eq_ignore_ascii_case, is_digit, join,
    joined, lower, lowered, parse_number, same_bytes, same_text, split, split_text, string_of,
    texts, trim, trim_end, trim_start, trimmed, unsigned, write_decimal, Separator,
};

verus! {

/// Whether two characters are the same but for the case of an ASCII letter.
pub open spec fn same_letter(a: char, b: char) -> bool {
    ||| a == b
    ||| 'A' <= a <= 'Z' && b as int == a as int + 32
    ||| 'A' <= b <= 'Z' && a as int == b as int + 32
}

/// Whether two texts are the same but for the case of their ASCII letters.
pub open spec fn same_letters(a: Seq<char>, b: Seq<char>) -> bool {
    a.len() == b.len() && forall|i: int| 0 <= i < a.len() ==> same_letter(#[trigger] a[i], b[i])
}

proof fn lemma_lower(a: char, b: char)
    ensures
        (lower(a) == lower(b)) == same_letter(a, b),
{
}

pub(crate) proof fn lemma_lowered(a: Seq<char>, b: Seq<char>)
    ensures
        (lowered(a) == lowered(b)) == same_letters(a, b),
{
    if lowered(a) == lowered(b) {
        assert(lowered(a).len() == a.len() && lowered(b).len() == b.len());
        assert forall|i: int| 0 <= i < a.len() implies same_letter(#[trigger] a[i], b[i]) by {
            lemma_lower(a[i], b[i]);
            assert(lowered(a)[i] == lower(a[i]));
            assert(lowered(b)[i] == lower(b[i]));
        }
    }
    if same_letters(a, b) {
        assert forall|i: int| 0 <= i < a.len() implies lowered(a)[i] == lowered(b)[i] by {
            lemma_lower(a[i], b[i]);
        }
        assert(lowered(a) =~= lowered(b));
    }
}

/// Two texts count as the same exactly if they differ in the case of ASCII letters at most.
pub proof fn letters_are_compared_without_case(a: &str, b: &str, res: bool)
    requires
        call_ensures(eq_ignore_ascii_case, (a, b), res),
    ensures
        res == same_letters(a@, b@),
{
    lemma_lowered(a@, b@);
}

/// Two texts, or two byte strings, are the same if every part of them is.
pub proof fn sameness_is_equality(a: &str, b: &str, same: bool, x: &Vec<u8>, y: &Vec<u8>, equal: bool)
    requires
        call_ensures(same_text, (a, b), same),
        call_ensures(same_bytes, (x, y), equal),
    ensures
        same <==> a@.len() == b@.len() && forall|i: int|
            0 <= i < a@.len() ==> #[trigger] a@[i] == b@[i],
        equal <==> x@.len() == y@.len() && forall|i: int|
            0 <= i < x@.len() ==> #[trigger] x@[i] == y@[i],
{
    if a@.len() == b@.len() && forall|i: int| 0 <= i < a@.len() ==> #[trigger] a@[i] == b@[i] {
        assert(a@ =~= b@);
    }
    if x@.len() == y@.len() && forall|i: int| 0 <= i < x@.len() ==> #[trigger] x@[i] == y@[i] {
        assert(x@ =~= y@);
    }
}

/// The characters at which a text is split or trimmed.
pub open spec fn separates(sep: Separator, c: char) -> bool {
    match sep {
        Separator::Comma => c == ',',
        Separator::Slash => c == '/',
        Separator::Newline => c == '\n',
        Separator::Whitespace => {
            ||| '\u{9}' <= c <= '\u{d}' || c == ' ' || c == '\u{85}' || c == '\u{a0}'
            ||| c == '\u{1680}' || '\u{2000}' <= c <= '\u{200a}' || c == '\u{2028}'
            ||| c == '\u{2029}' || c == '\u{202f}' || c == '\u{205f}' || c == '\u{3000}'
        },
    }
}

/// Whether all of a text separates.
pub open spec fn all_separate(sep: Separator, s: Seq<char>) -> bool {
    forall|i: int| 0 <= i < s.len() ==> separates(sep, #[trigger] s[i])
}

/// Whether none of a text separates.
pub open spec fn none_separates(sep: Separator, s: Seq<char>) -> bool {
    forall|i: int| 0 <= i < s.len() ==> !separates(sep, #[trigger] s[i])
}

/// Whether a text neither starts nor ends with a separator.
pub open spec fn is_bare(sep: Separator, s: Seq<char>) -> bool {
    s.len() > 0 ==> !separates(sep, s[0]) && !separates(sep, s.last())
}

proof fn lemma_trim_start_past(before: Seq<char>, rest: Seq<char>, sep: Separator)
    requires
        all_separate(sep, before),
    ensures
        trim_start(before + rest, sep) == trim_start(rest, sep),
    decreases before.len(),
{
    if before.len() > 0 {
        assert(separates(sep, before[0]));
        assert((before + rest).drop_first() =~= before.drop_first() + rest);
        assert(all_separate(sep, before.drop_first()));
        lemma_trim_start_past(before.drop_first(), rest, sep);
    } else {
        assert(before + rest =~= rest);
    }
}

proof fn lemma_trim_end_before(rest: Seq<char>, after: Seq<char>, sep: Separator)
    requires
        all_separate(sep, after),
    ensures
        trim_end(rest + after, sep) == trim_end(rest, sep),
    decreases after.len(),
{
    if after.len() > 0 {
        assert(separates(sep, after.last()));
        assert((rest + after).drop_last() =~= rest + after.drop_last());
        assert(all_separate(sep, after.drop_last()));
        lemma_trim_end_before(rest, after.drop_last(), sep);
    } else {
        assert(rest + after =~= rest);
    }
}

pub(crate) proof fn lemma_trimmed_core(
    before: Seq<char>,
    core: Seq<char>,
    after: Seq<char>,
    sep: Separator,
)
    requires
        all_separate(sep, before),
        all_separate(sep, after),
        is_bare(sep, core),
    ensures
        trimmed(before + core + after, sep) == core,
{
    assert(before + core + after =~= before + (core + after));
    lemma_trim_start_past(before, core + after, sep);
    if core.len() > 0 {
        assert(!separates(sep, (core + after)[0]));
        assert(trim_start(core + after, sep) == core + after);
        lemma_trim_end_before(core, after, sep);
        assert(trim_end(core, sep) == core);
    } else {
        assert(core + after =~= after);
        assert(after =~= after + Seq::<char>::empty());
        lemma_trim_start_past(after, Seq::empty(), sep);
        assert(trim_start(Seq::<char>::empty(), sep) == Seq::<char>::empty());
        assert(trim_end(Seq::<char>::empty(), sep) =~= core);
    }
}

/// How a text falls into what is trimmed off and what stays.
pub(crate) proof fn lemma_trimming_exists(s: Seq<char>, sep: Separator) -> (res: (int, int))
    ensures
        0 <= res.0 <= res.1 <= s.len(),
        all_separate(sep, s.take(res.0)),
        all_separate(sep, s.skip(res.1)),
        is_bare(sep, s.subrange(res.0, res.1)),
        trimmed(s, sep) == s.subrange(res.0, res.1),
    decreases s.len(),
{
    if s.len() > 0 && separates(sep, s[0]) {
        let rest = s.drop_first();
        let inner = lemma_trimming_exists(rest, sep);
        let (a, b) = (inner.0 + 1, inner.1 + 1);
        assert forall|i: int| 0 <= i < s.take(a).len() implies separates(
            sep,
            #[trigger] s.take(a)[i],
        ) by {
            if i > 0 {
                assert(rest.take(inner.0)[i - 1] == s[i]);
            }
        }
        assert(s.skip(b) =~= rest.skip(inner.1));
        assert(s.subrange(a, b) =~= rest.subrange(inner.0, inner.1));
        assert(s =~= s.take(a) + s.subrange(a, b) + s.skip(b));
        lemma_trimmed_core(s.take(a), s.subrange(a, b), s.skip(b), sep);
        (a, b)
    } else if s.len() > 0 && separates(sep, s.last()) {
        let rest = s.drop_last();
        let inner = lemma_trimming_exists(rest, sep);
        let (a, b) = inner;
        assert(s.take(a) =~= rest.take(a));
        assert forall|i: int| 0 <= i < s.skip(b).len() implies separates(
            sep,
            #[trigger] s.skip(b)[i],
        ) by {
            if b + i < rest.len() {
                assert(rest.skip(b)[i] == s[b + i]);
            }
        }
        assert(s.subrange(a, b) =~= rest.subrange(a, b));
        assert(s =~= s.take(a) + s.subrange(a, b) + s.skip(b));
        lemma_trimmed_core(s.take(a), s.subrange(a, b), s.skip(b), sep);
        (a, b)
    } else {
        assert(s.subrange(0, s.len() as int) =~= s);
        assert(Seq::<char>::empty() + s + Seq::<char>::empty() =~= s);
        lemma_trimmed_core(Seq::empty(), s, Seq::empty(), sep);
        (0, s.len() as int)
    }
}

/// Trimming takes off the separators at both ends and nothing else: whatever stands before and
/// behind a text that neither starts nor ends with one, that text stays.
pub proof fn trimming_leaves_the_middle(
    before: Seq<char>,
    core: Seq<char>,
    after: Seq<char>,
    s: &str,
    sep: Separator,
    res: String,
)
    requires
        s@ == before + core + after,
        all_separate(sep, before),
        all_separate(sep, after),
        is_bare(sep, core),
        call_ensures(trim, (s, sep), res),
    ensures
        res@ == core,
{
    lemma_trimmed_core(before, core, after, sep);
}

pub(crate) proof fn lemma_split_whole(s: Seq<char>, sep: Separator)
    requires
        none_separates(sep, s),
    ensures
        split(s, sep) == seq![s],
    decreases s.len(),
{
    if s.len() > 0 {
        assert(!separates(sep, s.last()));
        assert(none_separates(sep, s.drop_last()));
        lemma_split_whole(s.drop_last(), sep);
        assert(s.drop_last().push(s.last()) =~= s);
        assert(split(s, sep) =~= seq![s]);
    }
}

pub(crate) proof fn lemma_split_some(s: Seq<char>, sep: Separator)
    ensures
        split(s, sep).len() > 0,
    decreases s.len(),
{
    if s.len() > 0 {
        lemma_split_some(s.drop_last(), sep);
    }
}

pub(crate) proof fn lemma_split_at(a: Seq<char>, c: char, b: Seq<char>, sep: Separator)
    requires
        separates(sep, c),
    ensures
        split(a + seq![c] + b, sep) == split(a, sep) + split(b, sep),
    decreases b.len(),
{
    let all = a + seq![c] + b;
    if b.len() == 0 {
        assert(all.drop_last() =~= a);
        assert(b =~= Seq::<char>::empty());
        assert(split(b, sep) =~= seq![Seq::<char>::empty()]);
        assert(split(all, sep) =~= split(a, sep) + split(b, sep));
    } else {
        let rest = b.drop_last();
        assert(all.drop_last() =~= a + seq![c] + rest);
        lemma_split_at(a, c, rest, sep);
        lemma_split_some(rest, sep);
        let before = split(a, sep) + split(rest, sep);
        assert(before.last() == split(rest, sep).last());
        assert(before.drop_last() =~= split(a, sep) + split(rest, sep).drop_last());
        assert(split(all, sep) =~= split(a, sep) + split(b, sep));
    }
}

/// A text without a separator is one piece.
pub proof fn text_without_separator_is_one_piece(s: &str, sep: Separator, res: Vec<String>)
    requires
        none_separates(sep, s@),
        call_ensures(split_text, (s, sep), res),
    ensures
        res@.len() == 1,
        res@[0]@ == s@,
{
    lemma_split_whole(s@, sep);
    assert(texts(res@).len() == res@.len());
    assert(texts(res@)[0] == res@[0]@);
}

/// A separator parts a text: the pieces of the whole are those of what stands before it, then those
/// of what stands behind it.
pub proof fn separator_parts_the_pieces(
    left: &str,
    c: char,
    right: &str,
    whole: &str,
    sep: Separator,
    left_pieces: Vec<String>,
    right_pieces: Vec<String>,
    pieces: Vec<String>,
    i: int,
)
    requires
        separates(sep, c),
        whole@ == left@ + seq![c] + right@,
        call_ensures(split_text, (left, sep), left_pieces),
        call_ensures(split_text, (right, sep), right_pieces),
        call_ensures(split_text, (whole, sep), pieces),
    ensures
        pieces@.len() == left_pieces@.len() + right_pieces@.len(),
        0 <= i < left_pieces@.len() ==> pieces@[i]@ == left_pieces@[i]@,
        left_pieces@.len() <= i < pieces@.len() ==> pieces@[i]@ == right_pieces@[i
            - left_pieces@.len()]@,
{
    lemma_split_at(left@, c, right@, sep);
    assert(texts(pieces@).len() == pieces@.len());
    assert(texts(left_pieces@).len() == left_pieces@.len());
    assert(texts(right_pieces@).len() == right_pieces@.len());
    if 0 <= i < pieces@.len() {
        assert(texts(pieces@)[i] == pieces@[i]@);
        if i < left_pieces@.len() {
            assert(texts(left_pieces@)[i] == left_pieces@[i]@);
        } else {
            assert(texts(right_pieces@)[i - left_pieces@.len()] == right_pieces@[i
                - left_pieces@.len()]@);
        }
    }
}

/// Joining no text gives the empty one, joining one text gives it back.
pub proof fn joining_few_texts(list: &Vec<String>, sep: &str, res: String)
    requires
        call_ensures(join, (list, sep), res),
    ensures
        list@.len() == 0 ==> res@.len() == 0,
        list@.len() == 1 ==> res@ == list@[0]@,
{
    assert(texts(list@).len() == list@.len());
    if list@.len() == 1 {
        assert(texts(list@)[0] == list@[0]@);
    }
}

/// One text more is joined behind the others, with the separator before it.
pub proof fn joining_one_text_more(
    list: &Vec<String>,
    longer: &Vec<String>,
    sep: &str,
    joined_list: String,
    res: String,
)
    requires
        list@.len() > 0,
        longer@.len() == list@.len() + 1,
        forall|i: int| 0 <= i < list@.len() ==> longer@[i]@ == #[trigger] list@[i]@,
        call_ensures(join, (list, sep), joined_list),
        call_ensures(join, (longer, sep), res),
    ensures
        res@ == joined_list@ + sep@ + longer@.last()@,
{
    assert(texts(longer@).drop_last() =~= texts(list@)) by {
        assert forall|i: int| 0 <= i < list@.len() implies texts(longer@)[i] == texts(list@)[i] by {
            assert(longer@[i]@ == list@[i]@);
        }
    }
    assert(texts(longer@).last() == longer@.last()@);
}

/// A text is taken apart into its characters, and put together from any row of them, in their
/// order.
pub proof fn characters_keep_their_order(
    s: &str,
    chars: Vec<char>,
    from: usize,
    to: usize,
    part: String,
    i: int,
)
    requires
        call_ensures(chars_of, (s,), chars),
        from <= to <= s@.len(),
        call_ensures(string_of, (&chars, from, to), part),
    ensures
        chars@.len() == s@.len(),
        0 <= i < s@.len() ==> chars@[i] == s@[i],
        part@.len() == to - from,
        0 <= i < to - from ==> part@[i] == s@[from + i],
{
}

/// One text stands behind the other, and nothing between them.
pub proof fn concatenation_keeps_both(left: &str, right: &str, res: String)
    requires
        call_ensures(concatenate, (left, right), res),
    ensures
        res@.len() == left@.len() + right@.len(),
        res@.take(left@.len() as int) == left@,
        res@.skip(left@.len() as int) == right@,
{
    assert(res@.take(left@.len() as int) =~= left@);
    assert(res@.skip(left@.len() as int) =~= right@);
}

/// The value of a decimal digit; none for other characters.
pub open spec fn digit_value(c: char) -> Option<nat> {
    if '0' <= c <= '9' {
        Some((c as int - 48) as nat)
    } else {
        None
    }
}

/// Whether digits, the first one first, stand for a number.
pub open spec fn spells(digits: Seq<char>, n: nat) -> bool
    decreases digits.len(),
{
    if digits.len() == 0 {
        n == 0
    } else {
        digit_value(digits.last()) matches Some(d) && n % 10 == d && spells(
            digits.drop_last(),
            n / 10,
        )
    }
}

proof fn lemma_spelled_value(digits: Seq<char>, n: nat)
    requires
        all_digits(digits),
        n == decimal_value(digits),
    ensures
        spells(digits, n),
    decreases digits.len(),
{
    if digits.len() > 0 {
        assert(is_digit(digits[digits.len() - 1]));
        assert(all_digits(digits.drop_last()));
        let d = (digits.last() as u32 - '0' as u32) as nat;
        lemma_spelled_value(digits.drop_last(), decimal_value(digits.drop_last()));
        assert(n % 10 == d && n / 10 == decimal_value(digits.drop_last()));
    }
}

proof fn lemma_value_of_spelling(digits: Seq<char>, n: nat)
    requires
        spells(digits, n),
    ensures
        all_digits(digits),
        n == decimal_value(digits),
    decreases digits.len(),
{
    if digits.len() > 0 {
        lemma_value_of_spelling(digits.drop_last(), n / 10);
        assert forall|i: int| 0 <= i < digits.len() implies is_digit(#[trigger] digits[i]) by {
            if i < digits.len() - 1 {
                assert(digits.drop_last()[i] == digits[i]);
            }
        }
    }
}

/// A text is read as a number exactly if it spells one of 64 bits in decimal, with or without a
/// plus sign before it.
pub proof fn numbers_are_read_in_decimal(s: &str, digits: Seq<char>, n: nat, res: Option<u64>)
    requires
        call_ensures(parse_number, (s,), res),
    ensures
        digits.len() > 0 && spells(digits, n) && n <= u64::MAX && (s@ == digits || s@ == seq!['+']
            + digits) ==> res == Some(n as u64),
        res matches Some(value) ==> s@.len() > 0 && spells(
            if s@[0] == '+' {
                s@.skip(1)
            } else {
                s@
            },
            value as nat,
        ),
        res is Some && s@[0] == '+' ==> s@.len() > 1,
{
    if digits.len() > 0 && spells(digits, n) && n <= u64::MAX && (s@ == digits || s@ == seq!['+']
        + digits) {
        lemma_value_of_spelling(digits, n);
        assert(is_digit(digits[0]));
        if s@ == seq!['+'] + digits {
            assert(s@.skip(1) =~= digits);
        }
        assert(unsigned(s@) == digits);
    }
    if let Some(value) = res {
        lemma_spelled_value(unsigned(s@), decimal_value(unsigned(s@)));
    }
}

pub(crate) proof fn lemma_decimal_spells(n: nat)
    ensures
        spells(decimal(n), n),
        decimal(n).len() > 0,
        n > 0 ==> decimal(n)[0] != '0',
        n == 0 ==> decimal(n).len() == 1,
    decreases n,
{
    if n >= 10 {
        lemma_decimal_spells(n / 10);
        assert(decimal(n).drop_last() =~= decimal(n / 10));
    } else {
        assert(decimal(n).drop_last() =~= Seq::<char>::empty());
        assert(spells(decimal(n).drop_last(), 0));
    }
}

/// A number is written in decimal digits that spell it, without zeros before it.
pub proof fn numbers_are_written_in_decimal(n: u16, res: String)
    requires
        call_ensures(write_decimal, (n,), res),
    ensures
        spells(res@, n as nat),
        res@.len() > 0,
        n > 0 ==> res@[0] != '0',
        n == 0 ==> res@ == seq!['0'],
{
    lemma_decimal_spells(n as nat);
    if n == 0 {
        assert(res@ =~= seq!['0']);
    }
}

} // verus!
