//! Promises on the names that `Connection` headers list, one by one and in their order.
use axum::http::HeaderMap;
use vstd::prelude::*;

use crate::forward::{all_tokens, connection_header_tokens, tokens_among, tokens_of};
use crate::guarantees::headers::{is_blank, is_visible, lemma_text};
use crate::guarantees::text::{
    all_separate, is_bare, lemma_split_at, lemma_split_whole, lemma_trimmed_core, none_separates,
};
use crate::headers::{header_values, text_of, Headers, Value};
use crate::text::{split, texts, Separator};

verus! {

/// The values of the `Connection` headers.
pub open spec fn connections(headers: Headers) -> Seq<Value> {
    if headers.dom().contains("connection"@) {
        headers["connection"@]
    } else {
        Seq::empty()
    }
}

/// Whether a list holds the texts of one list, then those of another.
pub open spec fn is_both(all: Seq<String>, first: Seq<String>, second: Seq<String>) -> bool {
    &&& all.len() == first.len() + second.len()
    &&& forall|i: int| 0 <= i < first.len() ==> (#[trigger] all[i])@ == first[i]@
    &&& forall|i: int|
        first.len() <= i < all.len() ==> (#[trigger] all[i])@ == second[i - first.len()]@
}

proof fn lemma_is_both(all: Seq<String>, first: Seq<String>, second: Seq<String>)
    requires
        texts(all) == texts(first) + texts(second),
    ensures
        is_both(all, first, second),
{
    assert(texts(all).len() == all.len());
    assert(texts(first).len() == first.len());
    assert(texts(second).len() == second.len());
    assert forall|i: int| 0 <= i < first.len() implies (#[trigger] all[i])@ == first[i]@ by {
        assert(texts(all)[i] == all[i]@);
        assert(texts(first)[i] == first[i]@);
    }
    assert forall|i: int| first.len() <= i < all.len() implies (#[trigger] all[i])@ == second[i
        - first.len()]@ by {
        assert(texts(all)[i] == all[i]@);
        assert(texts(second)[i - first.len()] == second[i - first.len()]@);
    }
}

proof fn lemma_all_tokens_join(first: Seq<Value>, second: Seq<Value>)
    ensures
        all_tokens(first + second) == all_tokens(first) + all_tokens(second),
    decreases second.len(),
{
    if second.len() == 0 {
        assert(first + second =~= first);
        assert(all_tokens(first) + all_tokens(second) =~= all_tokens(first));
    } else {
        lemma_all_tokens_join(first, second.drop_last());
        assert((first + second).drop_last() =~= first + second.drop_last());
        assert((first + second).last() == second.last());
        assert(all_tokens(first + second) =~= all_tokens(first) + all_tokens(second));
    }
}

proof fn lemma_tokens_among_join(first: Seq<Seq<char>>, second: Seq<Seq<char>>)
    ensures
        tokens_among(first + second) == tokens_among(first) + tokens_among(second),
    decreases second.len(),
{
    if second.len() == 0 {
        assert(first + second =~= first);
        assert(tokens_among(first) + tokens_among(second) =~= tokens_among(first));
    } else {
        lemma_tokens_among_join(first, second.drop_last());
        assert((first + second).drop_last() =~= first + second.drop_last());
        assert((first + second).last() == second.last());
        assert(tokens_among(first + second) =~= tokens_among(first) + tokens_among(second));
    }
}

proof fn lemma_one_value(value: Value)
    ensures
        all_tokens(seq![value]) == tokens_of(value.bytes),
{
    reveal_with_fuel(all_tokens, 2);
    assert(seq![value].drop_last() =~= Seq::<Value>::empty());
    assert(all_tokens(seq![value]) =~= tokens_of(value.bytes));
}

/// The names of several `Connection` headers are those of the first ones, then those of the others;
/// without such a header there are none.
pub proof fn connection_headers_are_read_in_turn(
    first: &HeaderMap,
    second: &HeaderMap,
    all: &HeaderMap,
    first_names: Vec<String>,
    second_names: Vec<String>,
    res: Vec<String>,
)
    requires
        connections(header_values(*all)) == connections(header_values(*first)) + connections(
            header_values(*second),
        ),
        call_ensures(connection_header_tokens, (first,), first_names),
        call_ensures(connection_header_tokens, (second,), second_names),
        call_ensures(connection_header_tokens, (all,), res),
    ensures
        is_both(res@, first_names@, second_names@),
        connections(header_values(*all)).len() == 0 ==> res@.len() == 0,
{
    lemma_all_tokens_join(
        connections(header_values(*first)),
        connections(header_values(*second)),
    );
    lemma_is_both(res@, first_names@, second_names@);
    assert(texts(res@).len() == res@.len());
}

/// A comma parts the names of a value: those before it come first, those behind it follow.
pub proof fn comma_parts_the_names(
    left: &HeaderMap,
    right: &HeaderMap,
    whole: &HeaderMap,
    a: Value,
    b: Value,
    value: Value,
    left_names: Vec<String>,
    right_names: Vec<String>,
    res: Vec<String>,
)
    requires
        connections(header_values(*left)) == seq![a],
        connections(header_values(*right)) == seq![b],
        connections(header_values(*whole)) == seq![value],
        value.bytes == a.bytes + seq![44u8] + b.bytes,
        is_visible(value.bytes),
        call_ensures(connection_header_tokens, (left,), left_names),
        call_ensures(connection_header_tokens, (right,), right_names),
        call_ensures(connection_header_tokens, (whole,), res),
    ensures
        is_both(res@, left_names@, right_names@),
{
    lemma_one_value(a);
    lemma_one_value(b);
    lemma_one_value(value);
    assert(is_visible(a.bytes)) by {
        assert forall|i: int| 0 <= i < a.bytes.len() implies (32 <= #[trigger] a.bytes[i] <= 126
            || a.bytes[i] == 9) by {
            assert(value.bytes[i] == a.bytes[i]);
        }
    }
    assert(is_visible(b.bytes)) by {
        assert forall|i: int| 0 <= i < b.bytes.len() implies (32 <= #[trigger] b.bytes[i] <= 126
            || b.bytes[i] == 9) by {
            assert(value.bytes[a.bytes.len() + 1 + i] == b.bytes[i]);
        }
    }
    lemma_text(a.bytes);
    lemma_text(b.bytes);
    lemma_text(value.bytes);
    let left_text = text_of(a.bytes)->0;
    let right_text = text_of(b.bytes)->0;
    assert(text_of(value.bytes)->0 =~= left_text + seq![','] + right_text);
    lemma_split_at(left_text, ',', right_text, Separator::Comma);
    lemma_tokens_among_join(
        split(left_text, Separator::Comma),
        split(right_text, Separator::Comma),
    );
    lemma_is_both(res@, left_names@, right_names@);
}

/// A value without a comma is one name, as it is spelled, without the blanks around it; or none if
/// nothing is left, or if the value is not visible ASCII.
pub proof fn value_without_comma_is_one_name(
    headers: &HeaderMap,
    value: Value,
    before: Seq<u8>,
    core: Seq<u8>,
    after: Seq<u8>,
    res: Vec<String>,
)
    requires
        connections(header_values(*headers)) == seq![value],
        value.bytes == before + core + after,
        forall|i: int| 0 <= i < before.len() ==> is_blank(#[trigger] before[i]),
        forall|i: int| 0 <= i < after.len() ==> is_blank(#[trigger] after[i]),
        forall|i: int| 0 <= i < core.len() ==> #[trigger] core[i] != 44,
        core.len() > 0 ==> !is_blank(core[0]) && !is_blank(core.last()),
        call_ensures(connection_header_tokens, (headers,), res),
    ensures
        !is_visible(value.bytes) ==> res@.len() == 0,
        is_visible(value.bytes) && core.len() == 0 ==> res@.len() == 0,
        is_visible(value.bytes) && core.len() > 0 ==> res@.len() == 1 && res@[0]@.len()
            == core.len() && forall|i: int|
            0 <= i < core.len() ==> #[trigger] res@[0]@[i] as int == core[i] as int,
{
    lemma_one_value(value);
    lemma_text(value.bytes);
    assert(texts(res@).len() == res@.len());
    if is_visible(value.bytes) {
        let text = text_of(value.bytes)->0;
        let x = before.len() as int;
        let y = x + core.len();
        let lead = text.take(x);
        let name = text.subrange(x, y);
        let tail = text.skip(y);
        assert(text =~= lead + name + tail);
        assert forall|i: int| 0 <= i < lead.len() implies crate::guarantees::text::separates(
            Separator::Whitespace,
            #[trigger] lead[i],
        ) by {
            assert(text[i] == lead[i] && value.bytes[i] == before[i]);
        }
        assert forall|i: int| 0 <= i < tail.len() implies crate::guarantees::text::separates(
            Separator::Whitespace,
            #[trigger] tail[i],
        ) by {
            assert(text[y + i] == tail[i] && value.bytes[y + i] == after[i]);
        }
        assert(all_separate(Separator::Whitespace, lead));
        assert(all_separate(Separator::Whitespace, tail));
        if core.len() > 0 {
            assert(name[0] == text[x] && value.bytes[x] == core[0]);
            assert(name.last() == text[y - 1] && value.bytes[y - 1] == core.last());
        }
        assert(is_bare(Separator::Whitespace, name));
        assert(none_separates(Separator::Comma, text)) by {
            assert forall|i: int| 0 <= i < text.len() implies
                !crate::guarantees::text::separates(Separator::Comma, #[trigger] text[i]) by {
                if i < x {
                    assert(value.bytes[i] == before[i]);
                } else if i < y {
                    assert(value.bytes[i] == core[i - x]);
                } else {
                    assert(value.bytes[i] == after[i - y]);
                }
            }
        }
        lemma_split_whole(text, Separator::Comma);
        lemma_trimmed_core(lead, name, tail, Separator::Whitespace);
        reveal_with_fuel(tokens_among, 2);
        assert(seq![text].drop_last() =~= Seq::<Seq<char>>::empty());
        if core.len() > 0 {
            assert(tokens_of(value.bytes) =~= seq![name]);
            assert(texts(res@)[0] == res@[0]@);
            assert forall|i: int| 0 <= i < core.len() implies #[trigger] res@[0]@[i] as int
                == core[i] as int by {
                assert(name[i] == text[x + i] && value.bytes[x + i] == core[i]);
            }
        }
    }
}

} // verus!
