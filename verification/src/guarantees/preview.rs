//! Promises on the short texts for the log and for error replies.
use vstd::prelude::*;
use vstd::utf8::{decode_utf8, valid_utf8};

use crate::preview::{
    body_preview, format_error_chain, on_one_line, one_line, preview_text, utf8_lossy,
    websocket_error_body_preview,
};
use crate::text::texts;

verus! {

proof fn lemma_lines_join(left: Seq<char>, right: Seq<char>)
    ensures
        one_line(left + right) == one_line(left) + one_line(right),
    decreases right.len(),
{
    if right.len() == 0 {
        assert(left + right =~= left);
        assert(one_line(left) + one_line(right) =~= one_line(left));
    } else {
        lemma_lines_join(left, right.drop_last());
        assert((left + right).drop_last() =~= left + right.drop_last());
        assert((left + right).last() == right.last());
        assert(one_line(left + right) =~= one_line(left) + one_line(right));
    }
}

proof fn lemma_plain_line(text: Seq<char>)
    requires
        forall|i: int| 0 <= i < text.len() ==> (#[trigger] text[i]) != '\n' && text[i] != '\r',
    ensures
        one_line(text) == text,
    decreases text.len(),
{
    if text.len() > 0 {
        let rest = text.drop_last();
        assert forall|i: int| 0 <= i < rest.len() implies (#[trigger] rest[i]) != '\n' && rest[i]
            != '\r' by {
            assert(rest[i] == text[i]);
        }
        lemma_plain_line(rest);
        assert(text.last() == text[text.len() - 1]);
        assert(one_line(text) =~= text);
    }
}

/// A text without line breaks is shown as it is.
pub proof fn plain_text_is_shown_as_it_is(text: &str, res: String)
    requires
        forall|i: int| 0 <= i < text@.len() ==> (#[trigger] text@[i]) != '\n' && text@[i] != '\r',
        call_ensures(preview_text, (text, false), res),
    ensures
        res@ == text@,
{
    lemma_plain_line(text@);
}

/// A line feed is shown as a backslash and an `n`, a carriage return as a backslash and an `r`,
/// wherever they stand; what is before and behind is shown as it is without them.
pub proof fn line_breaks_are_spelled_out(
    left: &str,
    c: char,
    right: &str,
    text: &str,
    left_shown: String,
    right_shown: String,
    res: String,
)
    requires
        c == '\n' || c == '\r',
        text@ == left@ + seq![c] + right@,
        call_ensures(preview_text, (left, false), left_shown),
        call_ensures(preview_text, (right, false), right_shown),
        call_ensures(preview_text, (text, false), res),
    ensures
        res@ == left_shown@ + seq![
            '\\',
            if c == '\n' {
                'n'
            } else {
                'r'
            },
        ] + right_shown@,
{
    lemma_lines_join(left@ + seq![c], right@);
    lemma_lines_join(left@, seq![c]);
    reveal_with_fuel(one_line, 2);
    assert(seq![c].drop_last() =~= Seq::<char>::empty());
    assert(one_line(seq![c]) =~= on_one_line(c));
    assert(on_one_line(c) =~= seq![
        '\\',
        if c == '\n' {
            'n'
        } else {
            'r'
        },
    ]);
}

/// A text that was cut is shown as one that was not, with three dots behind it.
pub proof fn cut_text_has_dots(text: &str, whole: String, res: String)
    requires
        call_ensures(preview_text, (text, false), whole),
        call_ensures(preview_text, (text, true), res),
    ensures
        res@ == whole@ + seq!['.', '.', '.'],
{
    reveal_strlit("...");
    assert("..."@ =~= seq!['.', '.', '.']);
}

/// Of a body, the first 256 bytes are shown as a text; the text counts as cut exactly if the body
/// is longer.
pub proof fn bodies_are_shown_up_to_a_length(
    body: &[u8],
    text: &str,
    cut: bool,
    shown: String,
    res: String,
)
    requires
        call_ensures(body_preview, (body,), res),
        body@.len() <= 256 ==> !cut && text@ == utf8_lossy(body@),
        body@.len() > 256 ==> cut && text@ == utf8_lossy(body@.take(256)),
        call_ensures(preview_text, (text, cut), shown),
    ensures
        res@ == shown@,
{
}

/// Of a body in UTF-8, the first 256 bytes are shown as the text that they stand for, if they do
/// not end within a character.
pub proof fn texts_are_shown_up_to_a_length(
    body: &[u8],
    text: &str,
    cut: bool,
    shown: String,
    res: String,
)
    requires
        call_ensures(body_preview, (body,), res),
        body@.len() <= 256 ==> !cut && valid_utf8(body@) && text@ == decode_utf8(body@),
        body@.len() > 256 ==> cut && valid_utf8(body@.take(256)) && text@ == decode_utf8(
            body@.take(256),
        ),
        call_ensures(preview_text, (text, cut), shown),
    ensures
        res@ == shown@,
{
}

/// The body of a refused handshake is shown as any body is, and nothing is shown if there is none.
pub proof fn handshake_bodies_are_shown(body: Option<&[u8]>, shown: String, res: String)
    requires
        call_ensures(websocket_error_body_preview, (body,), res),
        body matches Some(bytes) ==> call_ensures(body_preview, (bytes,), shown),
    ensures
        body is Some ==> res@ == shown@,
        body is None ==> res@.len() == 0,
{
}

/// An error without a cause is shown as it is, and each cause more stands behind a colon and a
/// space.
pub proof fn causes_are_shown_in_turn(
    messages: &Vec<String>,
    longer: &Vec<String>,
    shown: String,
    res: String,
)
    requires
        longer@.len() == messages@.len() + 1,
        forall|i: int| 0 <= i < messages@.len() ==> longer@[i]@ == #[trigger] messages@[i]@,
        call_ensures(format_error_chain, (messages,), shown),
        call_ensures(format_error_chain, (longer,), res),
    ensures
        messages@.len() == 0 ==> shown@.len() == 0 && res@ == longer@[0]@,
        messages@.len() > 0 ==> res@ == shown@ + seq![':', ' '] + longer@.last()@,
{
    assert(texts(messages@).len() == messages@.len());
    assert(texts(longer@).len() == longer@.len());
    assert(texts(longer@).last() == longer@.last()@);
    assert(texts(longer@).drop_last() =~= texts(messages@)) by {
        assert forall|i: int| 0 <= i < messages@.len() implies texts(longer@)[i] == texts(
            messages@,
        )[i] by {
            assert(longer@[i]@ == messages@[i]@);
        }
    }
    reveal_strlit(": ");
    assert(": "@ =~= seq![':', ' ']);
    if messages@.len() == 0 {
        assert(texts(longer@)[0] == longer@[0]@);
    }
}

} // verus!
