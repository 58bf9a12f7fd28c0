//! Short texts for the log and for error replies.
use vstd::prelude::*;
use vstd::utf8::{decode_utf8, valid_utf8};

use crate::text::{join, joined, texts};

verus! {

/// How many bytes of a body are shown.
pub const MAX_PREVIEW_BYTES: usize = 256;

/// The text that `String::from_utf8_lossy` makes of bytes.
pub uninterp spec fn utf8_lossy(bytes: Seq<u8>) -> Seq<char>;

/// `String::from_utf8_lossy`: valid UTF-8 is decoded as it is; what comes of other bytes is left to
/// the name.
#[verifier::external_body]
pub(crate) fn from_utf8_lossy(bytes: &[u8]) -> (res: String)
    ensures
        res@ == utf8_lossy(bytes@),
        valid_utf8(bytes@) ==> res@ == decode_utf8(bytes@),
{
    String::from_utf8_lossy(bytes).into_owned()
}

/// A character as it is shown on one line.
pub open spec fn on_one_line(c: char) -> Seq<char> {
    if c == '\n' {
        seq!['\\', 'n']
    } else if c == '\r' {
        seq!['\\', 'r']
    } else {
        seq![c]
    }
}

/// A text as it is shown on one line.
pub open spec fn one_line(text: Seq<char>) -> Seq<char>
    decreases text.len(),
{
    if text.len() == 0 {
        Seq::empty()
    } else {
        one_line(text.drop_last()) + on_one_line(text.last())
    }
}

/// What is shown of a text of which more may follow.
pub open spec fn preview(text: Seq<char>, cut: bool) -> Seq<char> {
    if cut {
        one_line(text) + "..."@
    } else {
        one_line(text)
    }
}

/// The bytes of a body that are shown.
pub open spec fn shown(body: Seq<u8>) -> Seq<u8> {
    if body.len() > MAX_PREVIEW_BYTES {
        body.take(MAX_PREVIEW_BYTES as int)
    } else {
        body
    }
}

/// What is shown of a text: one line, with dots behind it if it was `cut`.
pub fn preview_text(text: &str, cut: bool) -> (res: String)
    ensures
        res@ == preview(text@, cut),
{
    let chars = crate::text::chars_of(text);
    let mut res = String::new();
    let mut i: usize = 0;
    assert(chars@.take(0) =~= Seq::<char>::empty());
    while i < chars.len()
        invariant
            i <= chars@.len(),
            res@ == one_line(chars@.take(i as int)),
        decreases chars@.len() - i,
    {
        let c = chars[i];
        let ghost so_far = res@;
        assert(chars@.take(i + 1).drop_last() =~= chars@.take(i as int));
        if c == '\n' {
            res.push('\\');
            res.push('n');
        } else if c == '\r' {
            res.push('\\');
            res.push('r');
        } else {
            res.push(c);
        }
        assert(res@ =~= so_far + on_one_line(c));
        i = i + 1;
    }
    assert(chars@.take(chars@.len() as int) =~= chars@);
    if cut {
        res.append("...");
    }
    res
}

/// What is shown of a body: at most its first 256 bytes.
pub fn body_preview(body: &[u8]) -> (res: String)
    ensures
        res@ == preview(utf8_lossy(shown(body@)), body@.len() > MAX_PREVIEW_BYTES),
        valid_utf8(shown(body@)) ==> res@ == preview(
            decode_utf8(shown(body@)),
            body@.len() > MAX_PREVIEW_BYTES,
        ),
{
    if body.len() > MAX_PREVIEW_BYTES {
        let start = vstd::slice::slice_subrange(body, 0, MAX_PREVIEW_BYTES);
        assert(start@ =~= shown(body@));
        let text = from_utf8_lossy(start);
        preview_text(text.as_str(), true)
    } else {
        let text = from_utf8_lossy(body);
        preview_text(text.as_str(), false)
    }
}

/// What is shown of the body of a refused WebSocket handshake; nothing if there is none.
pub fn websocket_error_body_preview(body: Option<&[u8]>) -> (res: String)
    ensures
        match body {
            Some(body) => {
                &&& res@ == preview(utf8_lossy(shown(body@)), body@.len() > MAX_PREVIEW_BYTES)
                &&& valid_utf8(shown(body@)) ==> res@ == preview(
                    decode_utf8(shown(body@)),
                    body@.len() > MAX_PREVIEW_BYTES,
                )
            },
            None => res@ == Seq::<char>::empty(),
        },
{
    match body {
        Some(body) => body_preview(body),
        None => String::new(),
    }
}

/// An error and its causes, the outermost first, as one text.
pub fn format_error_chain(messages: &Vec<String>) -> (res: String)
    ensures
        res@ == joined(texts(messages@), ": "@),
{
    join(messages, ": ")
}

/// A preview is one line: it holds no line break, whatever the text held.
pub proof fn preview_is_one_line(text: Seq<char>, cut: bool)
    ensures
        forall|i: int|
            0 <= i < preview(text, cut).len() ==> #[trigger] preview(text, cut)[i] != '\n' && preview(
                text,
                cut,
            )[i] != '\r',
{
    reveal_strlit("...");
    lemma_one_line(text);
}

proof fn lemma_one_line(text: Seq<char>)
    ensures
        forall|i: int|
            0 <= i < one_line(text).len() ==> #[trigger] one_line(text)[i] != '\n' && one_line(
                text,
            )[i] != '\r',
    decreases text.len(),
{
    if text.len() > 0 {
        let before = one_line(text.drop_last());
        lemma_one_line(text.drop_last());
        assert forall|i: int| 0 <= i < one_line(text).len() implies #[trigger] one_line(text)[i]
            != '\n' && one_line(text)[i] != '\r' by {
            if i < before.len() {
                assert(one_line(text)[i] == before[i]);
            } else {
                assert(one_line(text)[i] == on_one_line(text.last())[i - before.len()]);
            }
        }
    }
}

} // verus!
