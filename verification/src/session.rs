//! The session-level decisions: collecting a turn's answer text, spotting
//! printable output, and waiting on a provider login.
use vstd::prelude::*;
use vstd::string::StringSliceAdditionalSpecFns;
use vstd::utf8::encode_utf8;
use crate::error::{invalid, Error, ErrorView, Result};
use crate::text::{opt_view, str_eq};

verus! {

/// Declares `serde_json::Map` as an opaque type: the extra members of a turn
/// result are carried unchanged.
#[verifier::external_type_specification]
#[verifier::external_body]
#[verifier::reject_recursive_types(K)]
#[verifier::reject_recursive_types(V)]
pub struct ExJsonMap<K, V>(serde_json::Map<K, V>);

/// `<serde_json::Map<String, Value> as Clone>::clone`, which copies every
/// entry: the copy is the same map.
pub assume_specification[ <serde_json::Map<String, serde_json::Value> as Clone>::clone ](
    m: &serde_json::Map<String, serde_json::Value>,
) -> (r: serde_json::Map<String, serde_json::Value>)
    ensures
        r == *m,
;

/// The most assistant text that `ask` collects, in UTF-8 bytes.
pub const MAX_ANSWER: usize = 8388608;

/// How a turn ended, with the rest of the engine's reply.
#[derive(Debug, Clone)]
pub struct TurnResult {
    pub stop_reason: String,
    pub metadata: serde_json::Map<String, serde_json::Value>,
}

/// The collected text of a turn and how it ended.
#[derive(Debug, Clone)]
pub struct Answer {
    pub text: String,
    pub turn: TurnResult,
}

/// What a session update reports, as far as text output goes.
#[derive(Debug, Clone)]
pub struct MessageChunk {
    /// `params.sessionId`, when it is a string.
    pub session_id: Option<String>,
    /// `params.update.sessionUpdate`, when it is a string.
    pub kind: Option<String>,
    /// `params.update.content.text`, when it is a string.
    pub text: Option<String>,
}

pub struct MessageChunkView {
    pub session_id: Option<Seq<char>>,
    pub kind: Option<Seq<char>>,
    pub text: Option<Seq<char>>,
}

impl View for MessageChunk {
    type V = MessageChunkView;

    open spec fn view(&self) -> MessageChunkView {
        MessageChunkView {
            session_id: opt_view(self.session_id),
            kind: opt_view(self.kind),
            text: opt_view(self.text),
        }
    }
}

/// The length of a text in UTF-8 bytes.
pub open spec fn utf8_len(s: Seq<char>) -> nat {
    encode_utf8(s).len()
}

/// The UTF-8 encoding of two texts one after the other is the encoding of
/// the first followed by that of the second.
pub proof fn lemma_encode_concat(a: Seq<char>, b: Seq<char>)
    ensures
        encode_utf8(a + b) == encode_utf8(a) + encode_utf8(b),
    decreases a.len(),
{
    if a.len() == 0 {
        assert(a + b =~= b);
        assert(Seq::<u8>::empty() + encode_utf8(b) =~= encode_utf8(b));
    } else {
        assert((a + b).drop_first() =~= a.drop_first() + b);
        assert((a + b)[0] == a[0]);
        lemma_encode_concat(a.drop_first(), b);
        let h = vstd::utf8::encode_scalar(a[0] as u32);
        assert(h + (encode_utf8(a.drop_first()) + encode_utf8(b)) =~= (h + encode_utf8(a.drop_first())) + encode_utf8(b));
    }
}

/// The text of an update, when it is a chunk of the assistant's message.
pub open spec fn message_text(kind: Option<Seq<char>>, text: Option<Seq<char>>) -> Option<Seq<char>> {
    if kind == Some("agent_message_chunk"@) { text } else { None }
}

/// The text to print for an update: the assistant's message chunks only.
pub fn printable_text(chunk: &MessageChunk) -> (r: Option<&String>)
    ensures
        match r {
            Some(t) => message_text(opt_view(chunk.kind), opt_view(chunk.text)) == Some(t@),
            None => message_text(opt_view(chunk.kind), opt_view(chunk.text)) is None,
        },
{
    match &chunk.kind {
        Some(k) => {
            if str_eq(k.as_str(), "agent_message_chunk") {
                chunk.text.as_ref()
            } else {
                None
            }
        },
        None => None,
    }
}

/// The text that an update adds to the answer of session `session_id`.
pub open spec fn answer_text(session_id: Seq<char>, chunk: MessageChunk) -> Option<Seq<char>> {
    if opt_view(chunk.session_id) == Some(session_id) {
        message_text(opt_view(chunk.kind), opt_view(chunk.text))
    } else {
        None
    }
}

/// Adds an update's assistant text to the answer of session `session_id`.
/// An answer that would grow past [`MAX_ANSWER`] bytes is refused.
pub fn collect_text(text: &mut String, session_id: &str, chunk: &MessageChunk) -> (r: Result<()>)
    ensures
        answer_text(session_id@, *chunk) is None ==> r is Ok && final(text)@ == old(text)@,
        answer_text(session_id@, *chunk) matches Some(c) ==> (utf8_len(old(text)@) + utf8_len(c)
            > MAX_ANSWER ==> (r matches Err(e) && e@ == ErrorView::Invalid(
            "collected answer exceeds 8 MiB; use streaming"@,
        )) && final(text)@ == old(text)@),
        answer_text(session_id@, *chunk) matches Some(c) ==> (utf8_len(old(text)@) + utf8_len(c)
            <= MAX_ANSWER ==> r is Ok && final(text)@ == old(text)@ + c),
{
    let same_session = match &chunk.session_id {
        Some(s) => str_eq(s.as_str(), session_id),
        None => false,
    };
    if !same_session {
        return Ok(());
    }
    let piece = match printable_text(chunk) {
        Some(t) => t,
        None => {
            return Ok(());
        },
    };
    let have = text.as_str().as_bytes().len();
    let more = piece.as_str().as_bytes().len();
    proof {
        assert(have == utf8_len(text@));
        assert(more == utf8_len(piece@));
    }
    if more > MAX_ANSWER || have > MAX_ANSWER - more {
        return Err(invalid("collected answer exceeds 8 MiB; use streaming"));
    }
    text.append(piece.as_str());
    Ok(())
}

/// An answer within the limit stays within it as chunks are collected.
pub proof fn lemma_answer_bounded(before: Seq<char>, chunk: Seq<char>)
    requires
        utf8_len(before) + utf8_len(chunk) <= MAX_ANSWER,
    ensures
        utf8_len(before + chunk) <= MAX_ANSWER,
{
    lemma_encode_concat(before, chunk);
}

/// A login is still preparing its authorization code or URL.
pub fn login_preparing(state: Option<&str>) -> (b: bool)
    ensures
        b == (match state {
            Some(s) => s@ == "preparing"@,
            None => false,
        }),
{
    match state {
        Some(s) => str_eq(s, "preparing"),
        None => false,
    }
}

/// A login job is still running (preparing or polling for approval); a
/// cancelled login has settled once it is not.
pub fn login_running(state: Option<&str>) -> (b: bool)
    ensures
        b == (match state {
            Some(s) => s@ == "preparing"@ || s@ == "polling"@,
            None => false,
        }),
{
    match state {
        Some(s) => str_eq(s, "preparing") || str_eq(s, "polling"),
        None => false,
    }
}

} // verus!
