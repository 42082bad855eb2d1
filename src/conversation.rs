//! Conversation records and the small computations made on them before they
//! are stored: token estimates, titles and previews.
use vstd::prelude::*;
use vstd::utf8::{
    decode_utf8, encode_utf8, encode_utf8_decode_utf8, encode_utf8_valid_utf8, is_char_boundary,
    is_char_boundary_start_end_of_seq, valid_utf8, valid_utf8_split,
};
use vstd::string::{StringExecFns, StringSliceAdditionalSpecFns};
use crate::text::{trim_of, trim_text};

verus! {

/// One message of a conversation; `role` is "user", "assistant" or "system".
#[derive(Clone, Debug, PartialEq, Eq)]
pub struct ConversationMessage {
    pub role: String,
    pub content: String,
    pub timestamp: String,
}

#[derive(Clone, Debug, PartialEq, Eq)]
pub struct Conversation {
    pub id: String,
    pub title: String,
    pub messages: Vec<ConversationMessage>,
    pub model: String,
    pub created_at: String,
    pub updated_at: String,
    pub token_count: i64,
}

/// A conversation as listed: its last message stands as the preview.
#[derive(Clone, Debug, PartialEq, Eq)]
pub struct ConversationPreview {
    pub id: String,
    pub title: String,
    pub preview: String,
    pub model: String,
    pub created_at: String,
    pub updated_at: String,
    pub token_count: i64,
    pub message_count: i64,
}

#[derive(Clone, Debug, PartialEq, Eq)]
pub struct EditorPreferences {
    pub theme: String,
    pub font_size: i64,
    pub auto_save: bool,
}

/// The longest title kept whole, in bytes.
pub const TITLE_MAX_BYTES: usize = 50;

/// The longest preview kept whole, in bytes.
pub const PREVIEW_MAX_BYTES: usize = 100;

/// The estimated number of tokens of a text of `n` bytes: one per four bytes,
/// rounded up.
pub open spec fn token_estimate(n: nat) -> int {
    (n as int + 3) / 4
}

pub open spec fn utf8_len(s: Seq<char>) -> nat {
    encode_utf8(s).len()
}

/// Estimates the number of tokens of a text from its length in bytes.
pub fn estimate_token_count(text: &str) -> (r: i64)
    ensures
        r == token_estimate(utf8_len(text@)),
{
    let n = text.as_bytes().len();
    let q = n / 4;
    let c: usize = if n % 4 == 0 { q } else { q + 1 };
    assert(c as int == (n as int + 3) / 4) by (nonlinear_arith)
        requires
            q == n / 4,
            c == if n % 4 == 0 { q as int } else { q + 1 },
    ;
    c as i64
}

pub open spec fn messages_tokens(msgs: Seq<ConversationMessage>) -> int
    decreases msgs.len(),
{
    if msgs.len() == 0 {
        0
    } else {
        messages_tokens(msgs.drop_last()) + token_estimate(utf8_len(msgs.last().content@))
    }
}

proof fn lemma_messages_tokens_monotonic(msgs: Seq<ConversationMessage>, i: int)
    requires
        0 <= i <= msgs.len(),
    ensures
        0 <= messages_tokens(msgs.subrange(0, i)) <= messages_tokens(msgs),
    decreases msgs.len(),
{
    if msgs.len() > 0 {
        if i < msgs.len() {
            assert(msgs.drop_last().subrange(0, i) =~= msgs.subrange(0, i));
            lemma_messages_tokens_monotonic(msgs.drop_last(), i);
        } else {
            assert(msgs.subrange(0, i) =~= msgs);
            lemma_messages_tokens_monotonic(msgs.drop_last(), i - 1);
            assert(msgs.drop_last().subrange(0, i - 1) =~= msgs.drop_last());
        }
    } else {
        assert(msgs.subrange(0, i) =~= msgs);
    }
}

/// The estimated number of tokens of all messages of a conversation.
pub fn conversation_token_count(msgs: &Vec<ConversationMessage>) -> (r: i64)
    requires
        messages_tokens(msgs@) <= i64::MAX,
    ensures
        r == messages_tokens(msgs@),
{
    let mut total: i64 = 0;
    let mut i: usize = 0;
    while i < msgs.len()
        invariant
            i <= msgs@.len(),
            messages_tokens(msgs@) <= i64::MAX,
            total == messages_tokens(msgs@.subrange(0, i as int)),
        decreases msgs@.len() - i,
    {
        assert(msgs@.subrange(0, i as int + 1).drop_last() =~= msgs@.subrange(0, i as int));
        proof {
            lemma_messages_tokens_monotonic(msgs@, i as int + 1);
        }
        let t = estimate_token_count(msgs[i].content.as_str());
        total = total + t;
        i = i + 1;
    }
    assert(msgs@.subrange(0, msgs@.len() as int) =~= msgs@);
    total
}

/// The largest character boundary of the bytes at or below `k`.
pub open spec fn boundary_at_most(b: Seq<u8>, k: int) -> int
    decreases k,
{
    if k <= 0 {
        0
    } else if is_char_boundary(b, k) {
        k
    } else {
        boundary_at_most(b, k - 1)
    }
}

/// A text cut to at most `max` bytes: kept whole where it fits, else cut at the
/// last character boundary within `max` bytes and followed by "...". Where byte
/// `max` falls inside a character, the cut is made before that character
/// rather than through it, so every text gets a title or preview.
pub open spec fn shortened(t: Seq<char>, max: int) -> Seq<char> {
    let b = encode_utf8(t);
    if b.len() <= max {
        t
    } else {
        decode_utf8(b.subrange(0, boundary_at_most(b, max))) + "..."@
    }
}

/// Cuts a text to at most `max` bytes, as `shortened` says.
pub fn shorten(s: &str, max: usize) -> (r: String)
    ensures
        r@ == shortened(s@, max as int),
{
    let n = s.as_bytes().len();
    if n <= max {
        return s.to_owned();
    }
    let ghost b = encode_utf8(s@);
    let mut k: usize = max;
    proof {
        encode_utf8_valid_utf8(s@);
        is_char_boundary_start_end_of_seq(b);
    }
    while !s.is_char_boundary(k)
        invariant
            b == s.spec_bytes(),
            k <= max < b.len(),
            boundary_at_most(b, max as int) == boundary_at_most(b, k as int),
            valid_utf8(b),
            is_char_boundary(b, 0),
        decreases k,
    {
        k = k - 1;
    }
    let (head, _tail) = s.split_at(k);
    proof {
        encode_utf8_decode_utf8(head@);
        valid_utf8_split(b, k as int);
        assert(head@ == decode_utf8(b.subrange(0, k as int)));
    }
    head.to_owned().concat("...")
}

/// The title of a conversation made from its first message: the message
/// trimmed, and cut to 50 bytes as `shortened` says. A message whose byte 50
/// falls inside a character is cut before that character, on purpose: a cut
/// through it would not be text.
pub fn generate_title(first_message: &str) -> (r: String)
    ensures
        r@ == shortened(trim_of(first_message@), TITLE_MAX_BYTES as int),
{
    let t = trim_text(first_message);
    shorten(t, TITLE_MAX_BYTES)
}

/// The preview of a listed conversation: its last message cut to 100 bytes, or
/// "Empty conversation" where it has none.
pub fn preview_text(last_message: Option<String>) -> (r: String)
    ensures
        last_message is None ==> r@ == "Empty conversation"@,
        last_message matches Some(m) ==> r@ == shortened(m@, PREVIEW_MAX_BYTES as int),
{
    match last_message {
        Some(m) => shorten(m.as_str(), PREVIEW_MAX_BYTES),
        None => "Empty conversation".to_owned(),
    }
}

/// A new, empty conversation with the given id, model and creation time.
pub fn new_conversation(id: String, model: String, now: String) -> (r: Conversation)
    ensures
        r.id@ == id@,
        r.model@ == model@,
        r.created_at@ == now@,
        r.updated_at@ == now@,
        r.title@ == "New Conversation"@,
        r.messages@.len() == 0,
        r.token_count == 0,
{
    Conversation {
        id,
        title: "New Conversation".to_owned(),
        messages: Vec::new(),
        model,
        created_at: now.clone(),
        updated_at: now,
        token_count: 0,
    }
}

/// The preferences used where none were saved.
pub fn default_preferences() -> (r: EditorPreferences)
    ensures
        r.theme@ == "default"@,
        r.font_size == 16,
        r.auto_save,
{
    EditorPreferences { theme: "default".to_owned(), font_size: 16, auto_save: true }
}

} // verus!
