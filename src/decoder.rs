//! The stream decoder: one chunk of newline-delimited JSON to a list of events.
use vstd::prelude::*;
use vstd::std_specs::iter::IteratorSpec;
use vstd::utf8::{decode_utf8, valid_utf8};
use crate::json::{
    bool_member, json_accepts, json_bool_member, json_str_member, json_u64_items, parse_json,
    str_member, u64_items,
};
use crate::text::{lemma_pieces_nonempty, pieces, push_char, trim_of, trim_text, utf8_text};

verus! {

/// What one line of the generation stream carries.
#[derive(Clone, Debug, PartialEq, Eq)]
pub enum DecodedEvent {
    /// A piece of generated text (the line's `response` string).
    Token(String),
    /// A new generation context (the line's `context` array as bytes).
    ContextUpdate(Vec<u8>),
    /// The server reports the generation finished (`done` is `true`).
    Complete,
    /// The line is not JSON; kept for diagnostics only.
    Unparseable(String),
}

/// The mathematical value of a `DecodedEvent`.
pub enum EventView {
    Token(Seq<char>),
    ContextUpdate(Seq<u8>),
    Complete,
    Unparseable(Seq<char>),
}

impl View for DecodedEvent {
    type V = EventView;

    open spec fn view(&self) -> EventView {
        match self {
            DecodedEvent::Token(s) => EventView::Token(s@),
            DecodedEvent::ContextUpdate(b) => EventView::ContextUpdate(b@),
            DecodedEvent::Complete => EventView::Complete,
            DecodedEvent::Unparseable(s) => EventView::Unparseable(s@),
        }
    }
}

pub open spec fn events_view(v: Seq<DecodedEvent>) -> Seq<EventView> {
    v.map_values(|e: DecodedEvent| e@)
}

/// The bytes of a context array: the items that are unsigned integers, in order,
/// each reduced to its low eight bits.
pub open spec fn context_bytes(items: Seq<Option<u64>>) -> Seq<u8>
    decreases items.len(),
{
    if items.len() == 0 {
        seq![]
    } else {
        let init = context_bytes(items.drop_last());
        match items.last() {
            Some(n) => init.push((n % 256) as u8),
            None => init,
        }
    }
}

pub open spec fn token_part(r: Option<Seq<char>>) -> Seq<EventView> {
    match r {
        Some(t) => seq![EventView::Token(t)],
        None => seq![],
    }
}

pub open spec fn context_part(c: Option<Seq<Option<u64>>>) -> Seq<EventView> {
    match c {
        Some(items) => seq![EventView::ContextUpdate(context_bytes(items))],
        None => seq![],
    }
}

pub open spec fn done_part(d: Option<bool>) -> Seq<EventView> {
    if d == Some(true) {
        seq![EventView::Complete]
    } else {
        seq![]
    }
}

/// The events of one trimmed, non-empty line: `Unparseable` where it is not JSON;
/// otherwise a token for a `response` string, a context update for a `context`
/// array and a completion for `done: true`, in that order, each independently.
pub open spec fn line_events(line: Seq<char>) -> Seq<EventView> {
    if !json_accepts(line) {
        seq![EventView::Unparseable(line)]
    } else {
        token_part(json_str_member(line, "response"@)) + context_part(
            json_u64_items(line, "context"@),
        ) + done_part(json_bool_member(line, "done"@))
    }
}

/// The events of one piece of text between newlines: none where it is blank.
pub open spec fn piece_events(p: Seq<char>) -> Seq<EventView> {
    if p.len() == 0 || trim_of(p).len() == 0 {
        seq![]
    } else {
        line_events(trim_of(p))
    }
}

pub open spec fn lines_events(ls: Seq<Seq<char>>) -> Seq<EventView>
    decreases ls.len(),
{
    if ls.len() == 0 {
        seq![]
    } else {
        lines_events(ls.drop_last()) + piece_events(ls.last())
    }
}

/// The events of a text: those of its lines, in order.
pub open spec fn text_events(s: Seq<char>) -> Seq<EventView> {
    lines_events(pieces(s))
}

/// The events of a chunk of bytes: none where the chunk is not valid UTF-8.
pub open spec fn chunk_events(b: Seq<u8>) -> Seq<EventView> {
    if valid_utf8(b) {
        text_events(decode_utf8(b))
    } else {
        seq![]
    }
}

proof fn lemma_events_view_concat(a: Seq<DecodedEvent>, b: Seq<DecodedEvent>)
    ensures
        events_view(a + b) == events_view(a) + events_view(b),
{
    assert(events_view(a + b) =~= events_view(a) + events_view(b));
}

/// The context bytes of an array: unsigned integer items kept, reduced modulo 256.
pub fn context_bytes_of(items: &Vec<Option<u64>>) -> (r: Vec<u8>)
    ensures
        r@ == context_bytes(items@),
{
    let mut out: Vec<u8> = Vec::new();
    let mut i: usize = 0;
    while i < items.len()
        invariant
            i <= items@.len(),
            out@ == context_bytes(items@.subrange(0, i as int)),
        decreases items@.len() - i,
    {
        assert(items@.subrange(0, i as int + 1).drop_last() =~= items@.subrange(0, i as int));
        match items[i] {
            Some(n) => {
                out.push((n % 256) as u8);
            },
            None => {},
        }
        i = i + 1;
    }
    assert(items@.subrange(0, items@.len() as int) =~= items@);
    out
}

/// Decodes one trimmed, non-empty line of the stream.
pub fn decode_line(line: &str) -> (r: Vec<DecodedEvent>)
    ensures
        events_view(r@) == line_events(line@),
{
    let mut out: Vec<DecodedEvent> = Vec::new();
    match parse_json(line) {
        None => {
            out.push(DecodedEvent::Unparseable(line.to_owned()));
            assert(events_view(out@) =~= line_events(line@));
        },
        Some(doc) => {
            let tok = str_member(&doc, "response");
            let ctx = u64_items(&doc, "context");
            let done = bool_member(&doc, "done");
            match tok {
                Some(t) => out.push(DecodedEvent::Token(t)),
                None => {},
            }
            let ghost after_tok = events_view(out@);
            match ctx {
                Some(items) => out.push(DecodedEvent::ContextUpdate(context_bytes_of(&items))),
                None => {},
            }
            let ghost after_ctx = events_view(out@);
            if done == Some(true) {
                out.push(DecodedEvent::Complete);
            }
            assert(after_tok =~= token_part(json_str_member(line@, "response"@)));
            assert(after_ctx =~= after_tok + context_part(json_u64_items(line@, "context"@)));
            assert(events_view(out@) =~= after_ctx + done_part(json_bool_member(line@, "done"@)));
        },
    }
    out
}

/// Appends the events of one piece of text between newlines.
fn decode_piece(p: &str, out: &mut Vec<DecodedEvent>)
    ensures
        events_view(final(out)@) == events_view(old(out)@) + piece_events(p@),
{
    if p.is_empty() {
        assert(events_view(out@) =~= events_view(out@) + piece_events(p@));
        return;
    }
    let t = trim_text(p);
    if t.is_empty() {
        assert(events_view(out@) =~= events_view(out@) + piece_events(p@));
    } else {
        let mut evs = decode_line(t);
        proof {
            lemma_events_view_concat(out@, evs@);
        }
        out.append(&mut evs);
    }
}

/// Decodes a text: its lines are split on newlines, trimmed, blank ones skipped,
/// and each of the others decoded in order.
pub fn decode_text(s: &str) -> (r: Vec<DecodedEvent>)
    ensures
        events_view(r@) == text_events(s@),
{
    let mut out: Vec<DecodedEvent> = Vec::new();
    let mut cur = String::new();
    let mut chars = s.chars();
    let ghost mut k: int = 0;
    proof {
        assert(s@.subrange(0, 0) =~= Seq::<char>::empty());
        assert(s@.skip(0) =~= s@);
    }
    loop
        invariant
            0 <= k <= s@.len(),
            chars.remaining() == s@.skip(k),
            chars.obeys_prophetic_iter_laws(),
            pieces(s@.subrange(0, k)).len() >= 1,
            pieces(s@.subrange(0, k)).last() == cur@,
            events_view(out@) == lines_events(pieces(s@.subrange(0, k)).drop_last()),
        decreases s@.len() - k,
    {
        let ghost before = pieces(s@.subrange(0, k));
        match chars.next() {
            None => {
                decode_piece(cur.as_str(), &mut out);
                proof {
                    assert(s@.skip(k).len() == 0);
                    assert(s@.subrange(0, k) =~= s@);
                    assert(before.drop_last().push(before.last()) =~= before);
                }
                return out;
            },
            Some(c) => {
                proof {
                    assert(s@.skip(k)[0] == s@[k]);
                    assert(s@.skip(k).drop_first() =~= s@.skip(k + 1));
                    assert(s@.subrange(0, k + 1).drop_last() =~= s@.subrange(0, k));
                    assert(s@.subrange(0, k + 1).last() == c);
                }
                if c == '\n' {
                    decode_piece(cur.as_str(), &mut out);
                    cur = String::new();
                    proof {
                        let after = pieces(s@.subrange(0, k + 1));
                        assert(after == before.push(Seq::<char>::empty()));
                        assert(after.drop_last() =~= before);
                        assert(before.drop_last().push(before.last()) =~= before);
                    }
                } else {
                    push_char(&mut cur, c);
                    proof {
                        let after = pieces(s@.subrange(0, k + 1));
                        assert(after == before.update(before.len() - 1, before.last().push(c)));
                        assert(after.drop_last() =~= before.drop_last());
                    }
                }
                proof {
                    k = k + 1;
                }
            },
        }
    }
}

/// A line that is JSON but carries no `response` string, no `context` array
/// and no `done: true` yields no event, and is no error.
pub proof fn lemma_line_without_signals(line: Seq<char>)
    requires
        json_accepts(line),
        json_str_member(line, "response"@) is None,
        json_u64_items(line, "context"@) is None,
        json_bool_member(line, "done"@) != Some(true),
    ensures
        line_events(line) == Seq::<EventView>::empty(),
{
    assert(line_events(line) =~= Seq::<EventView>::empty());
}

pub open spec fn no_newline(l: Seq<char>) -> bool {
    forall|j: int| 0 <= j < l.len() ==> l[j] != '\n'
}

/// The text of complete lines: each line followed by a newline.
pub open spec fn complete_lines(ls: Seq<Seq<char>>) -> Seq<char>
    decreases ls.len(),
{
    if ls.len() == 0 {
        Seq::<char>::empty()
    } else {
        complete_lines(ls.drop_last()) + ls.last() + seq!['\n']
    }
}

proof fn lemma_pieces_append_plain(x: Seq<char>, l: Seq<char>)
    requires
        no_newline(l),
    ensures
        pieces(x + l) == pieces(x).update(pieces(x).len() - 1, pieces(x).last() + l),
    decreases l.len(),
{
    lemma_pieces_nonempty(x);
    if l.len() == 0 {
        assert(x + l =~= x);
        assert(pieces(x).last() + l =~= pieces(x).last());
        assert(pieces(x).update(pieces(x).len() - 1, pieces(x).last()) =~= pieces(x));
    } else {
        let l0 = l.drop_last();
        lemma_pieces_append_plain(x, l0);
        assert((x + l).drop_last() =~= x + l0);
        assert((x + l).last() == l.last());
        assert((pieces(x).last() + l0).push(l.last()) =~= pieces(x).last() + l);
        let p0 = pieces(x + l0);
        assert(p0.len() == pieces(x).len());
        assert(p0.last() == pieces(x).last() + l0);
        assert(p0.update(p0.len() - 1, p0.last().push(l.last())) =~= pieces(x).update(
            pieces(x).len() - 1,
            pieces(x).last() + l,
        ));
    }
}

proof fn lemma_pieces_complete_lines(ls: Seq<Seq<char>>)
    requires
        forall|i: int| 0 <= i < ls.len() ==> no_newline(#[trigger] ls[i]),
    ensures
        pieces(complete_lines(ls)) == ls.push(Seq::<char>::empty()),
    decreases ls.len(),
{
    if ls.len() == 0 {
        assert(pieces(Seq::<char>::empty()) =~= ls.push(Seq::<char>::empty()));
    } else {
        let init = ls.drop_last();
        assert forall|i: int| 0 <= i < init.len() implies no_newline(#[trigger] init[i]) by {
            assert(init[i] == ls[i]);
        }
        lemma_pieces_complete_lines(init);
        let c = complete_lines(init);
        assert(no_newline(ls[ls.len() - 1]));
        lemma_pieces_append_plain(c, ls.last());
        let t = complete_lines(ls);
        assert(t.drop_last() =~= c + ls.last());
        assert(Seq::<char>::empty() + ls.last() =~= ls.last());
        assert(pieces(c + ls.last()) =~= ls);
    }
}

/// A chunk of complete lines yields exactly the events of each line, taken
/// independently and in order: no line's events depend on another line.
pub proof fn lemma_complete_lines_events(ls: Seq<Seq<char>>)
    requires
        forall|i: int| 0 <= i < ls.len() ==> no_newline(#[trigger] ls[i]),
    ensures
        text_events(complete_lines(ls)) == lines_events(ls),
{
    lemma_pieces_complete_lines(ls);
    let ps = ls.push(Seq::<char>::empty());
    assert(ps.drop_last() =~= ls);
    assert(lines_events(ps) =~= lines_events(ls));
}

/// Decodes one chunk of the byte stream. A chunk that is not valid UTF-8 is
/// dropped whole and yields no event; no state is carried between chunks.
pub fn decode_chunk(chunk: &[u8]) -> (r: Vec<DecodedEvent>)
    ensures
        events_view(r@) == chunk_events(chunk@),
{
    match utf8_text(chunk) {
        Some(s) => decode_text(s),
        None => Vec::new(),
    }
}

} // verus!
