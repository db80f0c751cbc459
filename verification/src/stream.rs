//! Decoding of the engine's streamed answers (server-sent events): bytes
//! arrive in chunks, complete lines are cut off the buffer, `data:` lines
//! carry JSON deltas, and a newer generation cancels an older stream.
use vstd::prelude::*;
use crate::json::{json_text_str, json_text_str_at, CHOICES, CONTENT};
use crate::text::{
    chars_eq, chars_of, occurs_at, occurs_at_chars, slice_chars, string_of, trim, trim_chars,
    views, CharClass,
};

verus! {

/// What `String::from_utf8_lossy` makes of `bytes`: the text, with
/// U+FFFD in place of each invalid sequence.
pub uninterp spec fn utf8_lossy(bytes: Seq<u8>) -> Seq<char>;

/// `String::from_utf8_lossy`. Valid UTF-8 comes back as the text it
/// encodes (the function borrows it unchanged); for other input the
/// contract only names the result.
#[verifier::external_body]
pub(crate) fn decode_lossy(bytes: &[u8]) -> (r: String)
    ensures
        r@ == utf8_lossy(bytes@),
        vstd::utf8::valid_utf8(bytes@) ==> r@ == vstd::utf8::decode_utf8(bytes@),
{
    String::from_utf8_lossy(bytes).to_string()
}

/// The complete lines of `s` (each without its `\n`) and what follows the
/// last `\n`.
pub open spec fn newline_split(s: Seq<char>) -> (Seq<Seq<char>>, Seq<char>)
    decreases s.len(),
{
    if s.len() == 0 {
        (seq![], seq![])
    } else {
        let st = newline_split(s.drop_last());
        if s.last() == '\n' {
            (st.0.push(st.1), seq![])
        } else {
            (st.0, st.1.push(s.last()))
        }
    }
}

pub const DATA_PREFIX: &'static str = "data:";

pub const DONE_MARK: &'static str = "[DONE]";

/// The payload of an event line: what follows `data:` in the trimmed line,
/// trimmed, unless it is empty or `[DONE]`.
pub open spec fn payload_spec(line: Seq<char>) -> Option<Seq<char>> {
    let t = trim(line);
    if occurs_at(t, DATA_PREFIX@, 0) {
        let d = trim(t.subrange(DATA_PREFIX@.len() as int, t.len() as int));
        if d == DONE_MARK@ || d.len() == 0 {
            None
        } else {
            Some(d)
        }
    } else {
        None
    }
}

/// The payloads of the lines `ls`, in order.
pub open spec fn payloads_of(ls: Seq<Seq<char>>) -> Seq<Seq<char>>
    decreases ls.len(),
{
    if ls.len() == 0 {
        seq![]
    } else {
        let r = payloads_of(ls.drop_last());
        match payload_spec(ls.last()) {
            Some(d) => r.push(d),
            None => r,
        }
    }
}

fn payload(line: &Vec<char>) -> (r: Option<Vec<char>>)
    ensures
        match r {
            Some(d) => payload_spec(line@) == Some(d@),
            None => payload_spec(line@) is None,
        },
{
    let t = trim_chars(line, CharClass::Whitespace);
    let prefix = chars_of(DATA_PREFIX);
    if !occurs_at_chars(&t, &prefix, 0) {
        return None;
    }
    let rest = slice_chars(&t, prefix.len(), t.len());
    let d = trim_chars(&rest, CharClass::Whitespace);
    if d.len() == 0 || chars_eq(&d, &chars_of(DONE_MARK)) {
        return None;
    }
    Some(d)
}

/// A stream that belongs to one generation, with the unfinished line of
/// what arrived so far.
pub struct SseStream {
    pub generation: u64,
    pub pending: Vec<char>,
}

impl SseStream {
    pub fn new(generation: u64) -> (s: SseStream)
        ensures
            s.generation == generation,
            s.pending@.len() == 0,
    {
        SseStream { generation, pending: Vec::new() }
    }

    /// Adds text to the stream and hands back the payloads of the lines it
    /// completes.
    pub fn feed_text(&mut self, text: &str) -> (r: Vec<String>)
        ensures
            final(self).generation == old(self).generation,
            ({
                let st = newline_split(old(self).pending@ + text@);
                &&& crate::reply::string_views(r@) == payloads_of(st.0)
                &&& final(self).pending@ == st.1
            }),
    {
        let mut all = slice_chars(&self.pending, 0, self.pending.len());
        let t = chars_of(text);
        crate::text::extend_chars(&mut all, &t);
        assert(self.pending@.subrange(0, self.pending@.len() as int) =~= self.pending@);
        let mut out: Vec<String> = Vec::new();
        let mut done: Vec<Vec<char>> = Vec::new();
        let mut cur: Vec<char> = Vec::new();
        let mut i: usize = 0;
        while i < all.len()
            invariant
                i <= all.len(),
                (views(done@), cur@) == newline_split(all@.take(i as int)),
                crate::reply::string_views(out@) == payloads_of(views(done@)),
            decreases all.len() - i,
        {
            assert(all@.take(i + 1).drop_last() =~= all@.take(i as int));
            assert(all@.take(i + 1).last() == all@[i as int]);
            if all[i] == '\n' {
                let ghost before = views(done@);
                let ghost before_out = crate::reply::string_views(out@);
                let p = payload(&cur);
                match p {
                    Some(d) => {
                        let s = string_of(&d);
                        out.push(s);
                        assert(crate::reply::string_views(out@) =~= before_out.push(d@));
                    },
                    None => {},
                }
                let line = cur;
                done.push(line);
                cur = Vec::new();
                assert(views(done@) =~= before.push(line@));
                assert(views(done@).drop_last() =~= before);
            } else {
                cur.push(all[i]);
            }
            i = i + 1;
        }
        assert(all@.take(all.len() as int) =~= all@);
        self.pending = cur;
        out
    }

    /// Takes the next chunk of bytes: `None`, with nothing changed, when a
    /// newer generation has started; otherwise the payloads of the lines
    /// that the chunk completes.
    pub fn feed(&mut self, current_generation: u64, chunk: &[u8]) -> (r: Option<Vec<String>>)
        ensures
            final(self).generation == old(self).generation,
            current_generation != old(self).generation ==> r is None && final(self).pending@
                == old(self).pending@,
            current_generation == old(self).generation ==> r is Some && ({
                let st = newline_split(old(self).pending@ + utf8_lossy(chunk@));
                &&& crate::reply::string_views(r->0@) == payloads_of(st.0)
                &&& final(self).pending@ == st.1
            }),
    {
        if current_generation != self.generation {
            return None;
        }
        let text = decode_lossy(chunk);
        Some(self.feed_text(text.as_str()))
    }
}

/// Splitting the text of a stream anywhere between two feeds changes
/// neither the lines it completes nor what stays pending.
pub proof fn lemma_newline_split_concat(a: Seq<char>, b: Seq<char>)
    ensures
        newline_split(a + b).0 == newline_split(a).0 + newline_split(newline_split(a).1 + b).0,
        newline_split(a + b).1 == newline_split(newline_split(a).1 + b).1,
    decreases b.len(),
{
    let r = newline_split(a).1;
    if b.len() == 0 {
        assert(a + b =~= a);
        assert(r + b =~= r);
        lemma_pending_no_newline(a);
        lemma_split_of_unfinished(r);
        assert(newline_split(a).0 + seq![] =~= newline_split(a).0);
    } else {
        let b2 = b.drop_last();
        lemma_newline_split_concat(a, b2);
        assert((a + b).drop_last() =~= a + b2);
        assert((r + b).drop_last() =~= r + b2);
        assert((a + b).last() == b.last());
        assert((r + b).last() == b.last());
        let x = newline_split(a).0;
        let y = newline_split(r + b2).0;
        if b.last() == '\n' {
            assert((x + y).push(newline_split(r + b2).1) =~= x + y.push(
                newline_split(r + b2).1,
            ));
        }
    }
}

/// What stays pending holds no newline.
pub proof fn lemma_pending_no_newline(s: Seq<char>)
    ensures
        !newline_split(s).1.contains('\n'),
    decreases s.len(),
{
    if s.len() > 0 {
        lemma_pending_no_newline(s.drop_last());
        let p = newline_split(s.drop_last()).1;
        if s.last() != '\n' {
            assert forall|i: int| 0 <= i < p.push(s.last()).len() implies p.push(s.last())[i]
                != '\n' by {
                if i < p.len() {
                    assert(p.push(s.last())[i] == p[i]);
                }
            }
        }
    }
}

/// A text without newline completes no line and stays pending whole.
pub proof fn lemma_split_of_unfinished(s: Seq<char>)
    requires
        !s.contains('\n'),
    ensures
        newline_split(s).0.len() == 0,
        newline_split(s).1 == s,
    decreases s.len(),
{
    if s.len() > 0 {
        assert(!s.drop_last().contains('\n')) by {
            if s.drop_last().contains('\n') {
                let i = choose|i: int| 0 <= i < s.drop_last().len() && s.drop_last()[i] == '\n';
                assert(s[i] == '\n');
            }
        }
        lemma_split_of_unfinished(s.drop_last());
        assert(s.last() != '\n') by {
            assert(s[s.len() - 1] == s.last());
        }
        assert(s.drop_last().push(s.last()) =~= s);
    }
}

/// The payloads of two runs of lines are those of each run, in order.
pub proof fn lemma_payloads_concat(x: Seq<Seq<char>>, y: Seq<Seq<char>>)
    ensures
        payloads_of(x + y) == payloads_of(x) + payloads_of(y),
    decreases y.len(),
{
    if y.len() == 0 {
        assert(x + y =~= x);
        assert(payloads_of(x) + seq![] =~= payloads_of(x));
    } else {
        lemma_payloads_concat(x, y.drop_last());
        assert((x + y).drop_last() =~= x + y.drop_last());
        assert((x + y).last() == y.last());
        match payload_spec(y.last()) {
            Some(d) => {
                assert((payloads_of(x) + payloads_of(y.drop_last())).push(d) =~= payloads_of(x)
                    + payloads_of(y.drop_last()).push(d));
            },
            None => {},
        }
    }
}

/// Feeding a stream two pieces of text one after the other hands out the
/// same payloads, and leaves the same pending line, as feeding their
/// concatenation at once.
pub proof fn lemma_feed_text_split(pending: Seq<char>, x: Seq<char>, y: Seq<char>)
    ensures
        ({
            let first = newline_split(pending + x);
            let second = newline_split(first.1 + y);
            let whole = newline_split(pending + (x + y));
            &&& payloads_of(whole.0) == payloads_of(first.0) + payloads_of(second.0)
            &&& whole.1 == second.1
        }),
{
    assert(pending + (x + y) =~= (pending + x) + y);
    lemma_newline_split_concat(pending + x, y);
    lemma_payloads_concat(newline_split(pending + x).0, newline_split(newline_split(pending + x).1 + y).0);
}

/// The part of a streamed choice that carries the new text.
pub const DELTA: &'static str = "delta";

/// The field of a delta that carries the model's reasoning.
pub const REASONING: &'static str = "reasoning_content";

/// The text that a payload carries at `choices[0].delta[key]`, when it is
/// a non-empty string.
pub open spec fn delta_text(payload: Seq<char>, key: Seq<char>) -> Option<Seq<char>> {
    match json_text_str(payload, CHOICES@, 0, DELTA@, key) {
        Some(Some(t)) => if t.len() > 0 {
            Some(t)
        } else {
            None
        },
        _ => None,
    }
}

fn delta_at(payload: &str, key: &str) -> (r: Option<String>)
    ensures
        match r {
            Some(t) => delta_text(payload@, key@) == Some(t@),
            None => delta_text(payload@, key@) is None,
        },
{
    let j = json_text_str_at(payload, CHOICES, 0, DELTA, key);
    match j {
        Some(Some(t)) => {
            if !t.as_str().is_empty() {
                Some(t)
            } else {
                None
            }
        },
        _ => None,
    }
}

/// The reply text that a payload of a streamed variants answer carries.
pub fn variant_token(payload: &str) -> (r: Option<String>)
    ensures
        match r {
            Some(t) => delta_text(payload@, CONTENT@) == Some(t@),
            None => delta_text(payload@, CONTENT@) is None,
        },
{
    delta_at(payload, CONTENT)
}

/// What a chat token is: the model's reasoning or its answer.
#[derive(Clone, Copy, Debug, PartialEq, Eq)]
pub enum TokenKind {
    Reasoning,
    Content,
}

/// A piece of a streamed chat answer.
#[derive(Clone, Debug)]
pub struct ChatToken {
    pub kind: TokenKind,
    pub text: String,
}

pub open spec fn token_views(v: Seq<ChatToken>) -> Seq<(TokenKind, Seq<char>)> {
    v.map_values(|t: ChatToken| (t.kind, t.text@))
}

/// The tokens of a chat payload: its reasoning, then its answer, each when
/// present and not empty.
pub open spec fn chat_tokens_spec(payload: Seq<char>) -> Seq<(TokenKind, Seq<char>)> {
    let r: Seq<(TokenKind, Seq<char>)> = match delta_text(payload, REASONING@) {
        Some(t) => seq![(TokenKind::Reasoning, t)],
        None => seq![],
    };
    match delta_text(payload, CONTENT@) {
        Some(t) => r.push((TokenKind::Content, t)),
        None => r,
    }
}

/// The tokens that a payload of a streamed chat answer carries.
pub fn chat_tokens(payload: &str) -> (r: Vec<ChatToken>)
    ensures
        token_views(r@) == chat_tokens_spec(payload@),
{
    let mut r: Vec<ChatToken> = Vec::new();
    match delta_at(payload, REASONING) {
        Some(t) => {
            r.push(ChatToken { kind: TokenKind::Reasoning, text: t });
        },
        None => {},
    }
    let ghost before = token_views(r@);
    match delta_at(payload, CONTENT) {
        Some(t) => {
            let ghost tv = t@;
            r.push(ChatToken { kind: TokenKind::Content, text: t });
            assert(token_views(r@) =~= before.push((TokenKind::Content, tv)));
        },
        None => {},
    }
    assert(token_views(r@) =~= chat_tokens_spec(payload@));
    r
}

/// Every text that a streamed delta carries is handed on whole, whitespace
/// included (a lone newline between two numbered variants is a token too);
/// nothing is handed on only when the delta carries no text or an empty
/// one. For a chat delta, the reasoning comes first and the answer after.
pub proof fn lemma_tokens_keep_every_text(payload: Seq<char>, key: Seq<char>)
    ensures
        forall|t: Seq<char>|
            json_text_str(payload, CHOICES@, 0, DELTA@, key) == Some(Some(t)) && t.len() > 0
                ==> delta_text(payload, key) == Some(t),
        (forall|t: Seq<char>|
            json_text_str(payload, CHOICES@, 0, DELTA@, key) == Some(Some(t)) ==> t.len() == 0)
            ==> delta_text(payload, key) is None,
        forall|r: Seq<char>, c: Seq<char>|
            json_text_str(payload, CHOICES@, 0, DELTA@, REASONING@) == Some(Some(r)) && r.len() > 0
                && json_text_str(payload, CHOICES@, 0, DELTA@, CONTENT@) == Some(Some(c)) && c.len()
                > 0 ==> chat_tokens_spec(payload) == seq![
                (TokenKind::Reasoning, r),
                (TokenKind::Content, c),
            ],
        forall|c: Seq<char>|
            json_text_str(payload, CHOICES@, 0, DELTA@, CONTENT@) == Some(Some(c)) && c.len() > 0
                ==> chat_tokens_spec(payload).len() > 0 && chat_tokens_spec(payload).last() == (
                TokenKind::Content,
                c,
            ),
{
}

} // verus!
