//! Reply drafting: the built-in styles, the system prompt that asks the
//! model for three reply variants, and the parsing of the model's answer
//! into those variants.
use vstd::prelude::*;
use crate::errors::{DECODE_ERROR, EMPTY, ENGINE_PREFIX};
use crate::json::{json_bytes_str, json_bytes_str_at, opt_opt_view, CHOICES, CONTENT};
use crate::text::{
    chars_of, contains, extend_chars, has_non_ws, is_digit, is_digit_char, last_occurrence,
    in_class, is_quote, is_ws, lemma_last_occurrence, lemma_trim_in, lemma_trim_of_trimmed, lines_state, strip_cr, trim_end_in, trim_start_in, lemma_trim_start_suffix, lines, lines_of, occurs_at, rfind_chars, slice_chars,
    string_of, trim, trim_chars, trim_in, trim_start, trim_start_chars, trimmed_in, views,
    CharClass,
};

verus! {

pub const THINK_CLOSE: &'static str = "</think>";

/// The answer after the model's last `</think>`, without the whitespace
/// that follows it; the whole answer when there is no `</think>`.
pub open spec fn strip_think_spec(content: Seq<char>) -> Seq<char> {
    match last_occurrence(content, THINK_CLOSE@) {
        Some(i) => trim_start(content.subrange(i + THINK_CLOSE@.len(), content.len() as int)),
        None => content,
    }
}

/// A variant without surrounding whitespace and quotes:
/// `s.trim().trim_matches(quotes).trim()`.
pub open spec fn clean_spec(s: Seq<char>) -> Seq<char> {
    trim(trim_in(trim(s), CharClass::Quote))
}

fn strip_think_chars(v: &Vec<char>) -> (r: Vec<char>)
    ensures
        r@ == strip_think_spec(v@),
{
    let tag = chars_of(THINK_CLOSE);
    let found = rfind_chars(v, &tag);
    match found {
        Some(i) => {
            assert(occurs_at(v@, tag@, i as int));
            let n = v.len();
            let start = i + tag.len();
            let rest = slice_chars(v, start, n);
            trim_start_chars(&rest, CharClass::Whitespace)
        },
        None => slice_chars(v, 0, v.len()),
    }
}

/// Drops the model's reasoning: what stands up to its last `</think>`.
pub fn strip_think(content: &str) -> (r: String)
    ensures
        r@ == strip_think_spec(content@),
{
    let v = chars_of(content);
    let r = strip_think_chars(&v);
    assert(v@.subrange(0, v@.len() as int) =~= v@);
    string_of(&r)
}

fn clean_chars(v: &Vec<char>) -> (r: Vec<char>)
    ensures
        r@ == clean_spec(v@),
{
    let a = trim_chars(v, CharClass::Whitespace);
    let b = trim_chars(&a, CharClass::Quote);
    trim_chars(&b, CharClass::Whitespace)
}

/// Trims a variant and the quotes around it.
pub fn clean(s: &str) -> (r: String)
    ensures
        r@ == clean_spec(s@),
{
    let v = chars_of(s);
    let c = clean_chars(&v);
    string_of(&c)
}

/// A line that opens a variant: a digit and then `.` or `)`.
pub open spec fn is_numbered(t: Seq<char>) -> bool {
    t.len() >= 2 && is_digit(t[0]) && (t[1] == '.' || t[1] == ')')
}

/// The variants so far, with the current one added when it holds more
/// than whitespace.
pub open spec fn flush(vars: Seq<Seq<char>>, cur: Option<Seq<char>>) -> Seq<Seq<char>> {
    match cur {
        Some(c) => if trim(c).len() > 0 {
            vars.push(clean_spec(c))
        } else {
            vars
        },
        None => vars,
    }
}

/// One line of the answer: a numbered line closes the current variant and
/// opens the next; another non-empty line goes on the current variant
/// after a space; before the first numbered line other lines are ignored.
pub open spec fn variant_step(st: (Seq<Seq<char>>, Option<Seq<char>>), line: Seq<char>) -> (
    Seq<Seq<char>>,
    Option<Seq<char>>,
) {
    let t = trim(line);
    if is_numbered(t) {
        (flush(st.0, st.1), Some(trim_start(t.subrange(2, t.len() as int))))
    } else {
        match st.1 {
            Some(c) => if t.len() > 0 {
                (st.0, Some(c + seq![' '] + t))
            } else {
                st
            },
            None => st,
        }
    }
}

/// The state after the lines `ls`.
pub open spec fn variant_fold(ls: Seq<Seq<char>>) -> (Seq<Seq<char>>, Option<Seq<char>>)
    decreases ls.len(),
{
    if ls.len() == 0 {
        (seq![], None)
    } else {
        variant_step(variant_fold(ls.drop_last()), ls.last())
    }
}

/// The lines that are not empty once cleaned, cleaned: the answer when
/// the model numbered nothing.
pub open spec fn cleaned_nonempty(ls: Seq<Seq<char>>) -> Seq<Seq<char>>
    decreases ls.len(),
{
    if ls.len() == 0 {
        seq![]
    } else {
        let r = cleaned_nonempty(ls.drop_last());
        if clean_spec(ls.last()).len() > 0 {
            r.push(clean_spec(ls.last()))
        } else {
            r
        }
    }
}

/// At most the first three.
pub open spec fn first_three(s: Seq<Seq<char>>) -> Seq<Seq<char>> {
    if s.len() > 3 {
        s.take(3)
    } else {
        s
    }
}

/// The variants that an answer holds.
pub open spec fn parse_variants_spec(content: Seq<char>) -> Seq<Seq<char>> {
    let ls = lines(strip_think_spec(content));
    let st = variant_fold(ls);
    let vars = flush(st.0, st.1);
    first_three(
        if vars.len() == 0 {
            cleaned_nonempty(ls)
        } else {
            vars
        },
    )
}

pub open spec fn string_views(v: Seq<String>) -> Seq<Seq<char>> {
    v.map_values(|s: String| s@)
}

pub open spec fn opt_chars_view(o: Option<Vec<char>>) -> Option<Seq<char>> {
    match o {
        Some(v) => Some(v@),
        None => None,
    }
}

fn flush_chars(vars: &mut Vec<Vec<char>>, cur: Option<Vec<char>>)
    ensures
        views(final(vars)@) == flush(views(old(vars)@), opt_chars_view(cur)),
{
    match cur {
        Some(c) => {
            if has_non_ws(&c) {
                let ghost before = views(vars@);
                let k = clean_chars(&c);
                vars.push(k);
                assert(views(vars@) =~= before.push(clean_spec(c@)));
            }
        },
        None => {},
    }
}

fn strings_of(v: &Vec<Vec<char>>, n: usize) -> (r: Vec<String>)
    requires
        n <= v.len(),
    ensures
        string_views(r@) == views(v@).take(n as int),
{
    let mut r: Vec<String> = Vec::new();
    let mut i: usize = 0;
    while i < n
        invariant
            i <= n <= v.len(),
            string_views(r@) == views(v@).take(i as int),
        decreases n - i,
    {
        let s = string_of(&v[i]);
        let ghost before = string_views(r@);
        r.push(s);
        assert(string_views(r@) =~= before.push(s@));
        assert(views(v@).take(i + 1) =~= views(v@).take(i as int).push(v@[i as int]@));
        i = i + 1;
    }
    r
}

/// Splits the model's answer into reply variants: the numbered items
/// (`1.` or `1)`), each joined over its lines, trimmed and unquoted; when
/// nothing is numbered, the non-empty lines; at most three.
pub fn parse_variants(content: &str) -> (r: Vec<String>)
    ensures
        string_views(r@) == parse_variants_spec(content@),
{
    let whole = chars_of(content);
    let body = strip_think_chars(&whole);
    let ls = lines_of(&body);
    let mut vars: Vec<Vec<char>> = Vec::new();
    let mut cur: Option<Vec<char>> = None;
    let mut i: usize = 0;
    while i < ls.len()
        invariant
            i <= ls.len(),
            views(ls@) == lines(body@),
            (views(vars@), opt_chars_view(cur)) == variant_fold(views(ls@).take(i as int)),
        decreases ls.len() - i,
    {
        assert(views(ls@).take(i + 1).drop_last() =~= views(ls@).take(i as int));
        assert(views(ls@).take(i + 1).last() == ls@[i as int]@);
        let t = trim_chars(&ls[i], CharClass::Whitespace);
        let numbered = t.len() >= 2 && is_digit_char(t[0]) && (t[1] == '.' || t[1] == ')');
        if numbered {
            let taken = cur;
            flush_chars(&mut vars, taken);
            let rest = slice_chars(&t, 2, t.len());
            cur = Some(trim_start_chars(&rest, CharClass::Whitespace));
        } else {
            match cur {
                Some(c) => {
                    if t.len() > 0 {
                        let mut c2 = c;
                        let ghost c0 = c2@;
                        c2.push(' ');
                        extend_chars(&mut c2, &t);
                        assert(c2@ =~= c0 + seq![' '] + t@);
                        cur = Some(c2);
                    } else {
                        cur = Some(c);
                    }
                },
                None => {},
            }
        }
        i = i + 1;
    }
    assert(views(ls@).take(ls.len() as int) =~= views(ls@));
    flush_chars(&mut vars, cur);
    if vars.len() == 0 {
        let mut j: usize = 0;
        while j < ls.len()
            invariant
                j <= ls.len(),
                views(ls@) == lines(body@),
                views(vars@) == cleaned_nonempty(views(ls@).take(j as int)),
            decreases ls.len() - j,
        {
            assert(views(ls@).take(j + 1).drop_last() =~= views(ls@).take(j as int));
            assert(views(ls@).take(j + 1).last() == ls@[j as int]@);
            let c = clean_chars(&ls[j]);
            if c.len() > 0 {
                let ghost before = views(vars@);
                vars.push(c);
                assert(views(vars@) =~= before.push(c@));
            }
            j = j + 1;
        }
    }
    let n = if vars.len() > 3 {
        3
    } else {
        vars.len()
    };
    let r = strings_of(&vars, n);
    assert(views(vars@).take(vars.len() as int) =~= views(vars@));
    r
}

/// The variants are at most three, and none has whitespace at either end.
pub proof fn lemma_variants_shape(content: Seq<char>)
    ensures
        parse_variants_spec(content).len() <= 3,
        forall|i: int|
            0 <= i < parse_variants_spec(content).len() ==> trimmed_in(
                #[trigger] parse_variants_spec(content)[i],
                CharClass::Whitespace,
            ),
{
    let ls = lines(strip_think_spec(content));
    lemma_fold_cleaned(ls);
    lemma_cleaned_nonempty_cleaned(ls);
    let st = variant_fold(ls);
    let vars = flush(st.0, st.1);
    if let Some(c) = st.1 {
        if trim(c).len() > 0 {
            lemma_clean_trimmed(c);
        }
    }
    assert(forall|i: int| 0 <= i < vars.len() ==> trimmed_in(#[trigger] vars[i], CharClass::Whitespace));
}

proof fn lemma_clean_trimmed(s: Seq<char>)
    ensures
        trimmed_in(clean_spec(s), CharClass::Whitespace),
{
    lemma_trim_in(trim_in(trim(s), CharClass::Quote), CharClass::Whitespace);
}

proof fn lemma_fold_cleaned(ls: Seq<Seq<char>>)
    ensures
        forall|i: int|
            0 <= i < variant_fold(ls).0.len() ==> trimmed_in(
                #[trigger] variant_fold(ls).0[i],
                CharClass::Whitespace,
            ),
    decreases ls.len(),
{
    if ls.len() > 0 {
        lemma_fold_cleaned(ls.drop_last());
        let st = variant_fold(ls.drop_last());
        if let Some(c) = st.1 {
            lemma_clean_trimmed(c);
        }
    }
}

proof fn lemma_cleaned_nonempty_cleaned(ls: Seq<Seq<char>>)
    ensures
        forall|i: int|
            0 <= i < cleaned_nonempty(ls).len() ==> trimmed_in(
                #[trigger] cleaned_nonempty(ls)[i],
                CharClass::Whitespace,
            ),
    decreases ls.len(),
{
    if ls.len() > 0 {
        lemma_cleaned_nonempty_cleaned(ls.drop_last());
        lemma_clean_trimmed(ls.last());
        let r = cleaned_nonempty(ls.drop_last());
        assert forall|i: int| 0 <= i < cleaned_nonempty(ls).len() implies trimmed_in(
            #[trigger] cleaned_nonempty(ls)[i],
            CharClass::Whitespace,
        ) by {
            if i < r.len() {
                assert(cleaned_nonempty(ls)[i] == r[i]);
            }
        }
    }
}

/// No `</think>` is left in what `strip_think` keeps, so stripping twice
/// changes nothing more.
pub proof fn lemma_strip_think_idempotent(content: Seq<char>)
    ensures
        !contains(strip_think_spec(content), THINK_CLOSE@),
        strip_think_spec(strip_think_spec(content)) == strip_think_spec(content),
{
    reveal_strlit("</think>");
    let p = THINK_CLOSE@;
    let r = strip_think_spec(content);
    lemma_last_occurrence(content, p);
    match last_occurrence(content, p) {
        Some(i) => {
            let rest = content.subrange(i + p.len(), content.len() as int);
            lemma_trim_start_suffix(rest, CharClass::Whitespace);
            let k = rest.len() - r.len();
            if contains(r, p) {
                let j = choose|j: int| occurs_at(r, p, j);
                assert(r.subrange(j, j + p.len()) =~= content.subrange(
                    i + p.len() + k + j,
                    i + p.len() + k + j + p.len(),
                ));
                assert(occurs_at(content, p, i + p.len() + k + j));
            }
        },
        None => {},
    }
    lemma_last_occurrence(r, p);
}

/// The part of a chat completion's choice that holds its answer.
pub const MESSAGE: &'static str = "message";

/// The text of the answer in a chat completion's body:
/// `choices[0].message.content`.
pub open spec fn completion_content(body: Seq<u8>) -> Option<Option<Seq<char>>> {
    json_bytes_str(body, CHOICES@, 0, MESSAGE@, CONTENT@)
}

/// The error of an answer that is not JSON.
pub open spec fn decode_error() -> Seq<char> {
    ENGINE_PREFIX@ + DECODE_ERROR@
}

pub open spec fn list_result_view(r: Result<Vec<String>, String>) -> Result<Seq<Seq<char>>, Seq<char>> {
    match r {
        Ok(v) => Ok(string_views(v@)),
        Err(e) => Err(e@),
    }
}

pub open spec fn text_result_view(r: Result<String, String>) -> Result<Seq<char>, Seq<char>> {
    match r {
        Ok(v) => Ok(v@),
        Err(e) => Err(e@),
    }
}

/// The variants of an answer whose content `reply` gives: an answer that
/// is not JSON is an engine error, a missing content counts as empty, and
/// no variant at all is `EMPTY`.
pub open spec fn variants_from_reply_spec(reply: Option<Option<Seq<char>>>) -> Result<
    Seq<Seq<char>>,
    Seq<char>,
> {
    match reply {
        None => Err(decode_error()),
        Some(c) => {
            let v = parse_variants_spec(
                match c {
                    Some(x) => x,
                    None => seq![],
                },
            );
            if v.len() == 0 {
                Err(EMPTY@)
            } else {
                Ok(v)
            }
        },
    }
}

/// The variants, or the error, for the content that the engine's answer
/// gave.
pub fn variants_from_reply(reply: Option<Option<String>>) -> (r: Result<
    Vec<String>,
    String,
>)
    ensures
        list_result_view(r) == variants_from_reply_spec(opt_opt_view(reply)),
{
    match reply {
        None => {
            let mut m = String::from_str(ENGINE_PREFIX);
            m.append(DECODE_ERROR);
            Err(m)
        },
        Some(c) => {
            let content = match c {
                Some(x) => x,
                None => String::new(),
            };
            let vars = parse_variants(content.as_str());
            if vars.len() == 0 {
                Err(String::from_str(EMPTY))
            } else {
                Ok(vars)
            }
        },
    }
}

/// The reply variants in the engine's answer `body` to a chat completion.
pub fn variants_outcome(body: &[u8]) -> (r: Result<Vec<String>, String>)
    ensures
        list_result_view(r) == variants_from_reply_spec(completion_content(body@)),
{
    let reply = json_bytes_str_at(body, CHOICES, 0, MESSAGE, CONTENT);
    variants_from_reply(reply)
}

/// The rewritten prompt in an answer whose content `reply` gives: the
/// answer without reasoning, whitespace and quotes; `EMPTY` when nothing is
/// left.
pub open spec fn prompt_from_reply_spec(reply: Option<Option<Seq<char>>>) -> Result<
    Seq<char>,
    Seq<char>,
> {
    match reply {
        None => Err(decode_error()),
        Some(c) => {
            let out = clean_spec(
                strip_think_spec(
                    match c {
                        Some(x) => x,
                        None => seq![],
                    },
                ),
            );
            if out.len() == 0 {
                Err(EMPTY@)
            } else {
                Ok(out)
            }
        },
    }
}

/// The rewritten prompt, or the error, for the content that the engine's
/// answer gave.
pub fn prompt_from_reply(reply: Option<Option<String>>) -> (r: Result<String, String>)
    ensures
        text_result_view(r) == prompt_from_reply_spec(opt_opt_view(reply)),
{
    match reply {
        None => {
            let mut m = String::from_str(ENGINE_PREFIX);
            m.append(DECODE_ERROR);
            Err(m)
        },
        Some(c) => {
            let content = match c {
                Some(x) => chars_of(x.as_str()),
                None => Vec::new(),
            };
            let body = strip_think_chars(&content);
            let out = clean_chars(&body);
            if out.len() == 0 {
                Err(String::from_str(EMPTY))
            } else {
                Ok(string_of(&out))
            }
        },
    }
}

/// The rewritten prompt in the engine's answer `body`.
pub fn prompt_outcome(body: &[u8]) -> (r: Result<String, String>)
    ensures
        text_result_view(r) == prompt_from_reply_spec(completion_content(body@)),
{
    let reply = json_bytes_str_at(body, CHOICES, 0, MESSAGE, CONTENT);
    prompt_from_reply(reply)
}

proof fn lemma_trim_start_past(w: Seq<char>, r: Seq<char>, k: CharClass)
    requires
        forall|i: int| 0 <= i < w.len() ==> in_class(k, #[trigger] w[i]),
    ensures
        trim_start_in(w + r, k) == trim_start_in(r, k),
    decreases w.len(),
{
    if w.len() > 0 {
        assert((w + r).drop_first() =~= w.drop_first() + r);
        assert((w + r)[0] == w[0]);
        lemma_trim_start_past(w.drop_first(), r, k);
    } else {
        assert(w + r =~= r);
    }
}

proof fn lemma_trim_end_past(r: Seq<char>, w: Seq<char>, k: CharClass)
    requires
        forall|i: int| 0 <= i < w.len() ==> in_class(k, #[trigger] w[i]),
    ensures
        trim_end_in(r + w, k) == trim_end_in(r, k),
    decreases w.len(),
{
    if w.len() > 0 {
        assert((r + w).drop_last() =~= r + w.drop_last());
        assert((r + w).last() == w.last());
        lemma_trim_end_past(r, w.drop_last(), k);
    } else {
        assert(r + w =~= r);
    }
}

/// Cleaning takes off all the whitespace and quotes around a text, and
/// only those: a text `y` that neither starts nor ends with whitespace or
/// a quote comes back whole from inside any quotes (`qa`, `qb`) and any
/// whitespace around them (`wa`, `wb`).
pub proof fn lemma_clean_unwraps(
    wa: Seq<char>,
    qa: Seq<char>,
    y: Seq<char>,
    qb: Seq<char>,
    wb: Seq<char>,
)
    requires
        forall|i: int| 0 <= i < wa.len() ==> is_ws(#[trigger] wa[i]),
        forall|i: int| 0 <= i < wb.len() ==> is_ws(#[trigger] wb[i]),
        forall|i: int| 0 <= i < qa.len() ==> is_quote(#[trigger] qa[i]),
        forall|i: int| 0 <= i < qb.len() ==> is_quote(#[trigger] qb[i]),
        y.len() > 0,
        !is_ws(y[0]) && !is_quote(y[0]),
        !is_ws(y.last()) && !is_quote(y.last()),
    ensures
        clean_spec(wa + qa + y + qb + wb) == y,
{
    let m = qa + y + qb;
    let ws = CharClass::Whitespace;
    let q = CharClass::Quote;
    assert(wa + qa + y + qb + wb =~= wa + (m + wb));
    lemma_trim_start_past(wa, m + wb, ws);
    assert(m[0] == if qa.len() > 0 { qa[0] } else { y[0] });
    assert(!in_class(ws, m[0]));
    assert((m + wb)[0] == m[0]);
    assert(trim_start_in(m + wb, ws) == m + wb);
    lemma_trim_end_past(m, wb, ws);
    assert(m.last() == if qb.len() > 0 { qb.last() } else { y.last() });
    assert(!in_class(ws, m.last()));
    assert(trim_end_in(m, ws) == m);
    assert(trim(wa + qa + y + qb + wb) == m);
    assert(m =~= qa + (y + qb));
    lemma_trim_start_past(qa, y + qb, q);
    assert((y + qb)[0] == y[0]);
    assert(trim_start_in(y + qb, q) == y + qb);
    lemma_trim_end_past(y, qb, q);
    assert(trim_end_in(y, q) == y);
    assert(trim_in(m, q) == y);
    lemma_trim_of_trimmed(y, ws);
}

/// One numbered line of an answer: the digit `d`, a dot, a space, the item.
pub open spec fn item_line(d: char, x: Seq<char>) -> Seq<char> {
    seq![d, '.', ' '] + x
}

/// Lines joined by newlines.
pub open spec fn joined_lines(ls: Seq<Seq<char>>) -> Seq<char>
    decreases ls.len(),
{
    if ls.len() == 0 {
        seq![]
    } else if ls.len() == 1 {
        ls[0]
    } else {
        joined_lines(ls.drop_last()) + seq!['\n'] + ls.last()
    }
}

pub open spec fn item_lines(ds: Seq<char>, xs: Seq<Seq<char>>) -> Seq<Seq<char>> {
    Seq::new(xs.len(), |i: int| item_line(ds[i], xs[i]))
}

/// An answer of numbered items, one per line, the digits `ds`.
pub open spec fn numbered_answer(ds: Seq<char>, xs: Seq<Seq<char>>) -> Seq<char> {
    joined_lines(item_lines(ds, xs))
}

/// A text of one line that the laws below speak of: it has characters,
/// none at either end is whitespace, and none is a newline.
pub open spec fn plain_text(x: Seq<char>) -> bool {
    x.len() > 0 && trimmed_in(x, CharClass::Whitespace) && !x.contains('\n')
}

/// Numbered items as the law below speaks of them.
pub open spec fn plain_items(ds: Seq<char>, xs: Seq<Seq<char>>) -> bool {
    &&& ds.len() == xs.len()
    &&& forall|i: int| 0 <= i < ds.len() ==> is_digit(#[trigger] ds[i])
    &&& forall|i: int| 0 <= i < xs.len() ==> plain_text(#[trigger] xs[i])
}

proof fn lemma_lines_state_append(p: Seq<char>, t: Seq<char>)
    requires
        !t.contains('\n'),
    ensures
        lines_state(p + t) == (lines_state(p).0, lines_state(p).1 + t),
    decreases t.len(),
{
    if t.len() == 0 {
        assert(p + t =~= p);
        assert(lines_state(p).1 + t =~= lines_state(p).1);
    } else {
        let t2 = t.drop_last();
        assert(!t2.contains('\n')) by {
            if t2.contains('\n') {
                let i = choose|i: int| 0 <= i < t2.len() && t2[i] == '\n';
                assert(t[i] == '\n');
            }
        }
        lemma_lines_state_append(p, t2);
        assert((p + t).drop_last() =~= p + t2);
        assert((p + t).last() == t.last());
        assert(t.last() != '\n') by {
            assert(t[t.len() - 1] == t.last());
        }
        assert((lines_state(p).1 + t2).push(t.last()) =~= lines_state(p).1 + t);
    }
}

proof fn lemma_item_line(d: char, x: Seq<char>)
    requires
        is_digit(d),
        plain_text(x),
    ensures
        !item_line(d, x).contains('\n'),
        item_line(d, x).last() == x.last(),
        trim(item_line(d, x)) == item_line(d, x),
        is_numbered(trim(item_line(d, x))),
        trim_start(trim(item_line(d, x)).subrange(2, item_line(d, x).len() as int)) == x,
        plain_text(item_line(d, x)),
{
    let l = item_line(d, x);
    assert(!l.contains('\n')) by {
        if l.contains('\n') {
            let i = choose|i: int| 0 <= i < l.len() && l[i] == '\n';
            if i >= 3 {
                assert(x[i - 3] == '\n');
            }
        }
    }
    assert(l.last() == x.last());
    assert(!is_ws(d));
    assert(trim_start_in(l, CharClass::Whitespace) == l);
    assert(trim_end_in(l, CharClass::Whitespace) == l);
    let r = l.subrange(2, l.len() as int);
    assert(r =~= seq![' '] + x);
    assert(r.drop_first() =~= x);
    assert(trim_start_in(x, CharClass::Whitespace) == x);
    assert(trimmed_in(l, CharClass::Whitespace));
}

proof fn lemma_joined_lines(ls: Seq<Seq<char>>)
    requires
        forall|i: int| 0 <= i < ls.len() ==> plain_text(#[trigger] ls[i]),
    ensures
        ls.len() > 0 ==> lines_state(joined_lines(ls)) == (ls.drop_last(), ls.last()),
        lines(joined_lines(ls)) == ls,
    decreases ls.len(),
{
    let n = ls.len();
    if n == 0 {
        assert(lines(joined_lines(ls)) =~= ls);
    } else {
        let line = ls.last();
        assert(plain_text(ls[n - 1]));
        if n == 1 {
            lemma_lines_state_append(seq![], line);
            assert(Seq::<char>::empty() + line =~= line);
            assert(ls.drop_last() =~= Seq::<Seq<char>>::empty());
        } else {
            let ls2 = ls.drop_last();
            assert forall|i: int| 0 <= i < ls2.len() implies plain_text(#[trigger] ls2[i]) by {
                assert(ls2[i] == ls[i]);
            }
            lemma_joined_lines(ls2);
            let a = joined_lines(ls2);
            let prev = ls2.last();
            assert(plain_text(ls[n - 2]));
            assert(prev.last() == prev[prev.len() - 1]);
            assert(strip_cr(prev) == prev);
            let a1 = a + seq!['\n'];
            assert(a1.drop_last() =~= a);
            assert(lines_state(a1) == (lines_state(a).0.push(strip_cr(lines_state(a).1)), Seq::<char>::empty()));
            lemma_lines_state_append(a1, line);
            assert(Seq::<char>::empty() + line =~= line);
            assert(ls2.drop_last().push(prev) =~= ls.drop_last());
        }
        assert(line.len() > 0);
        assert(ls.drop_last().push(line) =~= ls);
    }
}

proof fn lemma_item_lines_plain(ds: Seq<char>, xs: Seq<Seq<char>>)
    requires
        plain_items(ds, xs),
    ensures
        forall|i: int| 0 <= i < xs.len() ==> plain_text(#[trigger] item_lines(ds, xs)[i]),
{
    assert forall|i: int| 0 <= i < xs.len() implies plain_text(#[trigger] item_lines(ds, xs)[i]) by {
        assert(plain_text(xs[i]));
        lemma_item_line(ds[i], xs[i]);
        assert(is_digit(ds[i]));
        assert(item_lines(ds, xs)[i] == item_line(ds[i], xs[i]));
        lemma_trim_in(item_line(ds[i], xs[i]), CharClass::Whitespace);
    }
}

proof fn lemma_fold_items(ds: Seq<char>, xs: Seq<Seq<char>>)
    requires
        plain_items(ds, xs),
        xs.len() > 0,
    ensures
        variant_fold(item_lines(ds, xs)) == (
            xs.drop_last().map_values(|x: Seq<char>| clean_spec(x)),
            Some(xs.last()),
        ),
    decreases xs.len(),
{
    let n = xs.len();
    let ls = item_lines(ds, xs);
    lemma_item_line(ds[n - 1], xs[n - 1]);
    let line = item_line(ds[n - 1], xs.last());
    assert(ls.last() == line);
    assert(variant_fold(ls) == variant_step(variant_fold(ls.drop_last()), line));
    assert(trim(line).len() == line.len());
    if n == 1 {
        assert(ls.drop_last() =~= Seq::<Seq<char>>::empty());
        assert(variant_fold(ls.drop_last()) == (Seq::<Seq<char>>::empty(), None::<Seq<char>>));
        assert(xs.drop_last().map_values(|x: Seq<char>| clean_spec(x)) =~= Seq::<Seq<char>>::empty());
    } else {
        let ds2 = ds.take(n - 1);
        let xs2 = xs.drop_last();
        assert(plain_items(ds2, xs2)) by {
            assert forall|i: int| 0 <= i < xs2.len() implies plain_text(#[trigger] xs2[i]) by {
                assert(xs2[i] == xs[i]);
            }
            assert forall|i: int| 0 <= i < ds2.len() implies is_digit(#[trigger] ds2[i]) by {
                assert(ds2[i] == ds[i]);
            }
        }
        lemma_fold_items(ds2, xs2);
        assert(ls.drop_last() =~= item_lines(ds2, xs2));
        let x2 = xs2.last();
        assert(x2 == xs[n - 2]);
        lemma_trim_of_trimmed(x2, CharClass::Whitespace);
        assert(x2.len() > 0);
        assert(flush(variant_fold(ls.drop_last()).0, Some(x2)) == variant_fold(ls.drop_last()).0.push(clean_spec(x2)));
        assert(xs2.drop_last().map_values(|x: Seq<char>| clean_spec(x)).push(clean_spec(x2))
            =~= xs.drop_last().map_values(|x: Seq<char>| clean_spec(x)));
    }
}

/// An answer of numbered items, one per line, gives those items as the
/// variants, each cleaned of the quotes and whitespace around it, the
/// first three of them; the last item is cleaned like the others.
pub proof fn lemma_numbered_items_become_variants(ds: Seq<char>, xs: Seq<Seq<char>>)
    requires
        plain_items(ds, xs),
        !contains(numbered_answer(ds, xs), THINK_CLOSE@),
    ensures
        parse_variants_spec(numbered_answer(ds, xs)) == xs.map_values(
            |x: Seq<char>| clean_spec(x),
        ).take(if xs.len() > 3 { 3 } else { xs.len() as int }),
{
    let c = numbered_answer(ds, xs);
    lemma_last_occurrence(c, THINK_CLOSE@);
    assert(strip_think_spec(c) == c);
    let all = xs.map_values(|x: Seq<char>| clean_spec(x));
    lemma_item_lines_plain(ds, xs);
    lemma_joined_lines(item_lines(ds, xs));
    if xs.len() == 0 {
        assert(all.take(0) =~= Seq::<Seq<char>>::empty());
    } else {
        let n = xs.len();
        lemma_fold_items(ds, xs);
        assert(plain_text(xs[n - 1]));
        lemma_trim_of_trimmed(xs.last(), CharClass::Whitespace);
        let vars = flush(variant_fold(lines(c)).0, variant_fold(lines(c)).1);
        assert(vars =~= all);
        if n <= 3 {
            assert(all.take(n as int) =~= all);
        }
    }
}

proof fn lemma_fold_first_item(d: char, a: Seq<char>)
    requires
        is_digit(d),
        plain_text(a),
    ensures
        variant_fold(seq![item_line(d, a)]) == (Seq::<Seq<char>>::empty(), Some(a)),
{
    let l0 = item_line(d, a);
    lemma_item_line(d, a);
    assert(seq![l0].drop_last() =~= Seq::<Seq<char>>::empty());
    assert(seq![l0].last() == l0);
    assert(variant_fold(Seq::<Seq<char>>::empty()) == (Seq::<Seq<char>>::empty(), None::<Seq<char>>));
    assert(variant_fold(seq![l0]) == variant_step(variant_fold(Seq::<Seq<char>>::empty()), l0));
}

proof fn lemma_fold_continued(d: char, a: Seq<char>, b: Seq<char>)
    requires
        is_digit(d),
        plain_text(a),
        plain_text(b),
        !is_numbered(b),
    ensures
        variant_fold(seq![item_line(d, a), b]) == (Seq::<Seq<char>>::empty(), Some(a + seq![' '] + b)),
{
    let l0 = item_line(d, a);
    let ls = seq![l0, b];
    lemma_fold_first_item(d, a);
    assert(ls.drop_last() =~= seq![l0]);
    assert(ls.last() == b);
    lemma_trim_of_trimmed(b, CharClass::Whitespace);
    assert(variant_fold(ls) == variant_step(variant_fold(seq![l0]), b));
}

proof fn lemma_two_lines(d: char, a: Seq<char>, b: Seq<char>)
    requires
        is_digit(d),
        plain_text(a),
        plain_text(b),
    ensures
        lines(joined_lines(seq![item_line(d, a), b])) == seq![item_line(d, a), b],
{
    let l0 = item_line(d, a);
    let ls = seq![l0, b];
    lemma_item_line(d, a);
    assert forall|i: int| 0 <= i < ls.len() implies plain_text(#[trigger] ls[i]) by {
        if i == 0 {
            assert(ls[i] == l0);
        } else {
            assert(ls[i] == b);
        }
    }
    lemma_joined_lines(ls);
}

/// A line that goes on the variant before it: a numbered item `d. a`
/// followed by a line `b` that is not numbered gives one variant, the two
/// joined by a space, cleaned.
pub proof fn lemma_continuation_line_joins(d: char, a: Seq<char>, b: Seq<char>)
    requires
        is_digit(d),
        plain_text(a),
        plain_text(b),
        !is_numbered(b),
        !contains(joined_lines(seq![item_line(d, a), b]), THINK_CLOSE@),
    ensures
        parse_variants_spec(joined_lines(seq![item_line(d, a), b])) == seq![
            clean_spec(a + seq![' '] + b),
        ],
{
    let l0 = item_line(d, a);
    let ls = seq![l0, b];
    let c = joined_lines(ls);
    let m = a + seq![' '] + b;
    assert(strip_think_spec(c) == c) by {
        lemma_last_occurrence(c, THINK_CLOSE@);
    }
    lemma_two_lines(d, a, b);
    lemma_fold_continued(d, a, b);
    assert(flush(Seq::<Seq<char>>::empty(), Some(m)) =~= seq![clean_spec(m)]) by {
        assert(m[0] == a[0]);
        assert(m.last() == b.last());
        assert(trimmed_in(m, CharClass::Whitespace));
        lemma_trim_of_trimmed(m, CharClass::Whitespace);
    }
}

proof fn lemma_fold_unnumbered(ys: Seq<Seq<char>>)
    requires
        forall|i: int| 0 <= i < ys.len() ==> plain_text(#[trigger] ys[i]) && !is_numbered(ys[i]),
    ensures
        variant_fold(ys) == (Seq::<Seq<char>>::empty(), None::<Seq<char>>),
    decreases ys.len(),
{
    if ys.len() > 0 {
        let ys2 = ys.drop_last();
        assert forall|i: int| 0 <= i < ys2.len() implies plain_text(#[trigger] ys2[i]) && !is_numbered(
            ys2[i],
        ) by {
            assert(ys2[i] == ys[i]);
        }
        lemma_fold_unnumbered(ys2);
        assert(plain_text(ys[ys.len() - 1]) && !is_numbered(ys[ys.len() - 1]));
        lemma_trim_of_trimmed(ys.last(), CharClass::Whitespace);
    }
}

proof fn lemma_cleaned_all(ys: Seq<Seq<char>>)
    requires
        forall|i: int| 0 <= i < ys.len() ==> clean_spec(#[trigger] ys[i]).len() > 0,
    ensures
        cleaned_nonempty(ys) == ys.map_values(|y: Seq<char>| clean_spec(y)),
    decreases ys.len(),
{
    if ys.len() > 0 {
        let ys2 = ys.drop_last();
        assert forall|i: int| 0 <= i < ys2.len() implies clean_spec(#[trigger] ys2[i]).len() > 0 by {
            assert(ys2[i] == ys[i]);
        }
        lemma_cleaned_all(ys2);
        assert(clean_spec(ys[ys.len() - 1]).len() > 0);
        assert(ys2.map_values(|y: Seq<char>| clean_spec(y)).push(clean_spec(ys.last()))
            =~= ys.map_values(|y: Seq<char>| clean_spec(y)));
    }
}

/// An answer in which no line is numbered gives its lines as the
/// variants, each cleaned, the first three of them.
pub proof fn lemma_unnumbered_lines_become_variants(ys: Seq<Seq<char>>)
    requires
        forall|i: int|
            0 <= i < ys.len() ==> plain_text(#[trigger] ys[i]) && !is_numbered(ys[i])
                && clean_spec(ys[i]).len() > 0,
        !contains(joined_lines(ys), THINK_CLOSE@),
    ensures
        parse_variants_spec(joined_lines(ys)) == ys.map_values(|y: Seq<char>| clean_spec(y)).take(
            if ys.len() > 3 {
                3
            } else {
                ys.len() as int
            },
        ),
{
    let c = joined_lines(ys);
    lemma_last_occurrence(c, THINK_CLOSE@);
    assert(strip_think_spec(c) == c);
    lemma_joined_lines(ys);
    lemma_fold_unnumbered(ys);
    lemma_cleaned_all(ys);
    let all = ys.map_values(|y: Seq<char>| clean_spec(y));
    if ys.len() <= 3 {
        assert(all.take(ys.len() as int) =~= all);
    }
}

} // verus!
