//! Character-level string helpers: whitespace as `char::is_whitespace`
//! defines it, trimming, searching, line splitting, decimal numbers and
//! conversion between `&str`, `Vec<char>` and `String`.
use vstd::prelude::*;

verus! {

/// `char::is_whitespace`: the Unicode `White_Space` property.
pub open spec fn is_ws(c: char) -> bool {
    ||| (9 <= c as u32 && c as u32 <= 13)
    ||| c as u32 == 0x20
    ||| c as u32 == 0x85
    ||| c as u32 == 0xa0
    ||| c as u32 == 0x1680
    ||| (0x2000 <= c as u32 && c as u32 <= 0x200a)
    ||| c as u32 == 0x2028
    ||| c as u32 == 0x2029
    ||| c as u32 == 0x202f
    ||| c as u32 == 0x205f
    ||| c as u32 == 0x3000
}

/// The quote characters that replies and prompts lose at their ends:
/// `"`, `«`, `»`, `“`, `”`, `'` and `` ` ``.
pub open spec fn is_quote(c: char) -> bool {
    ||| c == '"'
    ||| c == '«'
    ||| c == '»'
    ||| c == '“'
    ||| c == '”'
    ||| c == '\''
    ||| c == '`'
}

/// A set of characters that a trim removes.
#[derive(Clone, Copy, Debug, PartialEq, Eq)]
pub enum CharClass {
    Whitespace,
    Quote,
    ByteOrderMark,
}

pub open spec fn in_class(k: CharClass, c: char) -> bool {
    match k {
        CharClass::Whitespace => is_ws(c),
        CharClass::Quote => is_quote(c),
        CharClass::ByteOrderMark => c as u32 == 0xfeff,
    }
}

pub fn is_ws_char(c: char) -> (r: bool)
    ensures
        r == is_ws(c),
{
    let u: u32 = c as u32;
    (9 <= u && u <= 13) || u == 0x20 || u == 0x85 || u == 0xa0 || u == 0x1680 || (0x2000 <= u && u
        <= 0x200a) || u == 0x2028 || u == 0x2029 || u == 0x202f || u == 0x205f || u == 0x3000
}

pub fn is_quote_char(c: char) -> (r: bool)
    ensures
        r == is_quote(c),
{
    c == '"' || c == '«' || c == '»' || c == '“' || c == '”' || c == '\'' || c == '`'
}

pub fn in_class_char(k: CharClass, c: char) -> (r: bool)
    ensures
        r == in_class(k, c),
{
    match k {
        CharClass::Whitespace => is_ws_char(c),
        CharClass::Quote => is_quote_char(c),
        CharClass::ByteOrderMark => c as u32 == 0xfeff,
    }
}

/// `s` without the characters of class `k` at its start.
pub open spec fn trim_start_in(s: Seq<char>, k: CharClass) -> Seq<char>
    decreases s.len(),
{
    if s.len() > 0 && in_class(k, s[0]) {
        trim_start_in(s.drop_first(), k)
    } else {
        s
    }
}

/// `s` without the characters of class `k` at its end.
pub open spec fn trim_end_in(s: Seq<char>, k: CharClass) -> Seq<char>
    decreases s.len(),
{
    if s.len() > 0 && in_class(k, s.last()) {
        trim_end_in(s.drop_last(), k)
    } else {
        s
    }
}

/// `s` without the characters of class `k` at either end (`str::trim_matches`).
pub open spec fn trim_in(s: Seq<char>, k: CharClass) -> Seq<char> {
    trim_end_in(trim_start_in(s, k), k)
}

/// `str::trim_start`.
pub open spec fn trim_start(s: Seq<char>) -> Seq<char> {
    trim_start_in(s, CharClass::Whitespace)
}

/// `str::trim`.
pub open spec fn trim(s: Seq<char>) -> Seq<char> {
    trim_in(s, CharClass::Whitespace)
}

/// Nothing of class `k` stands at either end of `s`.
pub open spec fn trimmed_in(s: Seq<char>, k: CharClass) -> bool {
    s.len() > 0 ==> !in_class(k, s[0]) && !in_class(k, s.last())
}

pub proof fn lemma_trim_start_suffix(s: Seq<char>, k: CharClass)
    ensures
        s.len() >= trim_start_in(s, k).len(),
        trim_start_in(s, k) =~= s.subrange(s.len() - trim_start_in(s, k).len(), s.len() as int),
        trim_start_in(s, k).len() > 0 ==> !in_class(k, trim_start_in(s, k)[0]),
    decreases s.len(),
{
    if s.len() > 0 && in_class(k, s[0]) {
        lemma_trim_start_suffix(s.drop_first(), k);
    }
}

pub proof fn lemma_trim_end_prefix(s: Seq<char>, k: CharClass)
    ensures
        s.len() >= trim_end_in(s, k).len(),
        trim_end_in(s, k) =~= s.subrange(0, trim_end_in(s, k).len() as int),
        trim_end_in(s, k).len() > 0 ==> !in_class(k, trim_end_in(s, k).last()),
    decreases s.len(),
{
    if s.len() > 0 && in_class(k, s.last()) {
        lemma_trim_end_prefix(s.drop_last(), k);
    }
}

/// After a trim, nothing of the class is left at either end, and the result
/// is a piece of the input.
pub proof fn lemma_trim_in(s: Seq<char>, k: CharClass)
    ensures
        trimmed_in(trim_in(s, k), k),
        exists|i: int, j: int|
            0 <= i <= j <= s.len() && #[trigger] s.subrange(i, j) == trim_in(s, k),
{
    let t = trim_start_in(s, k);
    lemma_trim_start_suffix(s, k);
    lemma_trim_end_prefix(t, k);
    let r = trim_end_in(t, k);
    let i = s.len() - t.len();
    let j = i + r.len();
    assert(s.subrange(i, j) =~= r);
    if r.len() > 0 {
        assert(r[0] == t[0]);
    }
}

/// A trim changes nothing on a sequence that is already trimmed.
pub proof fn lemma_trim_of_trimmed(s: Seq<char>, k: CharClass)
    requires
        trimmed_in(s, k),
    ensures
        trim_in(s, k) == s,
{
    if s.len() > 0 {
        assert(trim_start_in(s, k) == s);
        assert(trim_end_in(s, k) == s);
    }
}

/// `trim_in` is idempotent.
pub proof fn lemma_trim_idempotent(s: Seq<char>, k: CharClass)
    ensures
        trim_in(trim_in(s, k), k) == trim_in(s, k),
{
    lemma_trim_in(s, k);
    lemma_trim_of_trimmed(trim_in(s, k), k);
}

/// The index of the first character of `v[from..]` not in class `k`.
fn skip_class_forward(v: &Vec<char>, from: usize, k: CharClass) -> (i: usize)
    requires
        from <= v.len(),
    ensures
        from <= i <= v.len(),
        trim_start_in(v@.subrange(from as int, v.len() as int), k) == v@.subrange(
            i as int,
            v.len() as int,
        ),
{
    let mut i = from;
    while i < v.len() && in_class_char(k, v[i])
        invariant
            from <= i <= v.len(),
            trim_start_in(v@.subrange(from as int, v.len() as int), k) == trim_start_in(
                v@.subrange(i as int, v.len() as int),
                k,
            ),
        decreases v.len() - i,
    {
        assert(v@.subrange(i as int, v.len() as int).drop_first() =~= v@.subrange(
            i + 1,
            v.len() as int,
        ));
        i = i + 1;
    }
    i
}

/// The end of `v[from..to]` once the characters of class `k` at its end are gone.
fn skip_class_backward(v: &Vec<char>, from: usize, to: usize, k: CharClass) -> (j: usize)
    requires
        from <= to <= v.len(),
    ensures
        from <= j <= to,
        trim_end_in(v@.subrange(from as int, to as int), k) == v@.subrange(from as int, j as int),
{
    let mut j = to;
    while j > from && in_class_char(k, v[j - 1])
        invariant
            from <= j <= to <= v.len(),
            trim_end_in(v@.subrange(from as int, to as int), k) == trim_end_in(
                v@.subrange(from as int, j as int),
                k,
            ),
        decreases j,
    {
        assert(v@.subrange(from as int, j as int).drop_last() =~= v@.subrange(
            from as int,
            j - 1,
        ));
        j = j - 1;
    }
    j
}

/// A copy of `v[from..to]`.
pub fn slice_chars(v: &Vec<char>, from: usize, to: usize) -> (r: Vec<char>)
    requires
        from <= to <= v.len(),
    ensures
        r@ == v@.subrange(from as int, to as int),
{
    let mut r: Vec<char> = Vec::new();
    let mut i = from;
    while i < to
        invariant
            from <= i <= to <= v.len(),
            r@ == v@.subrange(from as int, i as int),
        decreases to - i,
    {
        r.push(v[i]);
        i = i + 1;
    }
    r
}

/// `v` without the characters of class `k` at either end.
pub fn trim_chars(v: &Vec<char>, k: CharClass) -> (r: Vec<char>)
    ensures
        r@ == trim_in(v@, k),
{
    let i = skip_class_forward(v, 0, k);
    let j = skip_class_backward(v, i, v.len(), k);
    assert(v@.subrange(0, v.len() as int) =~= v@);
    slice_chars(v, i, j)
}

/// `v` without the characters of class `k` at its start.
pub fn trim_start_chars(v: &Vec<char>, k: CharClass) -> (r: Vec<char>)
    ensures
        r@ == trim_start_in(v@, k),
{
    let i = skip_class_forward(v, 0, k);
    assert(v@.subrange(0, v.len() as int) =~= v@);
    slice_chars(v, i, v.len())
}

/// Whether `v` holds anything but whitespace.
pub fn has_non_ws(v: &Vec<char>) -> (r: bool)
    ensures
        r == (trim(v@).len() > 0),
{
    let t = trim_chars(v, CharClass::Whitespace);
    t.len() > 0
}

/// The characters of `s`, in order.
pub fn chars_of(s: &str) -> (v: Vec<char>)
    ensures
        v@ == s@,
{
    let mut v: Vec<char> = Vec::new();
    for c in it: s.chars()
        invariant
            v@ == it.seq().take(it.index() as int),
            it.seq() == s@,
    {
        v.push(c);
    }
    v
}

/// `String::push`: appends one character.
#[verifier::external_body]
fn push_char(s: &mut String, c: char)
    ensures
        final(s)@ == old(s)@.push(c),
{
    s.push(c);
}

/// The string made of the characters of `v`.
pub fn string_of(v: &Vec<char>) -> (s: String)
    ensures
        s@ == v@,
{
    let mut s = String::new();
    let mut i: usize = 0;
    while i < v.len()
        invariant
            i <= v.len(),
            s@ == v@.take(i as int),
        decreases v.len() - i,
    {
        push_char(&mut s, v[i]);
        assert(v@.take(i + 1) =~= v@.take(i as int).push(v@[i as int]));
        i = i + 1;
    }
    assert(v@.take(v.len() as int) =~= v@);
    s
}

/// Appends the characters of `w` to `v`.
pub fn extend_chars(v: &mut Vec<char>, w: &Vec<char>)
    ensures
        final(v)@ == old(v)@ + w@,
{
    let mut i: usize = 0;
    while i < w.len()
        invariant
            i <= w.len(),
            v@ == old(v)@ + w@.take(i as int),
        decreases w.len() - i,
    {
        v.push(w[i]);
        assert(w@.take(i + 1) =~= w@.take(i as int).push(w@[i as int]));
        i = i + 1;
    }
    assert(w@.take(w.len() as int) =~= w@);
}

/// `p` stands in `s` at index `i`.
pub open spec fn occurs_at(s: Seq<char>, p: Seq<char>, i: int) -> bool {
    0 <= i && i + p.len() <= s.len() && s.subrange(i, i + p.len()) == p
}

/// `p` stands somewhere in `s` (`str::contains`).
pub open spec fn contains(s: Seq<char>, p: Seq<char>) -> bool {
    exists|i: int| occurs_at(s, p, i)
}

/// The last place before index `n` where `p` stands in `s`.
pub open spec fn last_occurrence_before(s: Seq<char>, p: Seq<char>, n: nat) -> Option<int>
    decreases n,
{
    if n == 0 {
        None
    } else if occurs_at(s, p, n - 1) {
        Some(n - 1)
    } else {
        last_occurrence_before(s, p, (n - 1) as nat)
    }
}

/// The index of the last place where `p` stands in `s` (`str::rfind`).
pub open spec fn last_occurrence(s: Seq<char>, p: Seq<char>) -> Option<int> {
    last_occurrence_before(s, p, s.len() + 1)
}

/// The first place at or after index `i` where `p` stands in `s`.
pub open spec fn first_occurrence_from(s: Seq<char>, p: Seq<char>, i: nat) -> Option<int>
    decreases s.len() + 1 - i,
{
    if i > s.len() {
        None
    } else if occurs_at(s, p, i as int) {
        Some(i as int)
    } else {
        first_occurrence_from(s, p, i + 1)
    }
}

/// The index of the first place where `p` stands in `s` (`str::find`).
pub open spec fn first_occurrence(s: Seq<char>, p: Seq<char>) -> Option<int> {
    first_occurrence_from(s, p, 0)
}

pub proof fn lemma_last_occurrence_before(s: Seq<char>, p: Seq<char>, n: nat)
    ensures
        last_occurrence_before(s, p, n) matches Some(i) ==> 0 <= i < n && occurs_at(s, p, i)
            && forall|j: int| i < j < n ==> !occurs_at(s, p, j),
        last_occurrence_before(s, p, n) is None ==> forall|j: int| j < n ==> !occurs_at(s, p, j),
    decreases n,
{
    if n > 0 && !occurs_at(s, p, n - 1) {
        lemma_last_occurrence_before(s, p, (n - 1) as nat);
    }
}

/// `last_occurrence` is the greatest index where `p` stands in `s`.
pub proof fn lemma_last_occurrence(s: Seq<char>, p: Seq<char>)
    ensures
        last_occurrence(s, p) matches Some(i) ==> occurs_at(s, p, i) && forall|j: int|
            i < j ==> !occurs_at(s, p, j),
        last_occurrence(s, p) is None ==> forall|j: int| !occurs_at(s, p, j),
{
    lemma_last_occurrence_before(s, p, s.len() + 1);
}

pub proof fn lemma_first_occurrence_from(s: Seq<char>, p: Seq<char>, n: nat)
    ensures
        first_occurrence_from(s, p, n) matches Some(i) ==> n <= i && occurs_at(s, p, i)
            && forall|j: int| n <= j < i ==> !occurs_at(s, p, j),
        first_occurrence_from(s, p, n) is None ==> forall|j: int|
            n <= j ==> !occurs_at(s, p, j),
    decreases s.len() + 1 - n,
{
    if n <= s.len() && !occurs_at(s, p, n as int) {
        lemma_first_occurrence_from(s, p, n + 1);
    }
}

/// `first_occurrence` is the least index where `p` stands in `s`.
pub proof fn lemma_first_occurrence(s: Seq<char>, p: Seq<char>)
    ensures
        first_occurrence(s, p) matches Some(i) ==> occurs_at(s, p, i) && forall|j: int|
            j < i ==> !occurs_at(s, p, j),
        first_occurrence(s, p) is None ==> forall|j: int| !occurs_at(s, p, j),
{
    lemma_first_occurrence_from(s, p, 0);
}

/// Whether `p` stands in `v` at index `i`.
pub fn occurs_at_chars(v: &Vec<char>, p: &Vec<char>, i: usize) -> (r: bool)
    ensures
        r == occurs_at(v@, p@, i as int),
{
    if i > v.len() || p.len() > v.len() - i {
        return false;
    }
    let mut k: usize = 0;
    while k < p.len()
        invariant
            k <= p.len(),
            i + p.len() <= v.len(),
            forall|m: int| 0 <= m < k ==> v@[i + m] == p@[m],
        decreases p.len() - k,
    {
        if v[i + k] != p[k] {
            assert(v@.subrange(i as int, i + p.len())[k as int] != p@[k as int]);
            return false;
        }
        k = k + 1;
    }
    assert(v@.subrange(i as int, i + p.len()) =~= p@);
    true
}

/// The last place where `p` stands in `v`.
pub fn rfind_chars(v: &Vec<char>, p: &Vec<char>) -> (r: Option<usize>)
    ensures
        r matches Some(i) ==> last_occurrence(v@, p@) == Some(i as int),
        r is None ==> last_occurrence(v@, p@) is None,
        r matches Some(i) ==> occurs_at(v@, p@, i as int),
{
    proof {
        lemma_last_occurrence(v@, p@);
    }
    if p.len() > v.len() {
        return None;
    }
    let top: usize = v.len() - p.len();
    let mut i: usize = top;
    loop
        invariant
            p.len() <= v.len(),
            top == v.len() - p.len(),
            i <= top,
            forall|j: int| i < j && #[trigger] occurs_at(v@, p@, j) ==> false,
            last_occurrence(v@, p@) matches Some(k) ==> occurs_at(v@, p@, k) && forall|j: int|
                k < j ==> !occurs_at(v@, p@, j),
            last_occurrence(v@, p@) is None ==> forall|j: int| !occurs_at(v@, p@, j),
        decreases i,
    {
        if occurs_at_chars(v, p, i) {
            return Some(i);
        }
        if i == 0 {
            return None;
        }
        i = i - 1;
    }
}

/// The first place at or after `from` where `p` stands in `v`.
pub fn find_chars_from(v: &Vec<char>, p: &Vec<char>, from: usize) -> (r: Option<usize>)
    requires
        from <= v.len(),
    ensures
        r matches Some(i) ==> from <= i && occurs_at(v@, p@, i as int) && forall|j: int|
            from <= j < i ==> !occurs_at(v@, p@, j),
        r is None ==> forall|j: int| from <= j ==> !occurs_at(v@, p@, j),
{
    if p.len() > v.len() {
        return None;
    }
    let top: usize = v.len() - p.len();
    if from > top {
        return None;
    }
    let mut i: usize = from;
    loop
        invariant
            from <= i <= top,
            top == v.len() - p.len(),
            forall|j: int| from <= j < i ==> !occurs_at(v@, p@, j),
        decreases top - i,
    {
        if occurs_at_chars(v, p, i) {
            return Some(i);
        }
        if i == top {
            return None;
        }
        i = i + 1;
    }
}

/// The first place where `p` stands in `v`.
pub fn find_chars(v: &Vec<char>, p: &Vec<char>) -> (r: Option<usize>)
    ensures
        r matches Some(i) ==> first_occurrence(v@, p@) == Some(i as int),
        r is None ==> first_occurrence(v@, p@) is None,
        r matches Some(i) ==> occurs_at(v@, p@, i as int),
{
    proof {
        lemma_first_occurrence(v@, p@);
    }
    find_chars_from(v, p, 0)
}

/// Whether `p` stands somewhere in `v`.
pub fn contains_chars(v: &Vec<char>, p: &Vec<char>) -> (r: bool)
    ensures
        r == contains(v@, p@),
{
    let r = find_chars_from(v, p, 0);
    match r {
        Some(i) => {
            assert(occurs_at(v@, p@, i as int));
            true
        },
        None => false,
    }
}

/// The index of the first `c` in `v` at or after `from`.
pub fn find_char_from(v: &Vec<char>, c: char, from: usize) -> (r: Option<usize>)
    requires
        from <= v.len(),
    ensures
        r matches Some(i) ==> from <= i < v.len() && v@[i as int] == c && forall|j: int|
            from <= j < i ==> v@[j] != c,
        r is None ==> forall|j: int| from <= j < v.len() ==> v@[j] != c,
{
    let mut i = from;
    while i < v.len()
        invariant
            from <= i <= v.len(),
            forall|j: int| from <= j < i ==> v@[j] != c,
        decreases v.len() - i,
    {
        if v[i] == c {
            return Some(i);
        }
        i = i + 1;
    }
    None
}

/// Whether `v` holds the character `c`.
pub fn has_char(v: &Vec<char>, c: char) -> (r: bool)
    ensures
        r == v@.contains(c),
{
    match find_char_from(v, c, 0) {
        Some(i) => {
            assert(v@[i as int] == c);
            true
        },
        None => false,
    }
}

/// `v` and `w` hold the same characters.
pub fn chars_eq(v: &Vec<char>, w: &Vec<char>) -> (r: bool)
    ensures
        r == (v@ == w@),
{
    if v.len() != w.len() {
        return false;
    }
    let r = occurs_at_chars(v, w, 0);
    if r {
        assert(v@.subrange(0, w@.len() as int) =~= v@);
    } else {
        assert(v@.subrange(0, w@.len() as int) =~= v@);
    }
    r
}

/// One trailing carriage return removed, as `str::lines` does after a newline.
pub open spec fn strip_cr(l: Seq<char>) -> Seq<char> {
    if l.len() > 0 && l.last() == '\r' {
        l.drop_last()
    } else {
        l
    }
}

/// The finished lines and the unfinished last line of `s`.
pub open spec fn lines_state(s: Seq<char>) -> (Seq<Seq<char>>, Seq<char>)
    decreases s.len(),
{
    if s.len() == 0 {
        (seq![], seq![])
    } else {
        let st = lines_state(s.drop_last());
        if s.last() == '\n' {
            (st.0.push(strip_cr(st.1)), seq![])
        } else {
            (st.0, st.1.push(s.last()))
        }
    }
}

/// `str::lines`: the pieces between newlines, each without the `\r` of a
/// `\r\n`; a final newline starts no extra empty line.
pub open spec fn lines(s: Seq<char>) -> Seq<Seq<char>> {
    let st = lines_state(s);
    if st.1.len() > 0 {
        st.0.push(st.1)
    } else {
        st.0
    }
}

fn strip_cr_chars(l: Vec<char>) -> (r: Vec<char>)
    ensures
        r@ == strip_cr(l@),
{
    let mut l = l;
    if l.len() > 0 && l[l.len() - 1] == '\r' {
        l.pop();
    }
    l
}

/// The contents of a list of character vectors.
pub open spec fn views(v: Seq<Vec<char>>) -> Seq<Seq<char>> {
    v.map_values(|l: Vec<char>| l@)
}

/// The lines of `v`.
pub fn lines_of(v: &Vec<char>) -> (r: Vec<Vec<char>>)
    ensures
        views(r@) == lines(v@),
{
    let mut done: Vec<Vec<char>> = Vec::new();
    let mut cur: Vec<char> = Vec::new();
    let mut i: usize = 0;
    while i < v.len()
        invariant
            i <= v.len(),
            (views(done@), cur@) == lines_state(v@.take(i as int)),
        decreases v.len() - i,
    {
        assert(v@.take(i + 1).drop_last() =~= v@.take(i as int));
        assert(v@.take(i + 1).last() == v@[i as int]);
        if v[i] == '\n' {
            let line = strip_cr_chars(cur);
            let ghost before = views(done@);
            done.push(line);
            cur = Vec::new();
            assert(views(done@) =~= before.push(line@));
        } else {
            cur.push(v[i]);
        }
        i = i + 1;
    }
    assert(v@.take(v.len() as int) =~= v@);
    if cur.len() > 0 {
        let ghost before = views(done@);
        let ghost last = cur@;
        done.push(cur);
        assert(views(done@) =~= before.push(last));
    }
    done
}

/// An ASCII decimal digit.
pub open spec fn is_digit(c: char) -> bool {
    '0' as u32 <= c as u32 && c as u32 <= '9' as u32
}

pub fn is_digit_char(c: char) -> (r: bool)
    ensures
        r == is_digit(c),
{
    let u = c as u32;
    48 <= u && u <= 57
}

/// The value of a decimal digit.
pub open spec fn digit_value(c: char) -> nat {
    (c as u32 - '0' as u32) as nat
}

/// The number that the decimal digits `s` write.
pub open spec fn decimal_value(s: Seq<char>) -> nat
    decreases s.len(),
{
    if s.len() == 0 {
        0
    } else {
        decimal_value(s.drop_last()) * 10 + digit_value(s.last())
    }
}

/// The digit character for a value below ten.
pub open spec fn digit_char(d: nat) -> char {
    if d == 0 {
        '0'
    } else if d == 1 {
        '1'
    } else if d == 2 {
        '2'
    } else if d == 3 {
        '3'
    } else if d == 4 {
        '4'
    } else if d == 5 {
        '5'
    } else if d == 6 {
        '6'
    } else if d == 7 {
        '7'
    } else if d == 8 {
        '8'
    } else {
        '9'
    }
}

/// `n` written in decimal without leading zeros (`0` for zero), as
/// `Display` writes an unsigned integer.
pub open spec fn decimal(n: nat) -> Seq<char>
    decreases n,
{
    if n < 10 {
        seq![digit_char(n)]
    } else {
        decimal(n / 10).push(digit_char(n % 10))
    }
}

/// `str::parse::<u64>` on a string of ASCII digits: the number, or `None`
/// when there are no digits or the number does not fit.
pub open spec fn parse_digits(s: Seq<char>) -> Option<u64> {
    if s.len() == 0 || decimal_value(s) > u64::MAX {
        None
    } else {
        Some(decimal_value(s) as u64)
    }
}

proof fn lemma_decimal_value_monotone(s: Seq<char>, t: Seq<char>)
    requires
        s.len() <= t.len(),
        s == t.subrange(0, s.len() as int),
        forall|i: int| 0 <= i < t.len() ==> is_digit(#[trigger] t[i]),
    ensures
        decimal_value(s) <= decimal_value(t),
    decreases t.len(),
{
    if s.len() < t.len() {
        assert(t.drop_last().subrange(0, s.len() as int) =~= s);
        lemma_decimal_value_monotone(s, t.drop_last());
    } else {
        assert(s =~= t);
    }
}

/// Parses a string of ASCII digits as a `u64`.
pub fn parse_digits_chars(v: &Vec<char>) -> (r: Option<u64>)
    requires
        forall|i: int| 0 <= i < v.len() ==> is_digit(#[trigger] v@[i]),
    ensures
        r == parse_digits(v@),
{
    if v.len() == 0 {
        return None;
    }
    let mut n: u64 = 0;
    let mut i: usize = 0;
    while i < v.len()
        invariant
            i <= v.len(),
            forall|j: int| 0 <= j < v.len() ==> is_digit(#[trigger] v@[j]),
            n == decimal_value(v@.take(i as int)),
        decreases v.len() - i,
    {
        assert(v@.take(i + 1).drop_last() =~= v@.take(i as int));
        let d = (v[i] as u32 - 48) as u64;
        if n > (u64::MAX - d) / 10 {
            proof {
                assert(decimal_value(v@.take(i + 1)) > u64::MAX) by (nonlinear_arith)
                    requires
                        n > (u64::MAX - d) / 10,
                        decimal_value(v@.take(i + 1)) == n * 10 + d,
                        d <= 9,
                ;
                assert(v@.take(i + 1) =~= v@.subrange(0, i + 1));
                lemma_decimal_value_monotone(v@.take(i + 1), v@);
            }
            return None;
        }
        proof {
            assert(n * 10 + d <= u64::MAX) by (nonlinear_arith)
                requires
                    n <= (u64::MAX - d) / 10,
                    d <= 9,
            ;
        }
        n = n * 10 + d;
        i = i + 1;
    }
    assert(v@.take(v.len() as int) =~= v@);
    Some(n)
}

/// `n` in decimal.
pub fn decimal_chars(n: u128) -> (r: Vec<char>)
    ensures
        r@ == decimal(n as nat),
    decreases n,
{
    if n < 10 {
        let c = char_from_digit(n);
        let mut r: Vec<char> = Vec::new();
        r.push(c);
        assert(r@ =~= seq![digit_char(n as nat)]);
        r
    } else {
        let mut r = decimal_chars(n / 10);
        r.push(char_from_digit(n % 10));
        r
    }
}

fn char_from_digit(d: u128) -> (c: char)
    requires
        d < 10,
    ensures
        c == digit_char(d as nat),
{
    if d == 0 {
        '0'
    } else if d == 1 {
        '1'
    } else if d == 2 {
        '2'
    } else if d == 3 {
        '3'
    } else if d == 4 {
        '4'
    } else if d == 5 {
        '5'
    } else if d == 6 {
        '6'
    } else if d == 7 {
        '7'
    } else if d == 8 {
        '8'
    } else {
        '9'
    }
}

/// The digits that `decimal` writes are digits.
pub proof fn lemma_decimal_digits(n: nat)
    ensures
        decimal(n).len() > 0,
        forall|i: int| 0 <= i < decimal(n).len() ==> is_digit(#[trigger] decimal(n)[i]),
    decreases n,
{
    if n >= 10 {
        lemma_decimal_digits(n / 10);
    }
}

/// Reading back what `decimal` writes gives the number.
pub proof fn lemma_decimal_value(n: nat)
    ensures
        decimal_value(decimal(n)) == n,
    decreases n,
{
    let d = n % 10;
    assert(digit_value(digit_char(d)) == d);
    if n >= 10 {
        lemma_decimal_value(n / 10);
        assert(decimal(n).drop_last() =~= decimal(n / 10));
        assert(decimal(n).last() == digit_char(d));
        assert(decimal_value(decimal(n)) == decimal_value(decimal(n / 10)) * 10 + digit_value(
            digit_char(d),
        ));
        assert(n == (n / 10) * 10 + d);
    } else {
        assert(decimal(n).drop_last() =~= Seq::<char>::empty());
        assert(decimal(n).last() == digit_char(n));
        assert(decimal_value(decimal(n)) == decimal_value(Seq::<char>::empty()) * 10
            + digit_value(digit_char(n)));
    }
}

/// Writing a `u64` in decimal and parsing it again gives it back.
pub proof fn lemma_parse_decimal_roundtrip(n: u64)
    ensures
        parse_digits(decimal(n as nat)) == Some(n),
{
    lemma_decimal_value(n as nat);
    lemma_decimal_digits(n as nat);
}

/// `s` in which every ASCII letter is made lower case.
pub open spec fn ascii_lower(c: char) -> char {
    if 'A' as u32 <= c as u32 && c as u32 <= 'Z' as u32 {
        (c as u32 + 32) as char
    } else {
        c
    }
}

/// `str::eq_ignore_ascii_case`: equal once ASCII letters are folded to
/// lower case.
pub open spec fn eq_ignore_ascii_case(a: Seq<char>, b: Seq<char>) -> bool {
    a.len() == b.len() && forall|i: int| 0 <= i < a.len() ==> ascii_lower(a[i]) == ascii_lower(b[i])
}

fn ascii_lower_char(c: char) -> (r: char)
    ensures
        r == ascii_lower(c),
{
    let u = c as u32;
    if 65 <= u && u <= 90 {
        char_from_ascii_lower(u)
    } else {
        c
    }
}

fn char_from_ascii_lower(u: u32) -> (r: char)
    requires
        65 <= u <= 90,
    ensures
        r == (u + 32) as char,
{
    let b: u8 = (u + 32) as u8;
    b as char
}

/// Compares two strings ignoring ASCII case.
pub fn eq_ignore_ascii_case_chars(a: &Vec<char>, b: &Vec<char>) -> (r: bool)
    ensures
        r == eq_ignore_ascii_case(a@, b@),
{
    if a.len() != b.len() {
        return false;
    }
    let mut i: usize = 0;
    while i < a.len()
        invariant
            i <= a.len(),
            a.len() == b.len(),
            forall|j: int| 0 <= j < i ==> ascii_lower(a@[j]) == ascii_lower(b@[j]),
        decreases a.len() - i,
    {
        if ascii_lower_char(a[i]) != ascii_lower_char(b[i]) {
            return false;
        }
        i = i + 1;
    }
    true
}

} // verus!
