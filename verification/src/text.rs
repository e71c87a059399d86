//! Character-level text operations used to build Typst markup: escaping,
//! trimming, searching, replacing and number formatting, each stated over
//! the `Seq<char>` view of the strings involved.
use vstd::prelude::*;

verus! {

broadcast use vstd::string::group_string_axioms;

// ---------------------------------------------------------------------------
// Escaping for Typst markup
// ---------------------------------------------------------------------------

/// Characters that carry meaning in Typst markup mode.
pub open spec fn is_markup_char(c: char) -> bool {
    c == '*' || c == '_' || c == '`' || c == '#' || c == '<' || c == '>' || c == '@' || c == '$'
        || c == '\\' || c == '~' || c == '[' || c == ']'
}

/// One character of text as it is written into markup.
pub open spec fn escape_char(c: char) -> Seq<char> {
    if is_markup_char(c) {
        seq!['\\', c]
    } else {
        seq![c]
    }
}

/// Text escaped for markup: every markup character gets a backslash before it.
pub open spec fn escape_markup(s: Seq<char>) -> Seq<char>
    decreases s.len(),
{
    if s.len() == 0 {
        seq![]
    } else {
        escape_markup(s.drop_last()) + escape_char(s.last())
    }
}

/// Markup in which no character can start Typst syntax: it is a run of
/// plain characters and of backslash escapes of markup characters.
pub open spec fn markup_inert(t: Seq<char>) -> bool
    decreases t.len(),
{
    if t.len() == 0 {
        true
    } else if t[0] == '\\' {
        t.len() >= 2 && is_markup_char(t[1]) && markup_inert(t.skip(2))
    } else {
        !is_markup_char(t[0]) && markup_inert(t.skip(1))
    }
}

/// What Typst reads back from escaped markup text.
pub open spec fn unescape(t: Seq<char>) -> Seq<char>
    decreases t.len(),
{
    if t.len() == 0 {
        seq![]
    } else if t[0] == '\\' && t.len() >= 2 {
        seq![t[1]] + unescape(t.skip(2))
    } else {
        seq![t[0]] + unescape(t.skip(1))
    }
}

/// Characters that must be escaped inside a Typst string literal.
pub open spec fn is_quote_char(c: char) -> bool {
    c == '\\' || c == '"'
}

pub open spec fn escape_quoted_char(c: char) -> Seq<char> {
    if is_quote_char(c) {
        seq!['\\', c]
    } else {
        seq![c]
    }
}

/// Text escaped for the inside of a Typst string literal.
pub open spec fn escape_quoted(s: Seq<char>) -> Seq<char>
    decreases s.len(),
{
    if s.len() == 0 {
        seq![]
    } else {
        escape_quoted(s.drop_last()) + escape_quoted_char(s.last())
    }
}

/// The inside of a string literal that no character of can end the literal:
/// every quote and backslash is escaped.
pub open spec fn quoted_inert(t: Seq<char>) -> bool
    decreases t.len(),
{
    if t.len() == 0 {
        true
    } else if t[0] == '\\' {
        t.len() >= 2 && is_quote_char(t[1]) && quoted_inert(t.skip(2))
    } else {
        t[0] != '"' && quoted_inert(t.skip(1))
    }
}

pub proof fn lemma_escape_markup_append(a: Seq<char>, b: Seq<char>)
    ensures
        escape_markup(a + b) == escape_markup(a) + escape_markup(b),
    decreases b.len(),
{
    if b.len() == 0 {
        assert(a + b =~= a);
        assert(escape_markup(b) =~= seq![]);
        assert(escape_markup(a) + escape_markup(b) =~= escape_markup(a));
    } else {
        lemma_escape_markup_append(a, b.drop_last());
        assert((a + b).drop_last() =~= a + b.drop_last());
        assert((a + b).last() == b.last());
        assert(escape_markup(a) + escape_markup(b.drop_last()) + escape_char(b.last())
            =~= escape_markup(a) + (escape_markup(b.drop_last()) + escape_char(b.last())));
    }
}

pub proof fn lemma_escape_quoted_append(a: Seq<char>, b: Seq<char>)
    ensures
        escape_quoted(a + b) == escape_quoted(a) + escape_quoted(b),
    decreases b.len(),
{
    if b.len() == 0 {
        assert(a + b =~= a);
        assert(escape_quoted(b) =~= seq![]);
        assert(escape_quoted(a) + escape_quoted(b) =~= escape_quoted(a));
    } else {
        lemma_escape_quoted_append(a, b.drop_last());
        assert((a + b).drop_last() =~= a + b.drop_last());
        assert((a + b).last() == b.last());
        assert(escape_quoted(a) + escape_quoted(b.drop_last()) + escape_quoted_char(b.last())
            =~= escape_quoted(a) + (escape_quoted(b.drop_last()) + escape_quoted_char(b.last())));
    }
}

proof fn lemma_escape_markup_first(s: Seq<char>)
    requires
        s.len() > 0,
    ensures
        escape_markup(s) == escape_char(s[0]) + escape_markup(s.skip(1)),
{
    lemma_escape_markup_append(seq![s[0]], s.skip(1));
    assert(seq![s[0]] + s.skip(1) =~= s);
    assert(seq![s[0]].drop_last() =~= Seq::<char>::empty());
    assert(escape_markup(Seq::<char>::empty()) == Seq::<char>::empty());
    assert(escape_markup(seq![s[0]]) =~= escape_char(s[0]));
}

proof fn lemma_escape_quoted_first(s: Seq<char>)
    requires
        s.len() > 0,
    ensures
        escape_quoted(s) == escape_quoted_char(s[0]) + escape_quoted(s.skip(1)),
{
    lemma_escape_quoted_append(seq![s[0]], s.skip(1));
    assert(seq![s[0]] + s.skip(1) =~= s);
    assert(seq![s[0]].drop_last() =~= Seq::<char>::empty());
    assert(escape_quoted(Seq::<char>::empty()) == Seq::<char>::empty());
    assert(escape_quoted(seq![s[0]]) =~= escape_quoted_char(s[0]));
}

/// Escaped text is inert in markup, and Typst reads back exactly the text
/// that was escaped: no input can break out of the text it stands for.
pub proof fn law_escape_markup_inert_and_faithful(s: Seq<char>)
    ensures
        markup_inert(escape_markup(s)),
        unescape(escape_markup(s)) == s,
    decreases s.len(),
{
    if s.len() > 0 {
        lemma_escape_markup_first(s);
        law_escape_markup_inert_and_faithful(s.skip(1));
        let e = escape_markup(s);
        let r = escape_markup(s.skip(1));
        if is_markup_char(s[0]) {
            assert(e.skip(2) =~= r);
            assert(e[0] == '\\');
            assert(e[1] == s[0]);
        } else {
            assert(e.skip(1) =~= r);
            assert(e[0] == s[0]);
        }
        assert(unescape(e) =~= s);
    } else {
        assert(escape_markup(s) =~= seq![]);
        assert(s =~= seq![]);
    }
}

/// Text escaped for a string literal cannot end the literal, and reads back
/// as the text that was escaped.
pub proof fn law_escape_quoted_inert_and_faithful(s: Seq<char>)
    ensures
        quoted_inert(escape_quoted(s)),
        unescape(escape_quoted(s)) == s,
    decreases s.len(),
{
    if s.len() > 0 {
        lemma_escape_quoted_first(s);
        law_escape_quoted_inert_and_faithful(s.skip(1));
        let e = escape_quoted(s);
        let r = escape_quoted(s.skip(1));
        if is_quote_char(s[0]) {
            assert(e.skip(2) =~= r);
            assert(e[0] == '\\');
            assert(e[1] == s[0]);
        } else {
            assert(e.skip(1) =~= r);
            assert(e[0] == s[0]);
        }
        assert(unescape(e) =~= s);
    } else {
        assert(escape_quoted(s) =~= seq![]);
        assert(s =~= seq![]);
    }
}

/// Appends one character (std `String::push`).
#[verifier::external_body]
pub(crate) fn push_char(s: &mut String, c: char)
    ensures
        final(s)@ == old(s)@.push(c),
{
    s.push(c);
}

/// The characters of a string, in order.
pub fn chars_of(s: &str) -> (v: Vec<char>)
    ensures
        v@ == s@,
{
    let mut v: Vec<char> = Vec::new();
    for c in it: s.chars()
        invariant
            it.seq() == s@,
            v@ == s@.take(it.index() as int),
    {
        v.push(c);
        assert(s@.take(it.index() + 1) =~= s@.take(it.index() as int).push(c));
    }
    assert(s@.take(s@.len() as int) =~= s@);
    v
}

/// A string holding the given characters.
pub fn string_of(v: &[char]) -> (s: String)
    ensures
        s@ == v@,
{
    let mut s = String::new();
    let mut i: usize = 0;
    while i < v.len()
        invariant
            i <= v.len(),
            s@ == v@.take(i as int),
        decreases v.len() - i,
    {
        push_char(&mut s, v[i]);
        assert(v@.take(i + 1) =~= v@.take(i as int).push(v@[i as int]));
        i += 1;
    }
    assert(v@.take(v@.len() as int) =~= v@);
    s
}

/// A string slice as an owned string with the given text appended.
pub fn concat(a: &str, b: &str) -> (r: String)
    ensures
        r@ == a@ + b@,
{
    let mut r = a.to_owned();
    r.append(b);
    r
}

/// Whether two strings hold the same characters.
pub fn str_eq(a: &str, b: &str) -> (r: bool)
    ensures
        r == (a@ == b@),
{
    let x = a.to_owned();
    let y = b.to_owned();
    x == y
}

/// Appends text to a character buffer.
pub fn append_str(buf: &mut Vec<char>, s: &str)
    ensures
        final(buf)@ == old(buf)@ + s@,
{
    let mut v = chars_of(s);
    buf.append(&mut v);
}

/// Escapes characters for Typst markup.
pub fn escape_markup_chars(v: &[char]) -> (res: Vec<char>)
    ensures
        res@ == escape_markup(v@),
{
    let mut result: Vec<char> = Vec::new();
    let mut i: usize = 0;
    while i < v.len()
        invariant
            i <= v.len(),
            result@ == escape_markup(v@.take(i as int)),
        decreases v.len() - i,
    {
        let c = v[i];
        assert(v@.take(i + 1).drop_last() =~= v@.take(i as int));
        if c == '*' || c == '_' || c == '`' || c == '#' || c == '<' || c == '>' || c == '@' || c
            == '$' || c == '\\' || c == '~' || c == '[' || c == ']' {
            result.push('\\');
        }
        result.push(c);
        assert(result@ =~= escape_markup(v@.take(i + 1)));
        i += 1;
    }
    assert(v@.take(v@.len() as int) =~= v@);
    result
}

/// Escapes characters for the inside of a Typst string literal.
pub fn escape_quoted_chars(v: &[char]) -> (res: Vec<char>)
    ensures
        res@ == escape_quoted(v@),
{
    let mut result: Vec<char> = Vec::new();
    let mut i: usize = 0;
    while i < v.len()
        invariant
            i <= v.len(),
            result@ == escape_quoted(v@.take(i as int)),
        decreases v.len() - i,
    {
        let c = v[i];
        assert(v@.take(i + 1).drop_last() =~= v@.take(i as int));
        if c == '\\' || c == '"' {
            result.push('\\');
        }
        result.push(c);
        assert(result@ =~= escape_quoted(v@.take(i + 1)));
        i += 1;
    }
    assert(v@.take(v@.len() as int) =~= v@);
    result
}

/// Escapes text for Typst markup.
pub fn escape_typst(text: &str) -> (res: String)
    ensures
        res@ == escape_markup(text@),
{
    let mut result = String::new();
    for c in it: text.chars()
        invariant
            it.seq() == text@,
            result@ == escape_markup(text@.take(it.index() as int)),
    {
        assert(text@.take(it.index() + 1).drop_last() =~= text@.take(it.index() as int));
        if c == '*' || c == '_' || c == '`' || c == '#' || c == '<' || c == '>' || c == '@' || c
            == '$' || c == '\\' || c == '~' || c == '[' || c == ']' {
            push_char(&mut result, '\\');
        }
        push_char(&mut result, c);
        assert(result@ =~= escape_markup(text@.take(it.index() + 1)));
    }
    assert(text@.take(text@.len() as int) =~= text@);
    result
}

/// Escapes text for the inside of a Typst string literal: backslashes are
/// doubled and quotes get a backslash.
pub fn escape_typst_string(s: &str) -> (res: String)
    ensures
        res@ == escape_quoted(s@),
{
    let mut result = String::new();
    for c in it: s.chars()
        invariant
            it.seq() == s@,
            result@ == escape_quoted(s@.take(it.index() as int)),
    {
        assert(s@.take(it.index() + 1).drop_last() =~= s@.take(it.index() as int));
        if c == '\\' || c == '"' {
            push_char(&mut result, '\\');
        }
        push_char(&mut result, c);
        assert(result@ =~= escape_quoted(s@.take(it.index() + 1)));
    }
    assert(s@.take(s@.len() as int) =~= s@);
    result
}

// ---------------------------------------------------------------------------
// Whitespace and trimming
// ---------------------------------------------------------------------------

/// Unicode `White_Space` (the characters for which `char::is_whitespace` holds).
pub open spec fn is_whitespace(c: char) -> bool {
    c == ' ' || ('\t' <= c && c <= '\r') || c == '\u{85}' || c == '\u{a0}' || c == '\u{1680}'
        || ('\u{2000}' <= c && c <= '\u{200a}') || c == '\u{2028}' || c == '\u{2029}' || c
        == '\u{202f}' || c == '\u{205f}' || c == '\u{3000}'
}

pub fn char_is_whitespace(c: char) -> (r: bool)
    ensures
        r == is_whitespace(c),
{
    c == ' ' || ('\t' <= c && c <= '\r') || c == '\u{85}' || c == '\u{a0}' || c == '\u{1680}'
        || ('\u{2000}' <= c && c <= '\u{200a}') || c == '\u{2028}' || c == '\u{2029}' || c
        == '\u{202f}' || c == '\u{205f}' || c == '\u{3000}'
}

/// The text without leading whitespace.
pub open spec fn trim_start(s: Seq<char>) -> Seq<char>
    decreases s.len(),
{
    if s.len() > 0 && is_whitespace(s[0]) {
        trim_start(s.skip(1))
    } else {
        s
    }
}

/// The text without trailing whitespace.
pub open spec fn trim_end(s: Seq<char>) -> Seq<char>
    decreases s.len(),
{
    if s.len() > 0 && is_whitespace(s.last()) {
        trim_end(s.drop_last())
    } else {
        s
    }
}

/// The text without leading and trailing whitespace.
pub open spec fn trim(s: Seq<char>) -> Seq<char> {
    trim_start(trim_end(s))
}

/// The text without trailing occurrences of `c`.
pub open spec fn trim_end_char(s: Seq<char>, c: char) -> Seq<char>
    decreases s.len(),
{
    if s.len() > 0 && s.last() == c {
        trim_end_char(s.drop_last(), c)
    } else {
        s
    }
}

/// The text without leading occurrences of `c`.
pub open spec fn trim_start_char(s: Seq<char>, c: char) -> Seq<char>
    decreases s.len(),
{
    if s.len() > 0 && s[0] == c {
        trim_start_char(s.skip(1), c)
    } else {
        s
    }
}

proof fn lemma_trim_start_skip(s: Seq<char>, i: int)
    requires
        0 <= i <= s.len(),
        forall|k: int| 0 <= k < i ==> is_whitespace(#[trigger] s[k]),
    ensures
        trim_start(s) == trim_start(s.skip(i)),
    decreases i,
{
    if i > 0 {
        assert(s.skip(1).skip(i - 1) =~= s.skip(i));
        assert forall|k: int| 0 <= k < i - 1 implies is_whitespace(#[trigger] s.skip(1)[k]) by {
            assert(s.skip(1)[k] == s[k + 1]);
        }
        lemma_trim_start_skip(s.skip(1), i - 1);
    } else {
        assert(s.skip(0) =~= s);
    }
}

proof fn lemma_trim_end_take(s: Seq<char>, j: int)
    requires
        0 <= j <= s.len(),
        forall|k: int| j <= k < s.len() ==> is_whitespace(#[trigger] s[k]),
    ensures
        trim_end(s) == trim_end(s.take(j)),
    decreases s.len() - j,
{
    if j < s.len() {
        assert(s.drop_last().take(j) =~= s.take(j));
        assert forall|k: int| j <= k < s.drop_last().len() implies is_whitespace(
            #[trigger] s.drop_last()[k],
        ) by {
            assert(s.drop_last()[k] == s[k]);
        }
        lemma_trim_end_take(s.drop_last(), j);
    } else {
        assert(s.take(j) =~= s);
    }
}

proof fn lemma_trim_end_char_take(s: Seq<char>, c: char, j: int)
    requires
        0 <= j <= s.len(),
        forall|k: int| j <= k < s.len() ==> #[trigger] s[k] == c,
    ensures
        trim_end_char(s, c) == trim_end_char(s.take(j), c),
    decreases s.len() - j,
{
    if j < s.len() {
        assert(s.drop_last().take(j) =~= s.take(j));
        assert forall|k: int| j <= k < s.drop_last().len() implies #[trigger] s.drop_last()[k]
            == c by {
            assert(s.drop_last()[k] == s[k]);
        }
        lemma_trim_end_char_take(s.drop_last(), c, j);
    } else {
        assert(s.take(j) =~= s);
    }
}

proof fn lemma_trim_start_char_skip(s: Seq<char>, c: char, i: int)
    requires
        0 <= i <= s.len(),
        forall|k: int| 0 <= k < i ==> #[trigger] s[k] == c,
    ensures
        trim_start_char(s, c) == trim_start_char(s.skip(i), c),
    decreases i,
{
    if i > 0 {
        assert(s.skip(1).skip(i - 1) =~= s.skip(i));
        assert forall|k: int| 0 <= k < i - 1 implies #[trigger] s.skip(1)[k] == c by {
            assert(s.skip(1)[k] == s[k + 1]);
        }
        lemma_trim_start_char_skip(s.skip(1), c, i - 1);
    } else {
        assert(s.skip(0) =~= s);
    }
}

/// Removes leading and trailing whitespace (std `str::trim`).
pub fn trim_chars(v: &[char]) -> (r: Vec<char>)
    ensures
        r@ == trim(v@),
{
    let mut j: usize = v.len();
    while j > 0 && char_is_whitespace(v[j - 1])
        invariant
            j <= v.len(),
            forall|k: int| j <= k < v.len() ==> is_whitespace(#[trigger] v@[k]),
        decreases j,
    {
        j -= 1;
    }
    proof {
        lemma_trim_end_take(v@, j as int);
        if j > 0 {
            assert(v@.take(j as int).last() == v@[j - 1]);
        }
        assert(trim_end(v@.take(j as int)) == v@.take(j as int));
    }
    let mut i: usize = 0;
    while i < j && char_is_whitespace(v[i])
        invariant
            i <= j <= v.len(),
            forall|k: int| 0 <= k < i ==> is_whitespace(#[trigger] v@[k]),
        decreases j - i,
    {
        i += 1;
    }
    let ghost t = v@.take(j as int);
    proof {
        assert forall|k: int| 0 <= k < i implies is_whitespace(#[trigger] t[k]) by {
            assert(t[k] == v@[k]);
        }
        lemma_trim_start_skip(t, i as int);
        if i < j {
            assert(t.skip(i as int)[0] == v@[i as int]);
        }
        assert(trim_start(t.skip(i as int)) == t.skip(i as int));
    }
    let mut out: Vec<char> = Vec::new();
    let mut k: usize = i;
    while k < j
        invariant
            i <= k <= j <= v.len(),
            out@ == v@.subrange(i as int, k as int),
        decreases j - k,
    {
        out.push(v[k]);
        assert(v@.subrange(i as int, k + 1) =~= v@.subrange(i as int, k as int).push(v@[k as int]));
        k += 1;
    }
    assert(out@ =~= t.skip(i as int));
    out
}

/// Removes leading and trailing whitespace (std `str::trim`).
pub fn trim_str(s: &str) -> (r: String)
    ensures
        r@ == trim(s@),
{
    let v = chars_of(s);
    let t = trim_chars(v.as_slice());
    string_of(t.as_slice())
}

/// Removes trailing occurrences of one character (std `str::trim_end_matches`).
pub fn trim_end_matches_chars(v: &[char], c: char) -> (r: Vec<char>)
    ensures
        r@ == trim_end_char(v@, c),
{
    let mut j: usize = v.len();
    while j > 0 && v[j - 1] == c
        invariant
            j <= v.len(),
            forall|k: int| j <= k < v.len() ==> #[trigger] v@[k] == c,
        decreases j,
    {
        j -= 1;
    }
    proof {
        lemma_trim_end_char_take(v@, c, j as int);
        if j > 0 {
            assert(v@.take(j as int).last() == v@[j - 1]);
        }
        assert(trim_end_char(v@.take(j as int), c) == v@.take(j as int));
    }
    let mut out: Vec<char> = Vec::new();
    let mut k: usize = 0;
    while k < j
        invariant
            k <= j <= v.len(),
            out@ == v@.take(k as int),
        decreases j - k,
    {
        out.push(v[k]);
        assert(v@.take(k + 1) =~= v@.take(k as int).push(v@[k as int]));
        k += 1;
    }
    out
}

/// Removes leading occurrences of one character (std `str::trim_start_matches`).
pub fn trim_start_matches_char(s: &str, c: char) -> (r: String)
    ensures
        r@ == trim_start_char(s@, c),
{
    let v = chars_of(s);
    let mut i: usize = 0;
    while i < v.len() && v[i] == c
        invariant
            i <= v.len(),
            v@ == s@,
            forall|k: int| 0 <= k < i ==> #[trigger] v@[k] == c,
        decreases v.len() - i,
    {
        i += 1;
    }
    proof {
        lemma_trim_start_char_skip(v@, c, i as int);
        if i < v.len() {
            assert(v@.skip(i as int)[0] == v@[i as int]);
        }
        assert(trim_start_char(v@.skip(i as int), c) == v@.skip(i as int));
    }
    let mut out = String::new();
    let mut k: usize = i;
    while k < v.len()
        invariant
            i <= k <= v.len(),
            out@ == v@.subrange(i as int, k as int),
        decreases v.len() - k,
    {
        push_char(&mut out, v[k]);
        assert(v@.subrange(i as int, k + 1) =~= v@.subrange(i as int, k as int).push(v@[k as int]));
        k += 1;
    }
    assert(out@ =~= v@.skip(i as int));
    out
}

// ---------------------------------------------------------------------------
// Searching
// ---------------------------------------------------------------------------

/// `p` occurs in `s` at position `i`.
pub open spec fn occurs_at(s: Seq<char>, p: Seq<char>, i: int) -> bool {
    0 <= i && i + p.len() <= s.len() && s.subrange(i, i + p.len()) == p
}

pub open spec fn starts_with(s: Seq<char>, p: Seq<char>) -> bool {
    occurs_at(s, p, 0)
}

pub open spec fn contains(s: Seq<char>, p: Seq<char>) -> bool {
    exists|i: int| occurs_at(s, p, i)
}

fn occurs_at_exec(s: &Vec<char>, p: &Vec<char>, i: usize) -> (r: bool)
    ensures
        r == occurs_at(s@, p@, i as int),
{
    if i > s.len() || p.len() > s.len() - i {
        return false;
    }
    let mut k: usize = 0;
    while k < p.len()
        invariant
            i + p.len() <= s.len(),
            k <= p.len(),
            forall|m: int| 0 <= m < k ==> s@[i + m] == p@[m],
        decreases p.len() - k,
    {
        if s[i + k] != p[k] {
            assert(s@.subrange(i as int, i + p.len())[k as int] != p@[k as int]);
            return false;
        }
        k += 1;
    }
    assert(s@.subrange(i as int, i + p.len()) =~= p@);
    true
}

/// Whether `s` begins with `p` (std `str::starts_with`).
pub fn str_starts_with(s: &str, p: &str) -> (r: bool)
    ensures
        r == starts_with(s@, p@),
{
    let sv = chars_of(s);
    let pv = chars_of(p);
    occurs_at_exec(&sv, &pv, 0)
}

/// Whether `p` occurs in `s` (std `str::contains`).
pub fn str_contains(s: &str, p: &str) -> (r: bool)
    ensures
        r == contains(s@, p@),
{
    let sv = chars_of(s);
    let pv = chars_of(p);
    let mut i: usize = 0;
    while i <= sv.len()
        invariant
            sv@ == s@,
            pv@ == p@,
            forall|m: int| 0 <= m < i ==> !occurs_at(s@, p@, m),
        decreases sv.len() + 1 - i,
    {
        if occurs_at_exec(&sv, &pv, i) {
            return true;
        }
        if i == sv.len() {
            assert forall|m: int| !occurs_at(s@, p@, m) by {
                if 0 <= m && m < i {
                } else if m == i {
                }
            }
            return false;
        }
        i += 1;
    }
    false
}

/// The text after a prefix, where it has the prefix (std `str::strip_prefix`).
pub fn str_strip_prefix(s: &str, p: &str) -> (r: Option<String>)
    ensures
        r matches Some(rest) ==> starts_with(s@, p@) && rest@ == s@.skip(p@.len() as int),
        r is None ==> !starts_with(s@, p@),
{
    let sv = chars_of(s);
    let pv = chars_of(p);
    if occurs_at_exec(&sv, &pv, 0) {
        let rest = string_of(vstd::slice::slice_subrange(sv.as_slice(), pv.len(), sv.len()));
        assert(sv@.subrange(pv@.len() as int, sv@.len() as int) =~= s@.skip(p@.len() as int));
        Some(rest)
    } else {
        None
    }
}

// ---------------------------------------------------------------------------
// Building text
// ---------------------------------------------------------------------------

/// `n` copies of one character.
pub open spec fn repeat_char(c: char, n: nat) -> Seq<char> {
    Seq::new(n, |_i: int| c)
}

/// A string of `n` copies of `c` (std `str::repeat` on a one-character string).
pub fn repeat_char_string(c: char, n: usize) -> (r: String)
    ensures
        r@ == repeat_char(c, n as nat),
{
    let mut r = String::new();
    let mut i: usize = 0;
    while i < n
        invariant
            i <= n,
            r@ == repeat_char(c, i as nat),
        decreases n - i,
    {
        push_char(&mut r, c);
        assert(repeat_char(c, (i + 1) as nat) =~= repeat_char(c, i as nat).push(c));
        i += 1;
    }
    r
}

/// `n` copies of a text.
pub open spec fn repeat_seq(s: Seq<char>, n: nat) -> Seq<char>
    decreases n,
{
    if n == 0 {
        seq![]
    } else {
        repeat_seq(s, (n - 1) as nat) + s
    }
}

/// A string of `n` copies of `s` (std `str::repeat`).
pub fn repeat_str(s: &str, n: usize) -> (r: String)
    ensures
        r@ == repeat_seq(s@, n as nat),
{
    let mut r = String::new();
    let mut i: usize = 0;
    while i < n
        invariant
            i <= n,
            r@ == repeat_seq(s@, i as nat),
        decreases n - i,
    {
        r.append(s);
        i += 1;
    }
    r
}

/// Parts joined with a separator between each pair.
pub open spec fn join(parts: Seq<Seq<char>>, sep: Seq<char>) -> Seq<char>
    decreases parts.len(),
{
    if parts.len() == 0 {
        seq![]
    } else if parts.len() == 1 {
        parts[0]
    } else {
        join(parts.drop_last(), sep) + sep + parts.last()
    }
}

/// The texts of a list of strings.
pub open spec fn string_views(v: Seq<String>) -> Seq<Seq<char>> {
    v.map_values(|p: String| p@)
}

/// Joins strings with a separator (std `[String]::join`).
pub fn join_strings(parts: &Vec<String>, sep: &str) -> (r: String)
    ensures
        r@ == join(string_views(parts@), sep@),
{
    let ghost views = parts@.map_values(|p: String| p@);
    let mut r = String::new();
    let mut i: usize = 0;
    while i < parts.len()
        invariant
            i <= parts.len(),
            views == parts@.map_values(|p: String| p@),
            r@ == join(views.take(i as int), sep@),
        decreases parts.len() - i,
    {
        if i > 0 {
            r.append(sep);
        }
        r.append(parts[i].as_str());
        assert(views.take(i + 1).drop_last() =~= views.take(i as int));
        assert(views.take(i + 1).last() == parts@[i as int]@);
        i += 1;
    }
    assert(views.take(parts.len() as int) =~= views);
    r
}

// ---------------------------------------------------------------------------
// Decimal numbers
// ---------------------------------------------------------------------------

pub open spec fn digit_char(d: nat) -> char {
    if d == 0 {
        '0'
    } else if d == 1 {
        '1'
    } else if d == 2 {
        '2'
    } else if d == 3 {
        '3'
    } else if d == 4 {
        '4'
    } else if d == 5 {
        '5'
    } else if d == 6 {
        '6'
    } else if d == 7 {
        '7'
    } else if d == 8 {
        '8'
    } else {
        '9'
    }
}

/// The decimal numeral of a natural number, without leading zeros.
pub open spec fn decimal(n: nat) -> Seq<char>
    decreases n,
{
    if n < 10 {
        seq![digit_char(n)]
    } else {
        decimal(n / 10) + seq![digit_char(n % 10)]
    }
}

pub open spec fn is_digit(c: char) -> bool {
    '0' <= c && c <= '9'
}

proof fn lemma_digit_char_injective(a: nat, b: nat)
    requires
        a < 10,
        b < 10,
        digit_char(a) == digit_char(b),
    ensures
        a == b,
{
}

/// Every character of a numeral is a digit, and a numeral is never empty.
pub proof fn lemma_decimal_digits(n: nat)
    ensures
        decimal(n).len() >= 1,
        forall|i: int| 0 <= i < decimal(n).len() ==> is_digit(#[trigger] decimal(n)[i]),
        n < 10 <==> decimal(n).len() == 1,
    decreases n,
{
    if n >= 10 {
        lemma_decimal_digits(n / 10);
        let d = decimal(n);
        assert forall|i: int| 0 <= i < d.len() implies is_digit(#[trigger] d[i]) by {
            if i < decimal(n / 10).len() {
                assert(d[i] == decimal(n / 10)[i]);
            }
        }
    }
}

/// Distinct numbers have distinct numerals.
pub proof fn lemma_decimal_injective(a: nat, b: nat)
    requires
        decimal(a) == decimal(b),
    ensures
        a == b,
    decreases a,
{
    lemma_decimal_digits(a);
    lemma_decimal_digits(b);
    if a >= 10 && b >= 10 {
        let da = decimal(a);
        let db = decimal(b);
        assert(da.drop_last() =~= decimal(a / 10));
        assert(db.drop_last() =~= decimal(b / 10));
        lemma_decimal_injective(a / 10, b / 10);
        assert(da.last() == digit_char(a % 10));
        assert(db.last() == digit_char(b % 10));
        lemma_digit_char_injective(a % 10, b % 10);
    } else if a < 10 && b < 10 {
        assert(decimal(a)[0] == digit_char(a));
        lemma_digit_char_injective(a, b);
    }
}

fn digit_of(d: usize) -> (c: char)
    requires
        d < 10,
    ensures
        c == digit_char(d as nat),
{
    if d == 0 {
        '0'
    } else if d == 1 {
        '1'
    } else if d == 2 {
        '2'
    } else if d == 3 {
        '3'
    } else if d == 4 {
        '4'
    } else if d == 5 {
        '5'
    } else if d == 6 {
        '6'
    } else if d == 7 {
        '7'
    } else if d == 8 {
        '8'
    } else {
        '9'
    }
}

/// The decimal numeral of a number (std `usize::to_string`).
pub fn decimal_string(n: usize) -> (r: String)
    ensures
        r@ == decimal(n as nat),
    decreases n,
{
    if n < 10 {
        let mut r = String::new();
        push_char(&mut r, digit_of(n));
        assert(r@ =~= decimal(n as nat));
        r
    } else {
        let mut r = decimal_string(n / 10);
        push_char(&mut r, digit_of(n % 10));
        assert(r@ =~= decimal(n as nat));
        r
    }
}

// ---------------------------------------------------------------------------
// Replacing
// ---------------------------------------------------------------------------

/// Every non-overlapping occurrence of `pat`, found from the left, replaced
/// by `rep`.
pub open spec fn replace_all(s: Seq<char>, pat: Seq<char>, rep: Seq<char>) -> Seq<char>
    recommends
        pat.len() > 0,
    decreases s.len(),
{
    if s.len() == 0 || pat.len() == 0 {
        s
    } else if occurs_at(s, pat, 0) {
        rep + replace_all(s.skip(pat.len() as int), pat, rep)
    } else {
        seq![s[0]] + replace_all(s.skip(1), pat, rep)
    }
}

/// Replaces every occurrence of `pat` by `rep` (std `str::replace`).
pub fn replace_str(s: &str, pat: &str, rep: &str) -> (r: String)
    requires
        pat@.len() > 0,
    ensures
        r@ == replace_all(s@, pat@, rep@),
{
    let sv = chars_of(s);
    let pv = chars_of(pat);
    let mut out = String::new();
    let mut i: usize = 0;
    assert(s@.skip(0) =~= s@);
    assert(out@ + replace_all(s@, pat@, rep@) =~= replace_all(s@, pat@, rep@));
    while i < sv.len()
        invariant
            i <= sv.len(),
            sv@ == s@,
            pv@ == pat@,
            pat@.len() > 0,
            out@ + replace_all(s@.skip(i as int), pat@, rep@) == replace_all(s@, pat@, rep@),
        decreases sv.len() - i,
    {
        let ghost rest = s@.skip(i as int);
        if occurs_at_exec(&sv, &pv, i) {
            proof {
                assert(rest.subrange(0, pat@.len() as int) =~= s@.subrange(
                    i as int,
                    i + pat@.len(),
                ));
                assert(rest.skip(pat@.len() as int) =~= s@.skip(i + pat@.len()));
            }
            let ghost before = out@;
            out.append(rep);
            assert(out@ + replace_all(s@.skip(i + pat@.len()), pat@, rep@) =~= before + (rep@
                + replace_all(s@.skip(i + pat@.len()), pat@, rep@)));
            i += pv.len();
        } else {
            proof {
                if occurs_at(rest, pat@, 0) {
                    assert(rest.subrange(0, pat@.len() as int) =~= s@.subrange(
                        i as int,
                        i + pat@.len(),
                    ));
                }
                assert(rest.skip(1) =~= s@.skip(i + 1));
                assert(rest[0] == sv@[i as int]);
            }
            let ghost before = out@;
            push_char(&mut out, sv[i]);
            assert(out@ + replace_all(s@.skip(i + 1), pat@, rep@) =~= before + (seq![rest[0]]
                + replace_all(rest.skip(1), pat@, rep@)));
            i += 1;
        }
    }
    assert(s@.skip(sv.len() as int) =~= Seq::<char>::empty());
    assert(out@ + Seq::<char>::empty() =~= out@);
    out
}

// ---------------------------------------------------------------------------
// Case
// ---------------------------------------------------------------------------

/// What std's `str::to_lowercase` returns for a text (Unicode lowercase mapping).
pub uninterp spec fn lowercase(s: Seq<char>) -> Seq<char>;

/// A text of ASCII characters only.
pub open spec fn is_ascii_text(s: Seq<char>) -> bool {
    forall|i: int| 0 <= i < s.len() ==> (#[trigger] s[i] as u32) < 128
}

/// The ASCII lowercase of a character: `A` to `Z` become `a` to `z`, every
/// other character stays.
pub open spec fn ascii_lower(c: char) -> char {
    if 65 <= (c as u32) && (c as u32) <= 90 {
        ((c as u32) + 32) as char
    } else {
        c
    }
}

/// The lowercase of a text: ASCII text lowercased letter by letter, any
/// other text by the Unicode mapping.
#[verifier::opaque]
pub open spec fn lowered(s: Seq<char>) -> Seq<char> {
    if is_ascii_text(s) {
        s.map_values(|c: char| ascii_lower(c))
    } else {
        lowercase(s)
    }
}

/// Lowercases a text with std's `str::to_lowercase`: the result is the
/// Unicode lowercase mapping of the text, a function of the text alone. On
/// ASCII text that mapping takes `A` to `Z` to `a` to `z` and keeps every
/// other character.
#[verifier::external_body]
pub(crate) fn to_lowercase(s: &str) -> (r: String)
    ensures
        r@ == lowercase(s@),
        is_ascii_text(s@) ==> r@ == s@.map_values(|c: char| ascii_lower(c)),
        r@ == lowered(s@),
{
    s.to_lowercase()
}

} // verus!
