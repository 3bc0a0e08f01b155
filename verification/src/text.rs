//! Text processing: token estimates, truncation, decimal rendering and the
//! construction of full-text search queries.

use vstd::prelude::*;
use vstd::utf8::encode_utf8;
use vstd::utf8::is_char_boundary;

verus! {

// ───────────────────────── std character classes ─────────────────────────

/// Whether a character has the Unicode property `White_Space`, which is
/// what `char::is_whitespace` answers: tab to carriage return, space, next
/// line, no-break space, ogham space mark, en quad to hair space, line and
/// paragraph separators, narrow no-break space, medium mathematical space
/// and ideographic space.
pub open spec fn char_is_whitespace(c: char) -> bool {
    let u = c as u32;
    ||| 0x09 <= u <= 0x0d
    ||| u == 0x20 || u == 0x85 || u == 0xa0 || u == 0x1680
    ||| 0x2000 <= u <= 0x200a
    ||| u == 0x2028 || u == 0x2029 || u == 0x202f || u == 0x205f || u == 0x3000
}

/// What `char::is_alphanumeric` answers for a character
/// (Unicode `Alphabetic` or `Numeric`).
pub uninterp spec fn char_is_alphanumeric(c: char) -> bool;

/// What `str::to_lowercase` returns for a string.
pub uninterp spec fn str_to_lowercase(s: Seq<char>) -> Seq<char>;

/// Whether a character is white space (see `char_is_whitespace`).
pub fn is_whitespace(c: char) -> (b: bool)
    ensures
        b == char_is_whitespace(c),
{
    let u = c as u32;
    (0x09 <= u && u <= 0x0d) || u == 0x20 || u == 0x85 || u == 0xa0 || u == 0x1680
        || (0x2000 <= u && u <= 0x200a)
        || u == 0x2028 || u == 0x2029 || u == 0x202f || u == 0x205f || u == 0x3000
}

/// Calls `char::is_alphanumeric`; the result is named `char_is_alphanumeric`.
#[verifier::external_body]
pub(crate) fn is_alphanumeric(c: char) -> (b: bool)
    ensures
        b == char_is_alphanumeric(c),
{
    c.is_alphanumeric()
}

/// Calls `str::to_lowercase`; the result is named `str_to_lowercase`.
#[verifier::external_body]
pub(crate) fn to_lowercase(s: &str) -> (r: String)
    ensures
        r@ == str_to_lowercase(s@),
{
    s.to_lowercase()
}

/// Calls `String::push`, which appends one character.
#[verifier::external_body]
pub(crate) fn push_char(s: &mut String, c: char)
    ensures
        final(s)@ == old(s)@.push(c),
{
    s.push(c)
}

// ───────────────────────── byte lengths and tokens ─────────────────────────

/// Length in bytes of the UTF-8 encoding of a string, as `str::len` reports it.
pub open spec fn byte_len(s: Seq<char>) -> usize {
    encode_utf8(s).len() as usize
}

/// Rough token estimate: about four bytes of text per token.
pub fn estimate_tokens(text: &str) -> (n: usize)
    ensures
        n == byte_len(text@) / 4,
{
    text.len() / 4
}

/// `t` is `s` cut after its first `max_len` bytes, the cut marked with
/// `...`; or `s` itself when it has at most `max_len` bytes.
pub open spec fn is_truncation(s: Seq<char>, max_len: usize, t: Seq<char>) -> bool {
    &&& byte_len(s) <= max_len ==> t == s
    &&& byte_len(s) > max_len ==> {
        &&& t.len() >= 3
        &&& t.skip(t.len() - 3) == seq!['.', '.', '.']
        &&& encode_utf8(t.take(t.len() - 3)) == encode_utf8(s).subrange(0, max_len as int)
    }
}

/// Whether `s` can be cut after `max_len` bytes: it is no longer, or a
/// character starts there.
pub open spec fn can_truncate(s: Seq<char>, max_len: usize) -> bool {
    byte_len(s) > max_len ==> is_char_boundary(encode_utf8(s), max_len as int)
}

/// Cuts `s` after its first `max_len` bytes and marks the cut with `...`;
/// a string of at most `max_len` bytes comes back unchanged.
pub fn truncate_str(s: &str, max_len: usize) -> (r: String)
    requires
        can_truncate(s@, max_len),
    ensures
        is_truncation(s@, max_len, r@),
{
    if s.len() <= max_len {
        s.to_owned()
    } else {
        let (head, _tail) = s.split_at(max_len);
        let mut out = head.to_owned();
        push_char(&mut out, '.');
        push_char(&mut out, '.');
        push_char(&mut out, '.');
        assert(out@.take(out@.len() - 3) =~= head@);
        assert(out@.skip(out@.len() - 3) =~= seq!['.', '.', '.']);
        out
    }
}

// ───────────────────────── decimal rendering ─────────────────────────

pub open spec fn digit_char(d: nat) -> char {
    if d == 0 { '0' } else if d == 1 { '1' } else if d == 2 { '2' } else if d == 3 { '3' }
    else if d == 4 { '4' } else if d == 5 { '5' } else if d == 6 { '6' } else if d == 7 { '7' }
    else if d == 8 { '8' } else { '9' }
}

/// Decimal digits of a natural number, most significant first.
pub open spec fn decimal_nat(n: nat) -> Seq<char>
    decreases n,
{
    if n < 10 {
        seq![digit_char(n)]
    } else {
        decimal_nat(n / 10).push(digit_char(n % 10))
    }
}

/// Decimal rendering of an integer, with a leading `-` for negatives.
pub open spec fn decimal_int(n: int) -> Seq<char> {
    if n < 0 {
        seq!['-'] + decimal_nat((-n) as nat)
    } else {
        decimal_nat(n as nat)
    }
}

fn digit(d: u64) -> (c: char)
    requires
        d < 10,
    ensures
        c == digit_char(d as nat),
{
    if d == 0 { '0' } else if d == 1 { '1' } else if d == 2 { '2' } else if d == 3 { '3' }
    else if d == 4 { '4' } else if d == 5 { '5' } else if d == 6 { '6' } else if d == 7 { '7' }
    else if d == 8 { '8' } else { '9' }
}

fn push_decimal_nat(out: &mut String, n: u64)
    ensures
        final(out)@ == old(out)@ + decimal_nat(n as nat),
    decreases n,
{
    if n >= 10 {
        push_decimal_nat(out, n / 10);
    }
    push_char(out, digit(n % 10));
    assert(decimal_nat(n as nat) == if n < 10 { seq![digit_char(n as nat)] } else {
        decimal_nat((n / 10) as nat).push(digit_char((n % 10) as nat))
    });
}

/// Appends the decimal rendering of `n` to `out`.
pub fn push_decimal(out: &mut String, n: i64)
    ensures
        final(out)@ == old(out)@ + decimal_int(n as int),
{
    if n < 0 {
        push_char(out, '-');
        let m: u64 = (0i128 - n as i128) as u64;
        push_decimal_nat(out, m);
        assert(final(out)@ =~= old(out)@ + (seq!['-'] + decimal_nat(m as nat)));
    } else {
        push_decimal_nat(out, n as u64);
    }
}

/// The decimal rendering of an integer.
pub fn decimal(n: i64) -> (r: String)
    ensures
        r@ == decimal_int(n as int),
{
    let mut out = String::new();
    push_decimal(&mut out, n);
    assert(out@ =~= decimal_int(n as int));
    out
}


// ───────────────────────── words and search queries ─────────────────────────

/// Splitting state machine behind `words`: `cur` is the word being read,
/// `acc` the words already complete.
pub open spec fn split_words_from(s: Seq<char>, cur: Seq<char>, acc: Seq<Seq<char>>) -> Seq<Seq<char>>
    decreases s.len(),
{
    if s.len() == 0 {
        if cur.len() == 0 { acc } else { acc.push(cur) }
    } else if char_is_whitespace(s[0]) {
        split_words_from(s.drop_first(), seq![], if cur.len() == 0 { acc } else { acc.push(cur) })
    } else {
        split_words_from(s.drop_first(), cur.push(s[0]), acc)
    }
}

/// The maximal runs of non-whitespace characters of `s`, in order
/// (what `str::split_whitespace` yields).
pub open spec fn words(s: Seq<char>) -> Seq<Seq<char>> {
    split_words_from(s, seq![], seq![])
}

/// Splits `s` into its whitespace-separated words.
pub fn split_words(s: &str) -> (r: Vec<String>)
    ensures
        r.deep_view() == words(s@),
{
    let mut acc: Vec<String> = Vec::new();
    let mut cur = String::new();
    assert(s@.skip(0) =~= s@);
    assert(acc.deep_view() =~= Seq::<Seq<char>>::empty());
    assert(cur@ =~= Seq::<char>::empty());
    for c in it: s.chars()
        invariant
            it.seq() == s@,
            split_words_from(s@.skip(it.index() as int), cur@, acc.deep_view()) == words(s@),
    {
        let ghost i = it.index() as int;
        let ghost old_acc = acc.deep_view();
        assert(s@.skip(i).drop_first() =~= s@.skip(i + 1));
        assert(s@.skip(i)[0] == c);
        if is_whitespace(c) {
            if cur.as_str().unicode_len() > 0 {
                acc.push(cur);
                assert(acc.deep_view() =~= old_acc.push(cur@));
            }
            cur = String::new();
        } else {
            push_char(&mut cur, c);
        }
    }
    assert(s@.skip(s@.len() as int) =~= Seq::<char>::empty());
    if cur.as_str().unicode_len() > 0 {
        let ghost old_acc = acc.deep_view();
        acc.push(cur);
        assert(acc.deep_view() =~= old_acc.push(cur@));
    }
    acc
}

/// Whether a character survives the cleaning of a word: alphanumeric, or
/// with `extra` also `_` and `-`.
pub open spec fn keep_char(c: char, extra: bool) -> bool {
    char_is_alphanumeric(c) || (extra && (c == '_' || c == '-'))
}

/// The characters of `w` that `keep_char` keeps, in order.
pub open spec fn kept(w: Seq<char>, extra: bool) -> Seq<char>
    decreases w.len(),
{
    if w.len() == 0 {
        seq![]
    } else if keep_char(w.last(), extra) {
        kept(w.drop_last(), extra).push(w.last())
    } else {
        kept(w.drop_last(), extra)
    }
}

/// Keeps the alphanumeric characters of `w` (and `_`, `-` when `extra`).
pub fn keep_chars(w: &str, extra: bool) -> (r: String)
    ensures
        r@ == kept(w@, extra),
{
    let mut out = String::new();
    for c in it: w.chars()
        invariant
            it.seq() == w@,
            out@ == kept(w@.take(it.index() as int), extra),
    {
        let ghost i = it.index() as int;
        assert(w@.take(i + 1).drop_last() =~= w@.take(i));
        assert(w@.take(i + 1).last() == c);
        if is_alphanumeric(c) || (extra && (c == '_' || c == '-')) {
            push_char(&mut out, c);
        }
    }
    assert(w@.take(w@.len() as int) =~= w@);
    out
}

/// `w` between double quotes: an FTS5 string token.
pub open spec fn quoted(w: Seq<char>) -> Seq<char> {
    seq!['"'] + w + seq!['"']
}

pub fn quote(w: &str) -> (r: String)
    ensures
        r@ == quoted(w@),
{
    let mut out = String::new();
    push_char(&mut out, '"');
    out.append(w);
    push_char(&mut out, '"');
    assert(out@ =~= quoted(w@));
    out
}

pub open spec fn or_separator() -> Seq<char> {
    seq![' ', 'O', 'R', ' ']
}

/// The terms joined by ` OR `.
pub open spec fn join_or(terms: Seq<Seq<char>>) -> Seq<char>
    decreases terms.len(),
{
    if terms.len() == 0 {
        seq![]
    } else if terms.len() == 1 {
        terms[0]
    } else {
        join_or(terms.drop_last()) + or_separator() + terms.last()
    }
}

pub fn join_with_or(terms: &Vec<String>) -> (r: String)
    ensures
        r@ == join_or(terms.deep_view()),
{
    let mut out = String::new();
    let n = terms.len();
    let mut i: usize = 0;
    while i < n
        invariant
            n == terms.len(),
            i <= n,
            out@ == join_or(terms.deep_view().take(i as int)),
        decreases n - i,
    {
        let ghost tv = terms.deep_view();
        assert(tv.take(i + 1).drop_last() =~= tv.take(i as int));
        assert(tv.take(i + 1).last() == terms[i as int]@);
        if i == 0 {
            assert(tv.take(1) =~= seq![terms[0]@]);
        } else {
            out.append(" OR ");
            proof { reveal_strlit(" OR "); }
            assert(" OR "@ =~= or_separator());
        }
        out.append(terms[i].as_str());
        i = i + 1;
    }
    assert(terms.deep_view().take(n as int) =~= terms.deep_view());
    out
}

/// Character-wise equality of two strings.
pub fn str_equal(a: &str, b: &str) -> (r: bool)
    ensures
        r == (a@ == b@),
{
    let n = a.unicode_len();
    if n != b.unicode_len() {
        return false;
    }
    let mut i: usize = 0;
    while i < n
        invariant
            n == a@.len(),
            n == b@.len(),
            i <= n,
            forall|j: int| 0 <= j < i ==> a@[j] == b@[j],
        decreases n - i,
    {
        if a.get_char(i) != b.get_char(i) {
            return false;
        }
        i = i + 1;
    }
    assert(a@ =~= b@);
    true
}

/// The common English words that are never search terms.
pub open spec fn is_stop_word(w: Seq<char>) -> bool {
        w == "the"@
        || w == "and"@
        || w == "for"@
        || w == "are"@
        || w == "but"@
        || w == "not"@
        || w == "you"@
        || w == "all"@
        || w == "can"@
        || w == "had"@
        || w == "her"@
        || w == "was"@
        || w == "one"@
        || w == "our"@
        || w == "out"@
        || w == "has"@
        || w == "have"@
        || w == "with"@
        || w == "this"@
        || w == "that"@
        || w == "from"@
        || w == "they"@
        || w == "been"@
        || w == "said"@
        || w == "each"@
        || w == "which"@
        || w == "their"@
        || w == "will"@
        || w == "other"@
        || w == "about"@
        || w == "many"@
        || w == "then"@
        || w == "them"@
        || w == "these"@
        || w == "some"@
        || w == "would"@
        || w == "make"@
        || w == "like"@
        || w == "into"@
        || w == "could"@
        || w == "time"@
        || w == "very"@
        || w == "when"@
        || w == "what"@
        || w == "your"@
        || w == "how"@
}

pub fn stop_word(w: &str) -> (r: bool)
    ensures
        r == is_stop_word(w@),
{
    str_equal(w, "the")
    || str_equal(w, "and")
    || str_equal(w, "for")
    || str_equal(w, "are")
    || str_equal(w, "but")
    || str_equal(w, "not")
    || str_equal(w, "you")
    || str_equal(w, "all")
    || str_equal(w, "can")
    || str_equal(w, "had")
    || str_equal(w, "her")
    || str_equal(w, "was")
    || str_equal(w, "one")
    || str_equal(w, "our")
    || str_equal(w, "out")
    || str_equal(w, "has")
    || str_equal(w, "have")
    || str_equal(w, "with")
    || str_equal(w, "this")
    || str_equal(w, "that")
    || str_equal(w, "from")
    || str_equal(w, "they")
    || str_equal(w, "been")
    || str_equal(w, "said")
    || str_equal(w, "each")
    || str_equal(w, "which")
    || str_equal(w, "their")
    || str_equal(w, "will")
    || str_equal(w, "other")
    || str_equal(w, "about")
    || str_equal(w, "many")
    || str_equal(w, "then")
    || str_equal(w, "them")
    || str_equal(w, "these")
    || str_equal(w, "some")
    || str_equal(w, "would")
    || str_equal(w, "make")
    || str_equal(w, "like")
    || str_equal(w, "into")
    || str_equal(w, "could")
    || str_equal(w, "time")
    || str_equal(w, "very")
    || str_equal(w, "when")
    || str_equal(w, "what")
    || str_equal(w, "your")
    || str_equal(w, "how")
}

/// Terms taken from the words of a query: each word cleaned to its
/// alphanumeric, `_` and `-` characters; kept, quoted, when its lowercase
/// form has at least two bytes and is not a stop word.
pub open spec fn primary_terms(ws: Seq<Seq<char>>) -> Seq<Seq<char>>
    decreases ws.len(),
{
    if ws.len() == 0 {
        seq![]
    } else {
        let clean = kept(ws.last(), true);
        let lower = str_to_lowercase(clean);
        if byte_len(lower) >= 2 && !is_stop_word(lower) {
            primary_terms(ws.drop_last()).push(quoted(clean))
        } else {
            primary_terms(ws.drop_last())
        }
    }
}

/// Terms taken from words cleaned to their alphanumeric characters, empty
/// ones dropped, each quoted.
pub open spec fn plain_terms(ws: Seq<Seq<char>>) -> Seq<Seq<char>>
    decreases ws.len(),
{
    if ws.len() == 0 {
        seq![]
    } else if kept(ws.last(), false).len() > 0 {
        plain_terms(ws.drop_last()).push(quoted(kept(ws.last(), false)))
    } else {
        plain_terms(ws.drop_last())
    }
}

/// The text searched for: the query, then the context after a space.
pub open spec fn combined_query(query: Seq<char>, context: Option<Seq<char>>) -> Seq<char> {
    match context {
        Some(c) => query + seq![' '] + c,
        None => query,
    }
}

/// The FTS5 query built from a natural-language query and optional context:
/// the primary terms of both, or failing any, the plain terms of the query
/// alone, joined by ` OR `; `"*"` when there is no term at all.
pub open spec fn fts_query(query: Seq<char>, context: Option<Seq<char>>) -> Seq<char> {
    let primary = primary_terms(words(combined_query(query, context)));
    let terms = if primary.len() > 0 { primary } else { plain_terms(words(query)) };
    if terms.len() == 0 {
        seq!['"', '*', '"']
    } else {
        join_or(terms)
    }
}

pub fn primary_search_terms(ws: &Vec<String>) -> (r: Vec<String>)
    ensures
        r.deep_view() == primary_terms(ws.deep_view()),
{
    let mut out: Vec<String> = Vec::new();
    let n = ws.len();
    let mut i: usize = 0;
    while i < n
        invariant
            n == ws.len(),
            i <= n,
            out.deep_view() == primary_terms(ws.deep_view().take(i as int)),
        decreases n - i,
    {
        let ghost wv = ws.deep_view();
        assert(wv.take(i + 1).drop_last() =~= wv.take(i as int));
        assert(wv.take(i + 1).last() == ws[i as int]@);
        let clean = keep_chars(ws[i].as_str(), true);
        let lower = to_lowercase(clean.as_str());
        if lower.as_str().len() >= 2 && !stop_word(lower.as_str()) {
            let ghost before = out.deep_view();
            out.push(quote(clean.as_str()));
            assert(out.deep_view() =~= before.push(quoted(clean@)));
        }
        i = i + 1;
    }
    assert(ws.deep_view().take(n as int) =~= ws.deep_view());
    out
}

pub fn plain_search_terms(ws: &Vec<String>) -> (r: Vec<String>)
    ensures
        r.deep_view() == plain_terms(ws.deep_view()),
{
    let mut out: Vec<String> = Vec::new();
    let n = ws.len();
    let mut i: usize = 0;
    while i < n
        invariant
            n == ws.len(),
            i <= n,
            out.deep_view() == plain_terms(ws.deep_view().take(i as int)),
        decreases n - i,
    {
        let ghost wv = ws.deep_view();
        assert(wv.take(i + 1).drop_last() =~= wv.take(i as int));
        assert(wv.take(i + 1).last() == ws[i as int]@);
        let clean = keep_chars(ws[i].as_str(), false);
        if clean.as_str().unicode_len() > 0 {
            let ghost before = out.deep_view();
            out.push(quote(clean.as_str()));
            assert(out.deep_view() =~= before.push(quoted(clean@)));
        }
        i = i + 1;
    }
    assert(ws.deep_view().take(n as int) =~= ws.deep_view());
    out
}

/// Builds the FTS5 query for a natural-language query and its optional
/// context (see `fts_query`).
pub fn build_fts_query(query: &str, context: Option<&str>) -> (r: String)
    ensures
        r@ == fts_query(query@, match context { Some(c) => Some(c@), None => None }),
{
    let ghost ctx = match context { Some(c) => Some(c@), None => None };
    let mut combined = query.to_owned();
    match context {
        Some(c) => {
            push_char(&mut combined, ' ');
            combined.append(c);
        },
        None => {},
    }
    assert(combined@ =~= combined_query(query@, ctx));
    let primary = primary_search_terms(&split_words(combined.as_str()));
    let terms = if primary.len() > 0 {
        primary
    } else {
        plain_search_terms(&split_words(query))
    };
    if terms.len() == 0 {
        let mut star = String::new();
        push_char(&mut star, '"');
        push_char(&mut star, '*');
        push_char(&mut star, '"');
        assert(star@ =~= seq!['"', '*', '"']);
        star
    } else {
        join_with_or(&terms)
    }
}

/// A term between double quotes.
pub open spec fn is_quoted_term(t: Seq<char>) -> bool {
    t.len() >= 2 && t[0] == '"' && t.last() == '"'
}

proof fn lemma_primary_terms_quoted(ws: Seq<Seq<char>>)
    ensures
        forall|i: int| 0 <= i < primary_terms(ws).len() ==> is_quoted_term(#[trigger] primary_terms(ws)[i]),
    decreases ws.len(),
{
    if ws.len() > 0 {
        let rest = primary_terms(ws.drop_last());
        lemma_primary_terms_quoted(ws.drop_last());
        let q = quoted(kept(ws.last(), true));
        assert(q[0] == '"' && q[q.len() - 1] == '"');
        assert forall|i: int| 0 <= i < primary_terms(ws).len() implies is_quoted_term(#[trigger] primary_terms(ws)[i]) by {
            if i < rest.len() {
                assert(primary_terms(ws)[i] == rest[i]);
            }
        }
    }
}

proof fn lemma_plain_terms_quoted(ws: Seq<Seq<char>>)
    ensures
        forall|i: int| 0 <= i < plain_terms(ws).len() ==> is_quoted_term(#[trigger] plain_terms(ws)[i]),
    decreases ws.len(),
{
    if ws.len() > 0 {
        let rest = plain_terms(ws.drop_last());
        lemma_plain_terms_quoted(ws.drop_last());
        let q = quoted(kept(ws.last(), false));
        assert(q[0] == '"' && q[q.len() - 1] == '"');
        assert forall|i: int| 0 <= i < plain_terms(ws).len() implies is_quoted_term(#[trigger] plain_terms(ws)[i]) by {
            if i < rest.len() {
                assert(plain_terms(ws)[i] == rest[i]);
            }
        }
    }
}

proof fn lemma_join_or_quoted(terms: Seq<Seq<char>>)
    requires
        terms.len() > 0,
        forall|i: int| 0 <= i < terms.len() ==> is_quoted_term(#[trigger] terms[i]),
    ensures
        is_quoted_term(join_or(terms)),
        join_or(terms)[0] == terms[0][0],
    decreases terms.len(),
{
    if terms.len() > 1 {
        let init = terms.drop_last();
        assert(is_quoted_term(init[0]));
        lemma_join_or_quoted(init);
        let j = join_or(init) + or_separator() + terms.last();
        assert(is_quoted_term(terms[terms.len() - 1]));
        assert(j[0] == join_or(init)[0]);
        assert(j.last() == terms.last().last());
    }
}

/// The FTS5 query is never empty: it is one or more quoted terms joined by
/// ` OR `, so it starts and ends with a double quote.
pub proof fn lemma_fts_query_quoted(query: Seq<char>, context: Option<Seq<char>>)
    ensures
        is_quoted_term(fts_query(query, context)),
{
    let primary = primary_terms(words(combined_query(query, context)));
    lemma_primary_terms_quoted(words(combined_query(query, context)));
    lemma_plain_terms_quoted(words(query));
    let terms = if primary.len() > 0 { primary } else { plain_terms(words(query)) };
    if terms.len() > 0 {
        lemma_join_or_quoted(terms);
    }
}

} // verus!

