//! Code-aware tokenization for the lexical index.
//!
//! Text is cut into words at every character that is not alphanumeric
//! (underscores and hyphens included), and each word is cut again at
//! camelCase transitions (`userConfig` → `user`, `config`) and at the end of
//! an acronym followed by a word (`HTTPServer` → `http`, `server`). Tokens
//! are lowercased. Offsets count characters.
use vstd::prelude::*;
use vstd::string::*;
use crate::model::{lowercase, lowercase_of};

verus! {

/// What `char::is_alphanumeric` returns for a character.
pub uninterp spec fn alnum_of(c: char) -> bool;

/// Relies on `char::is_alphanumeric` (Unicode alphabetic or numeric): the
/// result depends on the character alone.
#[verifier::external_body]
fn is_alnum(c: char) -> (r: bool)
    ensures
        r == alnum_of(c),
{
    c.is_alphanumeric()
}

/// ASCII lowercase letter.
pub open spec fn lower(c: char) -> bool {
    'a' <= c <= 'z'
}

/// ASCII uppercase letter.
pub open spec fn upper(c: char) -> bool {
    'A' <= c <= 'Z'
}

/// ASCII digit.
pub open spec fn digit(c: char) -> bool {
    '0' <= c <= '9'
}

/// An identifier character: alphanumeric, underscore or hyphen.
pub open spec fn identifier_char(c: char) -> bool {
    alnum_of(c) || c == '_' || c == '-'
}

/// A camelCase cut before position `j`: lower or digit then upper, or the
/// last capital of an acronym that a lowercase letter follows.
pub open spec fn camel_cut(s: Seq<char>, j: int) -> bool {
    0 < j < s.len() && (((lower(s[j - 1]) || digit(s[j - 1])) && upper(s[j])) || (upper(s[j - 1])
        && upper(s[j]) && j + 1 < s.len() && lower(s[j + 1])))
}

/// A token starts at position `j`.
pub open spec fn starts_token(s: Seq<char>, j: int) -> bool {
    0 <= j < s.len() && alnum_of(s[j]) && (j == 0 || !alnum_of(s[j - 1]) || camel_cut(s, j))
}

/// First position at or after `e` where a token that runs through `e - 1` ends.
pub open spec fn end_from(s: Seq<char>, e: int) -> int
    decreases s.len() - e,
{
    if e >= s.len() || e < 0 || !alnum_of(s[e]) || camel_cut(s, e) {
        e
    } else {
        end_from(s, e + 1)
    }
}

/// The spans `(from, to)` of the tokens that start at or after `j`.
pub open spec fn spans_from(s: Seq<char>, j: int) -> Seq<(int, int)>
    decreases s.len() - j,
{
    if j >= s.len() || j < 0 {
        Seq::empty()
    } else if starts_token(s, j) {
        seq![(j, end_from(s, j + 1))] + spans_from(s, j + 1)
    } else {
        spans_from(s, j + 1)
    }
}

/// The token spans of a text.
pub open spec fn token_spans(s: Seq<char>) -> Seq<(int, int)> {
    spans_from(s, 0)
}

/// One token: its character span, its place among the tokens, and its text.
pub struct CodeToken {
    pub offset_from: usize,
    pub offset_to: usize,
    pub position: usize,
    pub text: String,
}

/// The token list `t` is the tokenization of `s`.
pub open spec fn is_tokenization(s: Seq<char>, t: Seq<CodeToken>) -> bool {
    let sp = token_spans(s);
    &&& t.len() == sp.len()
    &&& forall|i: int| 0 <= i < t.len() ==> {
        &&& (#[trigger] t[i]).offset_from == sp[i].0
        &&& t[i].offset_to == sp[i].1
        &&& t[i].position == i
        &&& t[i].text@ == lowercase_of(s.subrange(sp[i].0, sp[i].1))
    }
}

proof fn lemma_end_from_bounds(s: Seq<char>, e: int)
    requires
        0 <= e <= s.len(),
    ensures
        e <= end_from(s, e) <= s.len(),
    decreases s.len() - e,
{
    if !(e >= s.len() || !alnum_of(s[e]) || camel_cut(s, e)) {
        lemma_end_from_bounds(s, e + 1);
    }
}

fn is_lower(c: char) -> (r: bool)
    ensures
        r == lower(c),
{
    'a' <= c && c <= 'z'
}

fn is_upper(c: char) -> (r: bool)
    ensures
        r == upper(c),
{
    'A' <= c && c <= 'Z'
}

fn is_digit(c: char) -> (r: bool)
    ensures
        r == digit(c),
{
    '0' <= c && c <= '9'
}

/// Whether a camelCase cut lies before position `j`.
fn camel_cut_at(text: &str, n: usize, j: usize) -> (r: bool)
    requires
        n == text@.len(),
        j < n,
    ensures
        r == camel_cut(text@, j as int),
{
    if j == 0 {
        return false;
    }
    let prev = text.get_char(j - 1);
    let cur = text.get_char(j);
    if (is_lower(prev) || is_digit(prev)) && is_upper(cur) {
        return true;
    }
    if is_upper(prev) && is_upper(cur) && j + 1 < n {
        let next = text.get_char(j + 1);
        return is_lower(next);
    }
    false
}

/// Splits `text` into code tokens.
pub fn tokenize_code(text: &str) -> (r: Vec<CodeToken>)
    ensures
        is_tokenization(text@, r@),
{
    let ghost s = text@;
    let n = text.unicode_len();
    let mut out: Vec<CodeToken> = Vec::new();
    let mut i: usize = 0;
    while i < n
        invariant
            s == text@,
            n == s.len(),
            i <= n,
            token_spans(s) == out@.map_values(|t: CodeToken| (t.offset_from as int, t.offset_to as int)) + spans_from(s, i as int),
            forall|k: int| 0 <= k < out@.len() ==> {
                &&& (#[trigger] out@[k]).position == k
                &&& 0 <= out@[k].offset_from <= out@[k].offset_to <= s.len()
                &&& out@[k].text@ == lowercase_of(s.subrange(out@[k].offset_from as int, out@[k].offset_to as int))
            },
        decreases n - i,
    {
        let c = text.get_char(i);
        let start = is_alnum(c) && (i == 0 || !is_alnum(text.get_char(i - 1)) || camel_cut_at(text, n, i));
        proof {
            assert(start == starts_token(s, i as int));
        }
        if start {
            let mut e: usize = i + 1;
            while e < n && is_alnum(text.get_char(e)) && !camel_cut_at(text, n, e)
                invariant
                    s == text@,
                    n == s.len(),
                    i < e <= n,
                    end_from(s, i + 1) == end_from(s, e as int),
                decreases n - e,
            {
                e = e + 1;
            }
            proof {
                assert(end_from(s, e as int) == e);
            }
            let piece = text.substring_char(i, e);
            let lowered = lowercase(piece);
            let tok = CodeToken { offset_from: i, offset_to: e, position: out.len(), text: lowered };
            let ghost o = out@;
            out.push(tok);
            proof {
                let f = |t: CodeToken| (t.offset_from as int, t.offset_to as int);
                assert(out@.map_values(f) =~= o.map_values(f).push((i as int, e as int)));
                assert(spans_from(s, i as int) == seq![(i as int, e as int)] + spans_from(s, i + 1));
                assert(o.map_values(f) + spans_from(s, i as int) =~= out@.map_values(f) + spans_from(s, i + 1));
            }
        } else {
            proof {
                assert(spans_from(s, i as int) == spans_from(s, i + 1));
            }
        }
        i = i + 1;
    }
    proof {
        let f = |t: CodeToken| (t.offset_from as int, t.offset_to as int);
        assert(spans_from(s, n as int) =~= Seq::<(int, int)>::empty());
        assert(token_spans(s) =~= out@.map_values(f));
        assert forall|k: int| 0 <= k < out@.len() implies {
            &&& (#[trigger] out@[k]).offset_from == token_spans(s)[k].0
            &&& out@[k].offset_to == token_spans(s)[k].1
        } by {
            assert(token_spans(s)[k] == out@.map_values(f)[k]);
        }
    }
    out
}

/// Tokenizer for code identifiers.
pub struct CodeTokenizer;

/// The tokens of one text, handed out one at a time.
pub struct CodeTokenStream {
    pub tokens: Vec<CodeToken>,
    pub current: CodeToken,
    pub index: usize,
}

/// Copies a token.
fn copy_token(t: &CodeToken) -> (r: CodeToken)
    ensures
        r.offset_from == t.offset_from,
        r.offset_to == t.offset_to,
        r.position == t.position,
        r.text@ == t.text@,
{
    CodeToken { offset_from: t.offset_from, offset_to: t.offset_to, position: t.position, text: t.text.clone() }
}

impl CodeTokenizer {
    /// A stream over the tokens of `text`, before its first token.
    pub fn token_stream(&mut self, text: &str) -> (r: CodeTokenStream)
        ensures
            is_tokenization(text@, r.tokens@),
            r.index == 0,
    {
        let tokens = tokenize_code(text);
        CodeTokenStream {
            tokens,
            current: CodeToken { offset_from: 0, offset_to: 0, position: 0, text: String::new() },
            index: 0,
        }
    }
}

impl CodeTokenStream {
    /// Moves to the next token; false when there is none left.
    pub fn advance(&mut self) -> (r: bool)
        ensures
            final(self).tokens@ == old(self).tokens@,
            r == (old(self).index < old(self).tokens@.len()),
            r ==> final(self).index == old(self).index + 1 && final(self).current.text@
                == old(self).tokens@[old(self).index as int].text@
                && final(self).current.offset_from == old(self).tokens@[old(self).index as int].offset_from
                && final(self).current.offset_to == old(self).tokens@[old(self).index as int].offset_to
                && final(self).current.position == old(self).tokens@[old(self).index as int].position,
            !r ==> final(self).index == old(self).index,
    {
        if self.index < self.tokens.len() {
            self.current = copy_token(&self.tokens[self.index]);
            self.index = self.index + 1;
            true
        } else {
            false
        }
    }

    /// The current token.
    pub fn token(&self) -> (r: &CodeToken)
        ensures
            r == &self.current,
    {
        &self.current
    }
}

} // verus!
