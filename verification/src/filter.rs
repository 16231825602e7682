//! The filter-query language: a lexer and recursive-descent parser for
//! boolean queries over log lines, and an evaluator that decides pass/fail
//! and reports the character ranges responsible for a pass.
//!
//! Grammar, precedence low to high (juxtaposition of atoms means AND):
//! ```text
//! Expression := OrTerm
//! OrTerm     := AndTerm ( "OR" AndTerm )*
//! AndTerm    := NotTerm ( ["AND"] NotTerm )*
//! NotTerm    := ["NOT" | "-"] Atom
//! Atom       := QuotedPhrase | RegexLiteral | BareWord | "(" Expression ")"
//! ```
//! A quoted phrase and a bare word match as case-insensitive substrings; a
//! `/.../` literal matches as a regular expression. `AND`, `OR` and `NOT`
//! are case-insensitive keywords when they stand alone outside quotes.
use vstd::prelude::*;

use crate::rx;
use crate::text::{
    ci_contains, ci_contains_exec, ci_find_all, ci_positions, find_char_from, is_space_char,
};

verus! {

/// A lexical error or grammar error in a query string, with the character
/// offset it was noticed at. The message is surfaced verbatim to the user.
#[derive(Debug)]
pub struct ParseError {
    pub position: usize,
    pub message: String,
}

/// One token of the query language, carrying the character offset it
/// started at (used only for error reporting).
pub enum TokenKind {
    LParen,
    RParen,
    OrOp,
    AndOp,
    NotOp,
    Word(String),
    Phrase(String),
    Pattern(String),
}

pub struct Token {
    pub kind: TokenKind,
    pub pos: usize,
}

/// The mathematical shadow of a token: its text as a character sequence.
pub enum TokView {
    LParen,
    RParen,
    OrOp,
    AndOp,
    NotOp,
    Word(Seq<char>),
    Phrase(Seq<char>),
    Pattern(Seq<char>),
}

impl View for TokenKind {
    type V = TokView;

    open spec fn view(&self) -> TokView {
        match self {
            TokenKind::LParen => TokView::LParen,
            TokenKind::RParen => TokView::RParen,
            TokenKind::OrOp => TokView::OrOp,
            TokenKind::AndOp => TokView::AndOp,
            TokenKind::NotOp => TokView::NotOp,
            TokenKind::Word(w) => TokView::Word(w@),
            TokenKind::Phrase(p) => TokView::Phrase(p@),
            TokenKind::Pattern(p) => TokView::Pattern(p@),
        }
    }
}

pub open spec fn tok_views(ts: Seq<Token>) -> Seq<TokView> {
    ts.map_values(|t: Token| t.kind@)
}

/// Characters that end a bare word: blanks and the four structural
/// characters of the language.
pub open spec fn is_word_delim(c: char) -> bool {
    is_space_char(c) || c == '(' || c == ')' || c == '"' || c == '/'
}

/// The end of the bare word starting at `i`: the first delimiter at or
/// after `i`, or the end of the string.
pub open spec fn word_end(s: Seq<char>, i: int) -> int
    decreases s.len() - i,
{
    if i < 0 || i >= s.len() {
        s.len() as int
    } else if is_word_delim(s[i]) {
        i
    } else {
        word_end(s, i + 1)
    }
}

/// A bare word that spells AND, OR or NOT in any casing is an operator;
/// any other word is a literal.
pub open spec fn classify_word(w: Seq<char>) -> TokView {
    if crate::text::lower_seq(w) == seq!['a', 'n', 'd'] {
        TokView::AndOp
    } else if crate::text::lower_seq(w) == seq!['o', 'r'] {
        TokView::OrOp
    } else if crate::text::lower_seq(w) == seq!['n', 'o', 't'] {
        TokView::NotOp
    } else {
        TokView::Word(w)
    }
}

pub open spec fn lex_cons(t: TokView, rest: Option<Seq<TokView>>) -> Option<Seq<TokView>> {
    match rest {
        Option::Some(r) => Option::Some(seq![t] + r),
        Option::None => Option::None,
    }
}

/// The token sequence of `s` from offset `i` on; `None` on an unterminated
/// quote or regex delimiter.
pub open spec fn spec_lex(s: Seq<char>, i: int) -> Option<Seq<TokView>>
    decreases s.len() - i,
{
    if i < 0 || i >= s.len() {
        Option::Some(Seq::empty())
    } else if is_space_char(s[i]) {
        spec_lex(s, i + 1)
    } else if s[i] == '(' {
        lex_cons(TokView::LParen, spec_lex(s, i + 1))
    } else if s[i] == ')' {
        lex_cons(TokView::RParen, spec_lex(s, i + 1))
    } else if s[i] == '-' {
        lex_cons(TokView::NotOp, spec_lex(s, i + 1))
    } else if s[i] == '"' {
        match find_char_from(s, i + 1, '"') {
            Option::Some(j) => if i < j && j < s.len() {
                lex_cons(TokView::Phrase(s.subrange(i + 1, j)), spec_lex(s, j + 1))
            } else {
                Option::None
            },
            Option::None => Option::None,
        }
    } else if s[i] == '/' {
        match find_char_from(s, i + 1, '/') {
            Option::Some(j) => if i < j && j < s.len() {
                lex_cons(TokView::Pattern(s.subrange(i + 1, j)), spec_lex(s, j + 1))
            } else {
                Option::None
            },
            Option::None => Option::None,
        }
    } else {
        let j = word_end(s, i);
        if i < j && j <= s.len() {
            lex_cons(classify_word(s.subrange(i, j)), spec_lex(s, j))
        } else {
            Option::None
        }
    }
}

/// `word_end` stays within bounds and moves strictly forward over a
/// non-delimiter character.
proof fn lemma_word_end(s: Seq<char>, i: int)
    requires
        0 <= i <= s.len(),
    ensures
        i <= word_end(s, i) <= s.len(),
        forall|k: int| i <= k < word_end(s, i) ==> !is_word_delim(s[k]),
        word_end(s, i) < s.len() ==> is_word_delim(s[word_end(s, i)]),
    decreases s.len() - i,
{
    if i < s.len() && !is_word_delim(s[i]) {
        lemma_word_end(s, i + 1);
    }
}

fn exec_is_word_delim(c: char) -> (r: bool)
    ensures
        r == is_word_delim(c),
{
    crate::text::exec_is_space(c) || c == '(' || c == ')' || c == '"' || c == '/'
}

fn mk_err(position: usize, msg: &str) -> (r: ParseError)
    ensures
        r.position == position,
        r.message@ == msg@,
{
    ParseError { position, message: msg.to_owned() }
}

/// Decide whether `w` spells one of the three keywords, in any casing.
fn classify_exec(w: String) -> (r: TokenKind)
    ensures
        r@ == classify_word(w@),
{
    let n = w.as_str().unicode_len();
    if n == 3 {
        let c0 = crate::text::exec_lower_char(w.as_str().get_char(0));
        let c1 = crate::text::exec_lower_char(w.as_str().get_char(1));
        let c2 = crate::text::exec_lower_char(w.as_str().get_char(2));
        if c0 == 'a' && c1 == 'n' && c2 == 'd' {
            assert(crate::text::lower_seq(w@) =~= seq!['a', 'n', 'd']);
            return TokenKind::AndOp;
        }
        if c0 == 'n' && c1 == 'o' && c2 == 't' {
            assert(crate::text::lower_seq(w@) =~= seq!['n', 'o', 't']);
            assert(crate::text::lower_seq(w@) != seq!['a', 'n', 'd']);
            assert(crate::text::lower_seq(w@).len() == 3);
            return TokenKind::NotOp;
        }
        proof {
            assert(crate::text::lower_seq(w@).len() == 3);
            if crate::text::lower_seq(w@) == seq!['a', 'n', 'd'] {
                assert(crate::text::lower_seq(w@)[0] == 'a' && crate::text::lower_seq(w@)[1]
                    == 'n' && crate::text::lower_seq(w@)[2] == 'd');
            }
            if crate::text::lower_seq(w@) == seq!['n', 'o', 't'] {
                assert(crate::text::lower_seq(w@)[0] == 'n' && crate::text::lower_seq(w@)[1]
                    == 'o' && crate::text::lower_seq(w@)[2] == 't');
            }
        }
        return TokenKind::Word(w);
    }
    if n == 2 {
        let c0 = crate::text::exec_lower_char(w.as_str().get_char(0));
        let c1 = crate::text::exec_lower_char(w.as_str().get_char(1));
        if c0 == 'o' && c1 == 'r' {
            assert(crate::text::lower_seq(w@) =~= seq!['o', 'r']);
            assert(crate::text::lower_seq(w@).len() == 2);
            return TokenKind::OrOp;
        }
        proof {
            assert(crate::text::lower_seq(w@).len() == 2);
            if crate::text::lower_seq(w@) == seq!['o', 'r'] {
                assert(crate::text::lower_seq(w@)[0] == 'o' && crate::text::lower_seq(w@)[1]
                    == 'r');
            }
        }
        return TokenKind::Word(w);
    }
    proof {
        assert(crate::text::lower_seq(w@).len() == w@.len());
    }
    TokenKind::Word(w)
}

/// Turn a query string into tokens. Fails on an unterminated quote or an
/// unterminated regex delimiter.
pub fn lex(s: &str) -> (r: Result<Vec<Token>, ParseError>)
    ensures
        match r {
            Result::Ok(toks) => spec_lex(s@, 0) == Option::Some(tok_views(toks@)),
            Result::Err(_) => spec_lex(s@, 0) is None,
        },
{
    let n = s.unicode_len();
    let mut toks: Vec<Token> = Vec::new();
    let mut i: usize = 0;
    while i < n
        invariant
            n == s@.len(),
            0 <= i <= n,
            match spec_lex(s@, i as int) {
                Option::Some(rest) => spec_lex(s@, 0) == Option::Some(tok_views(toks@) + rest),
                Option::None => spec_lex(s@, 0) is None,
            },
        decreases n - i,
    {
        let ghost prev = toks@;
        let ghost iold = i as int;
        let c = s.get_char(i);
        if crate::text::exec_is_space(c) {
            i += 1;
        } else if c == '(' {
            toks.push(Token { kind: TokenKind::LParen, pos: i });
            i += 1;
            proof {
                lemma_lex_inv_step(s@, prev, toks@, iold, i as int);
            }
        } else if c == ')' {
            toks.push(Token { kind: TokenKind::RParen, pos: i });
            i += 1;
            proof {
                lemma_lex_inv_step(s@, prev, toks@, iold, i as int);
            }
        } else if c == '-' {
            toks.push(Token { kind: TokenKind::NotOp, pos: i });
            i += 1;
            proof {
                lemma_lex_inv_step(s@, prev, toks@, iold, i as int);
            }
        } else if c == '"' || c == '/' {
            let mut j: usize = i + 1;
            loop
                invariant_except_break
                    n == s@.len(),
                    i + 1 <= j <= n,
                    find_char_from(s@, i + 1, c) == find_char_from(s@, j as int, c),
                ensures
                    i + 1 <= j <= n,
                    find_char_from(s@, i + 1, c) == if j < n {
                        Option::Some(j as int)
                    } else {
                        Option::<int>::None
                    },
                    j < n ==> s@[j as int] == c,
                decreases n - j,
            {
                if j >= n {
                    assert(find_char_from(s@, j as int, c) is None);
                    break;
                }
                let cj = s.get_char(j);
                if cj == c {
                    assert(find_char_from(s@, j as int, c) == Option::Some(j as int));
                    break;
                }
                j += 1;
            }
            if j >= n {
                let m = if c == '"' {
                    "unterminated quote"
                } else {
                    "unterminated regex"
                };
                return Result::Err(mk_err(i, m));
            }
            let body = s.substring_char(i + 1, j);
            let tok = if c == '"' {
                TokenKind::Phrase(body.to_owned())
            } else {
                TokenKind::Pattern(body.to_owned())
            };
            toks.push(Token { kind: tok, pos: i });
            i = j + 1;
            proof {
                lemma_lex_inv_step(s@, prev, toks@, iold, i as int);
            }
        } else {
            assert(!is_word_delim(s@[i as int]));
            let mut j: usize = i;
            loop
                invariant_except_break
                    n == s@.len(),
                    i <= j <= n,
                    word_end(s@, i as int) == word_end(s@, j as int),
                ensures
                    i <= j <= n,
                    word_end(s@, i as int) == j as int,
                decreases n - j,
            {
                if j >= n {
                    assert(word_end(s@, j as int) == j as int);
                    break;
                }
                let cj = s.get_char(j);
                if exec_is_word_delim(cj) {
                    assert(word_end(s@, j as int) == j as int);
                    break;
                }
                j += 1;
            }
            assert(i < j) by {
                lemma_word_end(s@, i as int);
            }
            let body = s.substring_char(i, j);
            let tok = classify_exec(body.to_owned());
            toks.push(Token { kind: tok, pos: i });
            i = j;
            proof {
                lemma_lex_inv_step(s@, prev, toks@, iold, i as int);
            }
        }
    }
    assert(spec_lex(s@, i as int) == Option::Some(Seq::<TokView>::empty()));
    assert(tok_views(toks@) + Seq::<TokView>::empty() =~= tok_views(toks@));
    Result::Ok(toks)
}

/// The filter expression tree. Each node owns its children outright; a
/// literal matches as a case-insensitive substring or, with `is_regex`, as
/// a regular expression.
pub enum FilterExpr {
    Literal { pattern: String, is_regex: bool },
    And(Box<FilterExpr>, Box<FilterExpr>),
    Or(Box<FilterExpr>, Box<FilterExpr>),
    Not(Box<FilterExpr>),
    Group(Box<FilterExpr>),
}

/// The mathematical shadow of a filter expression.
pub enum SpecExpr {
    SubStr(Seq<char>),
    Pattern(Seq<char>),
    And(Box<SpecExpr>, Box<SpecExpr>),
    Or(Box<SpecExpr>, Box<SpecExpr>),
    Not(Box<SpecExpr>),
    Group(Box<SpecExpr>),
}

/// The view of an expression tree, node by node.
pub open spec fn expr_view(e: &FilterExpr) -> SpecExpr
    decreases e,
{
    match e {
        FilterExpr::Literal { pattern, is_regex } => if *is_regex {
            SpecExpr::Pattern(pattern@)
        } else {
            SpecExpr::SubStr(pattern@)
        },
        FilterExpr::And(a, b) => SpecExpr::And(Box::new(expr_view(a)), Box::new(expr_view(b))),
        FilterExpr::Or(a, b) => SpecExpr::Or(Box::new(expr_view(a)), Box::new(expr_view(b))),
        FilterExpr::Not(a) => SpecExpr::Not(Box::new(expr_view(a))),
        FilterExpr::Group(a) => SpecExpr::Group(Box::new(expr_view(a))),
    }
}

impl View for FilterExpr {
    type V = SpecExpr;

    open spec fn view(&self) -> SpecExpr {
        expr_view(self)
    }
}

/// Every regex literal in the expression is a pattern the engine accepts.
/// Expressions built by `parse_filter` always satisfy this.
pub open spec fn spec_wf(e: SpecExpr) -> bool
    decreases e,
{
    match e {
        SpecExpr::SubStr(_) => true,
        SpecExpr::Pattern(p) => rx::regex_ok(p),
        SpecExpr::And(a, b) => spec_wf(*a) && spec_wf(*b),
        SpecExpr::Or(a, b) => spec_wf(*a) && spec_wf(*b),
        SpecExpr::Not(a) => spec_wf(*a),
        SpecExpr::Group(a) => spec_wf(*a),
    }
}

/// Whether the expression holds of `line`. A substring literal tests
/// case-insensitive containment; a regex literal tests whether the engine
/// finds a match; AND, OR, NOT are boolean; a group is transparent.
pub open spec fn spec_eval(e: SpecExpr, line: Seq<char>) -> bool
    decreases e,
{
    match e {
        SpecExpr::SubStr(p) => ci_contains(line, p),
        SpecExpr::Pattern(p) => rx::regex_ranges(p, line).len() > 0,
        SpecExpr::And(a, b) => spec_eval(*a, line) && spec_eval(*b, line),
        SpecExpr::Or(a, b) => spec_eval(*a, line) || spec_eval(*b, line),
        SpecExpr::Not(a) => !spec_eval(*a, line),
        SpecExpr::Group(a) => spec_eval(*a, line),
    }
}

/// The character ranges a positive evaluation rests on, bottom-up: a
/// literal reports every place it matches; under AND both sides' ranges
/// count only when the conjunction holds; under OR each side reports its
/// own; NOT reports nothing, so an inversion never illustrates the text it
/// excludes.
pub open spec fn spec_ranges(e: SpecExpr, line: Seq<char>) -> Seq<(usize, usize)>
    decreases e,
{
    match e {
        SpecExpr::SubStr(p) => ci_positions(line, p).map_values(
            |i: int| (i as usize, (i + p.len()) as usize),
        ),
        SpecExpr::Pattern(p) => rx::regex_ranges(p, line),
        SpecExpr::And(a, b) => if spec_eval(*a, line) && spec_eval(*b, line) {
            spec_ranges(*a, line) + spec_ranges(*b, line)
        } else {
            Seq::empty()
        },
        SpecExpr::Or(a, b) => spec_ranges(*a, line) + spec_ranges(*b, line),
        SpecExpr::Not(_) => Seq::empty(),
        SpecExpr::Group(a) => spec_ranges(*a, line),
    }
}

/// The tokens that can begin an atom (and so continue an AND chain by
/// juxtaposition).
pub open spec fn starts_atom(t: TokView) -> bool {
    t is Word || t is Phrase || t is Pattern || t is LParen || t is NotOp
}

/// Atom := QuotedPhrase | RegexLiteral | BareWord | "(" Expression ")".
/// An empty phrase or empty regex literal is refused as an empty atom; a
/// regex literal whose pattern the engine refuses fails the parse.
pub open spec fn sp_atom(t: Seq<TokView>, i: int) -> Option<(SpecExpr, int)>
    decreases t.len() - i, 0int,
{
    if i < 0 || i >= t.len() {
        Option::None
    } else {
        match t[i] {
            TokView::Word(w) => if w.len() > 0 {
                Option::Some((SpecExpr::SubStr(w), i + 1))
            } else {
                Option::None
            },
            TokView::Phrase(p) => if p.len() > 0 {
                Option::Some((SpecExpr::SubStr(p), i + 1))
            } else {
                Option::None
            },
            TokView::Pattern(p) => if p.len() > 0 && rx::regex_ok(p) {
                Option::Some((SpecExpr::Pattern(p), i + 1))
            } else {
                Option::None
            },
            TokView::LParen => match sp_or(t, i + 1) {
                Option::Some((e, j)) => if i < j && j < t.len() && t[j] is RParen {
                    Option::Some((SpecExpr::Group(Box::new(e)), j + 1))
                } else {
                    Option::None
                },
                Option::None => Option::None,
            },
            _ => Option::None,
        }
    }
}

/// NotTerm := ["NOT" | "-"] Atom.
pub open spec fn sp_not(t: Seq<TokView>, i: int) -> Option<(SpecExpr, int)>
    decreases t.len() - i, 1int,
{
    if i < 0 || i > t.len() {
        Option::None
    } else if i < t.len() && t[i] is NotOp {
        match sp_atom(t, i + 1) {
            Option::Some((e, j)) => Option::Some((SpecExpr::Not(Box::new(e)), j)),
            Option::None => Option::None,
        }
    } else {
        sp_atom(t, i)
    }
}

/// The tail of AndTerm: more NotTerms joined by "AND" or by juxtaposition.
pub open spec fn sp_and_rest(t: Seq<TokView>, acc: SpecExpr, i: int) -> Option<(SpecExpr, int)>
    decreases t.len() - i, 2int,
{
    if i < 0 || i > t.len() {
        Option::None
    } else if i < t.len() && t[i] is AndOp {
        match sp_not(t, i + 1) {
            Option::Some((e2, j)) => if i < j && j <= t.len() {
                sp_and_rest(t, SpecExpr::And(Box::new(acc), Box::new(e2)), j)
            } else {
                Option::None
            },
            Option::None => Option::None,
        }
    } else if i < t.len() && starts_atom(t[i]) {
        match sp_not(t, i) {
            Option::Some((e2, j)) => if i < j && j <= t.len() {
                sp_and_rest(t, SpecExpr::And(Box::new(acc), Box::new(e2)), j)
            } else {
                Option::None
            },
            Option::None => Option::None,
        }
    } else {
        Option::Some((acc, i))
    }
}

/// AndTerm := NotTerm ( ["AND"] NotTerm )*.
pub open spec fn sp_and(t: Seq<TokView>, i: int) -> Option<(SpecExpr, int)>
    decreases t.len() - i, 3int,
{
    if i < 0 || i > t.len() {
        Option::None
    } else {
        match sp_not(t, i) {
            Option::Some((e, j)) => if i < j && j <= t.len() {
                sp_and_rest(t, e, j)
            } else {
                Option::None
            },
            Option::None => Option::None,
        }
    }
}

/// The tail of OrTerm: more AndTerms joined by "OR".
pub open spec fn sp_or_rest(t: Seq<TokView>, acc: SpecExpr, i: int) -> Option<(SpecExpr, int)>
    decreases t.len() - i, 4int,
{
    if i < 0 || i > t.len() {
        Option::None
    } else if i < t.len() && t[i] is OrOp {
        match sp_and(t, i + 1) {
            Option::Some((e2, j)) => if i < j && j <= t.len() {
                sp_or_rest(t, SpecExpr::Or(Box::new(acc), Box::new(e2)), j)
            } else {
                Option::None
            },
            Option::None => Option::None,
        }
    } else {
        Option::Some((acc, i))
    }
}

/// OrTerm := AndTerm ( "OR" AndTerm )*.
pub open spec fn sp_or(t: Seq<TokView>, i: int) -> Option<(SpecExpr, int)>
    decreases t.len() - i, 5int,
{
    if i < 0 || i > t.len() {
        Option::None
    } else {
        match sp_and(t, i) {
            Option::Some((e, j)) => if i < j && j <= t.len() {
                sp_or_rest(t, e, j)
            } else {
                Option::None
            },
            Option::None => Option::None,
        }
    }
}

/// What parsing a whole query yields: the tokens of the string, then one
/// OrTerm that must consume them all. The empty or blank query lexes to no
/// tokens and does not parse; treating it as "no filter" is the caller's
/// concern.
pub open spec fn spec_parse(s: Seq<char>) -> Option<SpecExpr> {
    match spec_lex(s, 0) {
        Option::None => Option::None,
        Option::Some(ts) => if ts.len() == 0 {
            Option::None
        } else {
            match sp_or(ts, 0) {
                Option::Some((e, j)) => if j == ts.len() {
                    Option::Some(e)
                } else {
                    Option::None
                },
                Option::None => Option::None,
            }
        },
    }
}

/// Invariant step of the lexer: when the tokens at `iold` are one token
/// followed by the tokens at `inew`, pushing that token onto the
/// accumulator keeps the whole-string relation.
proof fn lemma_lex_inv_step(s: Seq<char>, prev: Seq<Token>, cur: Seq<Token>, iold: int, inew: int)
    requires
        cur.len() == prev.len() + 1,
        cur == prev.push(cur.last()),
        spec_lex(s, iold) == lex_cons(cur.last().kind@, spec_lex(s, inew)),
        match spec_lex(s, iold) {
            Option::Some(rest) => spec_lex(s, 0) == Option::Some(tok_views(prev) + rest),
            Option::None => spec_lex(s, 0) is None,
        },
    ensures
        match spec_lex(s, inew) {
            Option::Some(rest) => spec_lex(s, 0) == Option::Some(tok_views(cur) + rest),
            Option::None => spec_lex(s, 0) is None,
        },
{
    assert(tok_views(cur) =~= tok_views(prev) + seq![cur.last().kind@]);
    match spec_lex(s, inew) {
        Option::Some(rest) => {
            assert(spec_lex(s, iold) == Option::Some(seq![cur.last().kind@] + rest));
            assert(tok_views(prev) + (seq![cur.last().kind@] + rest) =~= tok_views(cur) + rest);
        },
        Option::None => {
            assert(spec_lex(s, iold) is None);
        },
    }
}


/// The error position used when the query ends too early: the offset of
/// the last token, or zero for no tokens.
fn eof_pos(toks: &Vec<Token>) -> (r: usize)
{
    if toks.len() > 0 {
        toks[toks.len() - 1].pos
    } else {
        0
    }
}

fn tok_starts_atom(k: &TokenKind) -> (r: bool)
    ensures
        r == starts_atom(k@),
{
    match k {
        TokenKind::Word(_) => true,
        TokenKind::Phrase(_) => true,
        TokenKind::Pattern(_) => true,
        TokenKind::LParen => true,
        TokenKind::NotOp => true,
        _ => false,
    }
}

fn parse_atom(toks: &Vec<Token>, i: usize) -> (r: Result<(FilterExpr, usize), ParseError>)
    requires
        i <= toks@.len(),
    ensures
        match r {
            Result::Ok(p) => sp_atom(tok_views(toks@), i as int) == Option::Some(
                (p.0@, p.1 as int),
            ) && i < p.1 <= toks@.len() && spec_wf(p.0@),
            Result::Err(_) => sp_atom(tok_views(toks@), i as int) is None,
        },
    decreases toks@.len() - i, 0int,
{
    let ghost tv = tok_views(toks@);
    if i >= toks.len() {
        return Result::Err(mk_err(eof_pos(toks), "expected a term"));
    }
    assert(tv[i as int] == toks@[i as int].kind@);
    match &toks[i].kind {
        TokenKind::Word(w) => {
            if w.as_str().unicode_len() == 0 {
                Result::Err(mk_err(toks[i].pos, "empty atom"))
            } else {
                Result::Ok((FilterExpr::Literal { pattern: w.clone(), is_regex: false }, i + 1))
            }
        },
        TokenKind::Phrase(p) => {
            if p.as_str().unicode_len() == 0 {
                Result::Err(mk_err(toks[i].pos, "empty atom"))
            } else {
                Result::Ok((FilterExpr::Literal { pattern: p.clone(), is_regex: false }, i + 1))
            }
        },
        TokenKind::Pattern(p) => {
            if p.as_str().unicode_len() == 0 {
                Result::Err(mk_err(toks[i].pos, "empty atom"))
            } else if rx::regex_compile_ok(p.as_str()) {
                Result::Ok((FilterExpr::Literal { pattern: p.clone(), is_regex: true }, i + 1))
            } else {
                Result::Err(mk_err(toks[i].pos, "invalid regex"))
            }
        },
        TokenKind::LParen => {
            match parse_or(toks, i + 1) {
                Result::Ok((e, j)) => {
                    if j < toks.len() {
                        assert(tv[j as int] == toks@[j as int].kind@);
                        match &toks[j].kind {
                            TokenKind::RParen => {
                                return Result::Ok((FilterExpr::Group(Box::new(e)), j + 1));
                            },
                            _ => {},
                        }
                    }
                    Result::Err(mk_err(toks[i].pos, "unbalanced parenthesis"))
                },
                Result::Err(e) => Result::Err(e),
            }
        },
        TokenKind::RParen => Result::Err(mk_err(toks[i].pos, "unexpected token")),
        TokenKind::OrOp => Result::Err(mk_err(toks[i].pos, "dangling operator")),
        TokenKind::AndOp => Result::Err(mk_err(toks[i].pos, "dangling operator")),
        TokenKind::NotOp => Result::Err(mk_err(toks[i].pos, "unexpected token")),
    }
}

fn parse_not(toks: &Vec<Token>, i: usize) -> (r: Result<(FilterExpr, usize), ParseError>)
    requires
        i <= toks@.len(),
    ensures
        match r {
            Result::Ok(p) => sp_not(tok_views(toks@), i as int) == Option::Some(
                (p.0@, p.1 as int),
            ) && i < p.1 <= toks@.len() && spec_wf(p.0@),
            Result::Err(_) => sp_not(tok_views(toks@), i as int) is None,
        },
    decreases toks@.len() - i, 1int,
{
    let ghost tv = tok_views(toks@);
    let mut negated = false;
    if i < toks.len() {
        assert(tv[i as int] == toks@[i as int].kind@);
        match &toks[i].kind {
            TokenKind::NotOp => {
                negated = true;
            },
            _ => {},
        }
    }
    if negated {
        match parse_atom(toks, i + 1) {
            Result::Ok((e, j)) => Result::Ok((FilterExpr::Not(Box::new(e)), j)),
            Result::Err(e) => Result::Err(e),
        }
    } else {
        parse_atom(toks, i)
    }
}

fn parse_and(toks: &Vec<Token>, i: usize) -> (r: Result<(FilterExpr, usize), ParseError>)
    requires
        i <= toks@.len(),
    ensures
        match r {
            Result::Ok(p) => sp_and(tok_views(toks@), i as int) == Option::Some(
                (p.0@, p.1 as int),
            ) && i < p.1 <= toks@.len() && spec_wf(p.0@),
            Result::Err(_) => sp_and(tok_views(toks@), i as int) is None,
        },
    decreases toks@.len() - i, 3int,
{
    let ghost tv = tok_views(toks@);
    let (e0, j0) = match parse_not(toks, i) {
        Result::Ok(p) => p,
        Result::Err(e) => {
            return Result::Err(e);
        },
    };
    let mut acc = e0;
    let mut j = j0;
    loop
        invariant_except_break
            i < j <= toks@.len(),
            tv == tok_views(toks@),
            spec_wf(acc@),
            sp_and_rest(tv, acc@, j as int) == sp_and(tv, i as int),
        ensures
            i < j <= toks@.len(),
            spec_wf(acc@),
            sp_and(tv, i as int) == Option::Some((acc@, j as int)),
            tv == tok_views(toks@),
        decreases toks@.len() - j,
    {
        if j >= toks.len() {
            break;
        }
        assert(tv[j as int] == toks@[j as int].kind@);
        let is_and = match &toks[j].kind {
            TokenKind::AndOp => true,
            _ => false,
        };
        if is_and {
            match parse_not(toks, j + 1) {
                Result::Ok((e2, j2)) => {
                    acc = FilterExpr::And(Box::new(acc), Box::new(e2));
                    j = j2;
                },
                Result::Err(e) => {
                    return Result::Err(e);
                },
            }
        } else if tok_starts_atom(&toks[j].kind) {
            match parse_not(toks, j) {
                Result::Ok((e2, j2)) => {
                    acc = FilterExpr::And(Box::new(acc), Box::new(e2));
                    j = j2;
                },
                Result::Err(e) => {
                    return Result::Err(e);
                },
            }
        } else {
            break;
        }
    }
    Result::Ok((acc, j))
}

fn parse_or(toks: &Vec<Token>, i: usize) -> (r: Result<(FilterExpr, usize), ParseError>)
    requires
        i <= toks@.len(),
    ensures
        match r {
            Result::Ok(p) => sp_or(tok_views(toks@), i as int) == Option::Some(
                (p.0@, p.1 as int),
            ) && i < p.1 <= toks@.len() && spec_wf(p.0@),
            Result::Err(_) => sp_or(tok_views(toks@), i as int) is None,
        },
    decreases toks@.len() - i, 5int,
{
    let ghost tv = tok_views(toks@);
    let (e0, j0) = match parse_and(toks, i) {
        Result::Ok(p) => p,
        Result::Err(e) => {
            return Result::Err(e);
        },
    };
    let mut acc = e0;
    let mut j = j0;
    loop
        invariant_except_break
            i < j <= toks@.len(),
            tv == tok_views(toks@),
            spec_wf(acc@),
            sp_or_rest(tv, acc@, j as int) == sp_or(tv, i as int),
        ensures
            i < j <= toks@.len(),
            spec_wf(acc@),
            sp_or(tv, i as int) == Option::Some((acc@, j as int)),
            tv == tok_views(toks@),
        decreases toks@.len() - j,
    {
        if j >= toks.len() {
            break;
        }
        assert(tv[j as int] == toks@[j as int].kind@);
        let is_or = match &toks[j].kind {
            TokenKind::OrOp => true,
            _ => false,
        };
        if !is_or {
            break;
        }
        match parse_and(toks, j + 1) {
            Result::Ok((e2, j2)) => {
                acc = FilterExpr::Or(Box::new(acc), Box::new(e2));
                j = j2;
            },
            Result::Err(e) => {
                return Result::Err(e);
            },
        }
    }
    Result::Ok((acc, j))
}

/// Parse a query string into a filter expression.
///
/// Succeeds exactly when `spec_parse` does: the string lexes, holds at
/// least one token, and those tokens form one expression of the grammar
/// with every regex literal accepted by the engine. Fails with a
/// `ParseError` on an unbalanced parenthesis, an unterminated quote or
/// regex delimiter, an invalid regex, a dangling operator, an empty atom,
/// or an empty query.
pub fn parse_filter(query: &str) -> (r: Result<FilterExpr, ParseError>)
    ensures
        match r {
            Result::Ok(e) => spec_parse(query@) == Option::Some(e@) && spec_wf(e@),
            Result::Err(_) => spec_parse(query@) is None,
        },
{
    let toks = match lex(query) {
        Result::Ok(t) => t,
        Result::Err(e) => {
            return Result::Err(e);
        },
    };
    if toks.len() == 0 {
        return Result::Err(mk_err(0, "empty query"));
    }
    match parse_or(&toks, 0) {
        Result::Ok((e, j)) => {
            if j == toks.len() {
                Result::Ok(e)
            } else {
                Result::Err(mk_err(toks[j].pos, "unexpected token"))
            }
        },
        Result::Err(e) => Result::Err(e),
    }
}

impl FilterExpr {
    /// Every regex literal inside compiles; `parse_filter` guarantees it.
    pub open spec fn wf(&self) -> bool {
        spec_wf(self@)
    }

    /// Whether the line passes this expression; exactly `spec_eval`.
    pub fn matches(&self, line: &str) -> (r: bool)
        ensures
            r == spec_eval(self@, line@),
        decreases self,
    {
        match self {
            FilterExpr::Literal { pattern, is_regex } => {
                if *is_regex {
                    rx::regex_is_match(pattern.as_str(), line)
                } else {
                    ci_contains_exec(line, pattern.as_str())
                }
            },
            FilterExpr::And(a, b) => {
                let x = a.matches(line);
                let y = b.matches(line);
                x && y
            },
            FilterExpr::Or(a, b) => {
                let x = a.matches(line);
                let y = b.matches(line);
                x || y
            },
            FilterExpr::Not(a) => !a.matches(line),
            FilterExpr::Group(a) => a.matches(line),
        }
    }

    /// The character ranges responsible for a positive evaluation; exactly
    /// `spec_ranges`, so in particular empty whenever the expression does
    /// not hold of the line. Every range lies within the line.
    pub fn find_all_matches(&self, line: &str) -> (r: Vec<(usize, usize)>)
        ensures
            r@ == spec_ranges(self@, line@),
            !spec_eval(self@, line@) ==> r@.len() == 0,
            forall|k: int| 0 <= k < r@.len() ==> (#[trigger] r@[k]).0 <= r@[k].1 <= line@.len(),
        decreases self,
    {
        proof {
            lemma_false_has_no_ranges(self@, line@);
        }
        match self {
            FilterExpr::Literal { pattern, is_regex } => {
                if *is_regex {
                    rx::regex_find_ranges(pattern.as_str(), line)
                } else {
                    substr_ranges(line, pattern.as_str())
                }
            },
            FilterExpr::And(a, b) => {
                let x = a.matches(line);
                let y = b.matches(line);
                if x && y {
                    let mut ra = a.find_all_matches(line);
                    let mut rb = b.find_all_matches(line);
                    ra.append(&mut rb);
                    ra
                } else {
                    let r: Vec<(usize, usize)> = Vec::new();
                    assert(r@ =~= spec_ranges(self@, line@));
                    r
                }
            },
            FilterExpr::Or(a, b) => {
                let mut ra = a.find_all_matches(line);
                let mut rb = b.find_all_matches(line);
                ra.append(&mut rb);
                ra
            },
            FilterExpr::Not(_) => {
                let r: Vec<(usize, usize)> = Vec::new();
                assert(r@ =~= spec_ranges(self@, line@));
                r
            },
            FilterExpr::Group(a) => a.find_all_matches(line),
        }
    }
}

/// All ranges of the case-insensitive occurrences of `pat` in `line`;
/// each lies within the line.
fn substr_ranges(line: &str, pat: &str) -> (r: Vec<(usize, usize)>)
    ensures
        r@ == ci_positions(line@, pat@).map_values(
            |i: int| (i as usize, (i + pat@.len()) as usize),
        ),
        forall|k: int| 0 <= k < r@.len() ==> (#[trigger] r@[k]).0 <= r@[k].1 <= line@.len(),
{
    let n = line.unicode_len();
    let m = pat.unicode_len();
    let pos = ci_find_all(line, pat);
    let mut r: Vec<(usize, usize)> = Vec::new();
    let mut k: usize = 0;
    while k < pos.len()
        invariant
            n == line@.len(),
            m == pat@.len(),
            pos@.map_values(|u: usize| u as int) == ci_positions(line@, pat@),
            forall|t: int| 0 <= t < pos@.len() ==> pos@[t] + pat@.len() <= line@.len(),
            0 <= k <= pos@.len(),
            r@.len() == k,
            forall|t: int| 0 <= t < k ==> r@[t] == (pos@[t], (pos@[t] + m) as usize),
        decreases pos@.len() - k,
    {
        let p = pos[k];
        assert(pos@[k as int] + pat@.len() <= line@.len());
        r.push((p, p + m));
        k += 1;
    }
    assert(r@ =~= ci_positions(line@, pat@).map_values(
        |i: int| (i as usize, (i + pat@.len()) as usize),
    )) by {
        assert(pos@.map_values(|u: usize| u as int).len() == pos@.len());
        assert forall|t: int|
            0 <= t < r@.len() implies r@[t] == ci_positions(line@, pat@).map_values(
            |i: int| (i as usize, (i + pat@.len()) as usize),
        )[t] by {
            assert(ci_positions(line@, pat@)[t] == pos@.map_values(|u: usize| u as int)[t]);
            assert(pos@.map_values(|u: usize| u as int)[t] == pos@[t] as int);
        }
    }
    r
}

/// A false expression rests on nothing: when the expression does not hold
/// of the line, its range set is empty. NOT and a failed AND report no
/// ranges by definition; a literal that matched nowhere has no positions.
pub proof fn lemma_false_has_no_ranges(e: SpecExpr, line: Seq<char>)
    ensures
        !spec_eval(e, line) ==> spec_ranges(e, line).len() == 0,
    decreases e,
{
    match e {
        SpecExpr::SubStr(p) => {
            if !spec_eval(e, line) {
                lemma_ci_positions_empty(line, p, line.len() - p.len() + 1);
            }
        },
        SpecExpr::Pattern(_) => {},
        SpecExpr::And(_, _) => {},
        SpecExpr::Or(a, b) => {
            lemma_false_has_no_ranges(*a, line);
            lemma_false_has_no_ranges(*b, line);
        },
        SpecExpr::Not(_) => {},
        SpecExpr::Group(a) => {
            lemma_false_has_no_ranges(*a, line);
        },
    }
}

/// A pattern with no case-insensitive occurrence has no positions.
proof fn lemma_ci_positions_empty(hay: Seq<char>, pat: Seq<char>, n: int)
    requires
        !ci_contains(hay, pat),
    ensures
        crate::text::ci_positions_below(hay, pat, n).len() == 0,
    decreases n,
{
    if n > 0 {
        lemma_ci_positions_empty(hay, pat, n - 1);
        assert(!crate::text::ci_match_at(hay, pat, n - 1));
    }
}

/// Parsing is a function of the query text alone: two successful parses of
/// one query yield the same expression, so the expressions evaluate alike
/// on every line.
pub proof fn lemma_parse_idempotent(q: Seq<char>, e1: SpecExpr, e2: SpecExpr, line: Seq<char>)
    requires
        spec_parse(q) == Option::Some(e1),
        spec_parse(q) == Option::Some(e2),
    ensures
        e1 == e2,
        spec_eval(e1, line) == spec_eval(e2, line),
{
}

} // verus!