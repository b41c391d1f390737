//! Tokenizer for the DOT language.
//!
//! The tokenizer turns the input character sequence into a sequence of
//! classified lexemes.  Whitespace, `//` line comments and `/* */` block
//! comments are skipped silently; an unrecognized character, an unclosed
//! quoted string and an unclosed block comment are lexical errors, reported
//! as the character position at which they occur.
//!
//! The mathematical model is `spec_tokenize_from`: a recursive spec function
//! over the input `Seq<char>` that either yields the full token sequence or
//! the position of the first offending character.  The executable
//! `tokenize` is proved to return exactly that.

use vstd::prelude::*;

verus! {

/// The lexical token kinds of the DOT language.
///
/// `Id` stands for any identifier: an unquoted run of alphanumeric or
/// underscore characters that is not a keyword, or a quoted string.
#[derive(Clone, Copy, Debug, PartialEq, Eq, Structural)]
pub enum Token {
    Strict,
    Graph,
    Digraph,
    Subgraph,
    Id,
    OpenBrace,
    CloseBrace,
    OpenBracket,
    CloseBracket,
    Comma,
    Semicolon,
    Equals,
    DirectedOp,
    UndirectedOp,
}

/// One lexed token: its kind together with its matched source slice.
///
/// Only `Id` tokens carry text: for an unquoted identifier the matched run
/// itself, for a quoted string the characters between the quotes.  All
/// other kinds carry the empty string.
#[derive(Clone, Debug, PartialEq, Eq)]
pub struct Lexeme {
    pub kind: Token,
    pub text: String,
}

/// The mathematical view of a `Lexeme`: the same kind, with the text as a
/// character sequence.
pub struct LexemeV {
    pub kind: Token,
    pub text: Seq<char>,
}

impl DeepView for Lexeme {
    type V = LexemeV;

    open spec fn deep_view(&self) -> LexemeV {
        LexemeV { kind: self.kind, text: self.text@ }
    }
}

/// Whitespace characters skipped between tokens.
pub open spec fn is_space_char(c: char) -> bool {
    c == ' ' || c == '\t' || c == '\n' || c == '\r'
}

/// Characters that may form an unquoted identifier: letters, digits and
/// underscore.
pub open spec fn is_ident_char(c: char) -> bool {
    let u = c as u32;
    (97 <= u && u <= 122) || (65 <= u && u <= 90) || (48 <= u && u <= 57) || u == 95
}

/// The end of the identifier run beginning at `pos`: the first index at or
/// after `pos` holding a non-identifier character (or the end of input).
pub open spec fn ident_end(s: Seq<char>, pos: int) -> int
    decreases s.len() - pos,
{
    if pos < s.len() && is_ident_char(s[pos]) {
        ident_end(s, pos + 1)
    } else {
        pos
    }
}

/// The index of the first `"` at or after `pos`, or the input length if
/// there is none.
pub open spec fn close_quote(s: Seq<char>, pos: int) -> int
    decreases s.len() - pos,
{
    if pos < s.len() {
        if s[pos] == '"' {
            pos
        } else {
            close_quote(s, pos + 1)
        }
    } else {
        s.len() as int
    }
}

/// The index of the first newline at or after `pos`, or the input length if
/// there is none.
pub open spec fn line_end(s: Seq<char>, pos: int) -> int
    decreases s.len() - pos,
{
    if pos < s.len() {
        if s[pos] == '\n' {
            pos
        } else {
            line_end(s, pos + 1)
        }
    } else {
        s.len() as int
    }
}

/// The position just after the first `*/` at or after `pos`, or `None` if
/// the block comment is never closed.
pub open spec fn block_comment_end(s: Seq<char>, pos: int) -> Option<int>
    decreases s.len() - pos,
{
    if pos < s.len() {
        if s[pos] == '*' && pos + 1 < s.len() && s[pos + 1] == '/' {
            Some(pos + 2)
        } else {
            block_comment_end(s, pos + 1)
        }
    } else {
        None
    }
}

pub proof fn lemma_ident_end_bounds(s: Seq<char>, pos: int)
    requires
        0 <= pos <= s.len(),
    ensures
        pos <= ident_end(s, pos) <= s.len(),
    decreases s.len() - pos,
{
    if pos < s.len() && is_ident_char(s[pos]) {
        lemma_ident_end_bounds(s, pos + 1);
    }
}

/// The token kind of an unquoted identifier run: one of the four keywords,
/// or a plain identifier.
pub open spec fn word_kind(text: Seq<char>) -> Token {
    if text == "strict"@ {
        Token::Strict
    } else if text == "graph"@ {
        Token::Graph
    } else if text == "digraph"@ {
        Token::Digraph
    } else if text == "subgraph"@ {
        Token::Subgraph
    } else {
        Token::Id
    }
}

/// The lexeme for an unquoted identifier run: keywords carry no text, a
/// plain identifier carries the run itself.
pub open spec fn word_lexeme(text: Seq<char>) -> LexemeV {
    if word_kind(text) == Token::Id {
        LexemeV { kind: Token::Id, text: text }
    } else {
        LexemeV { kind: word_kind(text), text: Seq::empty() }
    }
}

/// A lexeme with no text, for punctuation and operator tokens.
pub open spec fn bare_lexeme(kind: Token) -> LexemeV {
    LexemeV { kind: kind, text: Seq::empty() }
}

/// The token sequence of the input from position `pos` on, or the position
/// of the first character that starts no token.
///
/// This is the reference semantics of the tokenizer.  Identifier runs use
/// maximal munch; a quoted string runs to the next `"` with no escape
/// sequences; `-` must begin `->` or `--`.
pub open spec fn spec_tokenize_from(s: Seq<char>, pos: int) -> Result<Seq<LexemeV>, int>
    decreases s.len() - pos,
{
    if pos < 0 {
        Err(pos)
    } else if pos >= s.len() {
        Ok(Seq::empty())
    } else {
        let c = s[pos];
        if is_space_char(c) {
            spec_tokenize_from(s, pos + 1)
        } else if c == '/' && pos + 1 < s.len() && s[pos + 1] == '/' {
            let e = line_end(s, pos + 2);
            let next = if e < s.len() { e + 1 } else { s.len() as int };
            if pos < next <= s.len() {
                spec_tokenize_from(s, next)
            } else {
                Err(pos)
            }
        } else if c == '/' && pos + 1 < s.len() && s[pos + 1] == '*' {
            match block_comment_end(s, pos + 2) {
                Some(e) => if pos < e <= s.len() {
                    spec_tokenize_from(s, e)
                } else {
                    Err(pos)
                },
                None => Err(pos),
            }
        } else if is_ident_char(c) {
            let e = ident_end(s, pos);
            if pos < e <= s.len() {
                match spec_tokenize_from(s, e) {
                    Ok(rest) => Ok(seq![word_lexeme(s.subrange(pos, e))] + rest),
                    Err(p) => Err(p),
                }
            } else {
                Err(pos)
            }
        } else if c == '"' {
            let q = close_quote(s, pos + 1);
            if pos + 1 <= q && q < s.len() {
                match spec_tokenize_from(s, q + 1) {
                    Ok(rest) => Ok(
                        seq![LexemeV { kind: Token::Id, text: s.subrange(pos + 1, q) }] + rest,
                    ),
                    Err(p) => Err(p),
                }
            } else {
                Err(pos)
            }
        } else if c == '-' {
            if pos + 1 < s.len() && s[pos + 1] == '>' {
                match spec_tokenize_from(s, pos + 2) {
                    Ok(rest) => Ok(seq![bare_lexeme(Token::DirectedOp)] + rest),
                    Err(p) => Err(p),
                }
            } else if pos + 1 < s.len() && s[pos + 1] == '-' {
                match spec_tokenize_from(s, pos + 2) {
                    Ok(rest) => Ok(seq![bare_lexeme(Token::UndirectedOp)] + rest),
                    Err(p) => Err(p),
                }
            } else {
                Err(pos)
            }
        } else {
            let kind = if c == '{' {
                Some(Token::OpenBrace)
            } else if c == '}' {
                Some(Token::CloseBrace)
            } else if c == '[' {
                Some(Token::OpenBracket)
            } else if c == ']' {
                Some(Token::CloseBracket)
            } else if c == ',' {
                Some(Token::Comma)
            } else if c == ';' {
                Some(Token::Semicolon)
            } else if c == '=' {
                Some(Token::Equals)
            } else {
                None
            };
            match kind {
                Some(k) => match spec_tokenize_from(s, pos + 1) {
                    Ok(rest) => Ok(seq![bare_lexeme(k)] + rest),
                    Err(p) => Err(p),
                },
                None => Err(pos),
            }
        }
    }
}

/// The token sequence of the whole input, or the position of the first
/// offending character.
pub open spec fn spec_tokenize(s: Seq<char>) -> Result<Seq<LexemeV>, int> {
    spec_tokenize_from(s, 0)
}

fn is_space_char_x(c: char) -> (r: bool)
    ensures
        r == is_space_char(c),
{
    c == ' ' || c == '\t' || c == '\n' || c == '\r'
}

fn is_ident_char_x(c: char) -> (r: bool)
    ensures
        r == is_ident_char(c),
{
    let u = c as u32;
    (97 <= u && u <= 122) || (65 <= u && u <= 90) || (48 <= u && u <= 57) || u == 95
}

/// The input as a vector of characters, for constant-time scanning.
fn chars_of(s: &str) -> (v: Vec<char>)
    ensures
        v@ == s@,
{
    let n = s.unicode_len();
    let mut v: Vec<char> = Vec::new();
    let mut i: usize = 0;
    while i < n
        invariant
            i <= n,
            n == s@.len(),
            v@ == s@.subrange(0, i as int),
        decreases n - i,
    {
        let c = s.get_char(i);
        v.push(c);
        i = i + 1;
        proof {
            assert(v@ =~= s@.subrange(0, i as int));
        }
    }
    proof {
        assert(v@ =~= s@);
    }
    v
}

fn ident_end_x(chars: &Vec<char>, pos: usize) -> (r: usize)
    requires
        pos <= chars@.len(),
    ensures
        r as int == ident_end(chars@, pos as int),
        pos <= r <= chars@.len(),
{
    let n = chars.len();
    let mut i: usize = pos;
    while i < n && is_ident_char_x(chars[i])
        invariant
            pos <= i <= n,
            n == chars@.len(),
            ident_end(chars@, pos as int) == ident_end(chars@, i as int),
        decreases n - i,
    {
        i = i + 1;
    }
    i
}

fn close_quote_x(chars: &Vec<char>, pos: usize) -> (r: usize)
    requires
        pos <= chars@.len(),
    ensures
        r as int == close_quote(chars@, pos as int),
        pos <= r <= chars@.len(),
{
    let n = chars.len();
    let mut i: usize = pos;
    while i < n && chars[i] != '"'
        invariant
            pos <= i <= n,
            n == chars@.len(),
            close_quote(chars@, pos as int) == close_quote(chars@, i as int),
        decreases n - i,
    {
        i = i + 1;
    }
    i
}

fn line_end_x(chars: &Vec<char>, pos: usize) -> (r: usize)
    requires
        pos <= chars@.len(),
    ensures
        r as int == line_end(chars@, pos as int),
        pos <= r <= chars@.len(),
{
    let n = chars.len();
    let mut i: usize = pos;
    while i < n && chars[i] != '\n'
        invariant
            pos <= i <= n,
            n == chars@.len(),
            line_end(chars@, pos as int) == line_end(chars@, i as int),
        decreases n - i,
    {
        i = i + 1;
    }
    i
}

fn block_comment_end_x(chars: &Vec<char>, pos: usize) -> (r: Option<usize>)
    requires
        pos <= chars@.len(),
    ensures
        match r {
            Some(e) => Some(e as int) == block_comment_end(chars@, pos as int) && pos < e
                <= chars@.len(),
            None => block_comment_end(chars@, pos as int) is None,
        },
{
    let n = chars.len();
    let mut i: usize = pos;
    while i < n
        invariant
            pos <= i <= n,
            n == chars@.len(),
            block_comment_end(chars@, pos as int) == block_comment_end(chars@, i as int),
        decreases n - i,
    {
        if chars[i] == '*' && i + 1 < n && chars[i + 1] == '/' {
            return Some(i + 2);
        }
        i = i + 1;
    }
    None
}

/// Build the lexeme of an unquoted identifier run: classify the run as a
/// keyword or a plain identifier.
fn word_lexeme_x(s: &str, start: usize, end: usize) -> (r: Lexeme)
    requires
        start <= end <= s@.len(),
    ensures
        r.deep_view() == word_lexeme(s@.subrange(start as int, end as int)),
{
    let t = s.substring_char(start, end);
    let w = String::from_str(t);
    proof {
        reveal_strlit("strict");
        reveal_strlit("graph");
        reveal_strlit("digraph");
        reveal_strlit("subgraph");
    }
    if w == String::from_str("strict") {
        Lexeme { kind: Token::Strict, text: String::new() }
    } else if w == String::from_str("graph") {
        Lexeme { kind: Token::Graph, text: String::new() }
    } else if w == String::from_str("digraph") {
        Lexeme { kind: Token::Digraph, text: String::new() }
    } else if w == String::from_str("subgraph") {
        Lexeme { kind: Token::Subgraph, text: String::new() }
    } else {
        Lexeme { kind: Token::Id, text: w }
    }
}

/// One cons step of the tokenizer: pushing the lexeme of the token that
/// starts at `pos` carries the accumulator relation forward to `e`.
proof fn lemma_tokenize_step(
    s: Seq<char>,
    pos: int,
    e: int,
    lxv: LexemeV,
    acc_old: Seq<LexemeV>,
    acc_new: Seq<LexemeV>,
)
    requires
        spec_tokenize_from(s, pos) == (match spec_tokenize_from(s, e) {
            Ok(rest) => Ok::<Seq<LexemeV>, int>(seq![lxv] + rest),
            Err(p) => Err::<Seq<LexemeV>, int>(p),
        }),
        acc_new == acc_old.push(lxv),
        spec_tokenize(s) == (match spec_tokenize_from(s, pos) {
            Ok(rest) => Ok::<Seq<LexemeV>, int>(acc_old + rest),
            Err(p) => Err::<Seq<LexemeV>, int>(p),
        }),
    ensures
        spec_tokenize(s) == (match spec_tokenize_from(s, e) {
            Ok(rest) => Ok::<Seq<LexemeV>, int>(acc_new + rest),
            Err(p) => Err::<Seq<LexemeV>, int>(p),
        }),
{
    match spec_tokenize_from(s, e) {
        Ok(rest) => {
            assert(acc_old + (seq![lxv] + rest) =~= acc_new + rest);
        },
        Err(_) => {},
    }
}

/// Tokenize a whole document.
///
/// Returns the token sequence, or the character position of the first
/// input character that starts no token (also an unclosed quoted string or
/// block comment, reported at its opening character).
pub fn tokenize(s: &str) -> (r: Result<Vec<Lexeme>, usize>)
    ensures
        match r {
            Ok(v) => spec_tokenize(s@) == Ok::<Seq<LexemeV>, int>(v.deep_view()),
            Err(p) => spec_tokenize(s@) == Err::<Seq<LexemeV>, int>(p as int),
        },
{
    let chars = chars_of(s);
    let n = chars.len();
    let mut acc: Vec<Lexeme> = Vec::new();
    let mut pos: usize = 0;
    loop
        invariant
            pos <= n,
            n == s@.len(),
            chars@ == s@,
            spec_tokenize(s@) == (match spec_tokenize_from(s@, pos as int) {
                Ok(rest) => Ok::<Seq<LexemeV>, int>(acc.deep_view() + rest),
                Err(p) => Err::<Seq<LexemeV>, int>(p),
            }),
        decreases n - pos,
    {
        if pos >= n {
            proof {
                assert(spec_tokenize_from(s@, pos as int) == Ok::<Seq<LexemeV>, int>(
                    Seq::<LexemeV>::empty(),
                ));
                assert(acc.deep_view() + Seq::<LexemeV>::empty() =~= acc.deep_view());
            }
            return Ok(acc);
        }
        let ghost old_pos = pos as int;
        let ghost old_acc = acc.deep_view();
        let c = chars[pos];
        if is_space_char_x(c) {
            pos = pos + 1;
        } else if c == '/' {
            if pos + 1 < n && chars[pos + 1] == '/' {
                let e = line_end_x(&chars, pos + 2);
                let next = if e < n {
                    e + 1
                } else {
                    n
                };
                pos = next;
            } else if pos + 1 < n && chars[pos + 1] == '*' {
                match block_comment_end_x(&chars, pos + 2) {
                    Some(e) => {
                        pos = e;
                    },
                    None => {
                        return Err(pos);
                    },
                }
            } else {
                return Err(pos);
            }
        } else if is_ident_char_x(c) {
            let e = ident_end_x(&chars, pos);
            proof {
                lemma_ident_end_bounds(s@, old_pos + 1);
            }
            let lx = word_lexeme_x(s, pos, e);
            let ghost lxv = lx.deep_view();
            acc.push(lx);
            pos = e;
            proof {
                assert(acc.deep_view() =~= old_acc.push(lxv));
                lemma_tokenize_step(s@, old_pos, pos as int, lxv, old_acc, acc.deep_view());
            }
        } else if c == '"' {
            let q = close_quote_x(&chars, pos + 1);
            if q >= n {
                return Err(pos);
            }
            let t = s.substring_char(pos + 1, q);
            let lx = Lexeme { kind: Token::Id, text: String::from_str(t) };
            let ghost lxv = lx.deep_view();
            acc.push(lx);
            pos = q + 1;
            proof {
                assert(acc.deep_view() =~= old_acc.push(lxv));
                lemma_tokenize_step(s@, old_pos, pos as int, lxv, old_acc, acc.deep_view());
            }
        } else if c == '-' {
            let kind = if pos + 1 < n && chars[pos + 1] == '>' {
                Token::DirectedOp
            } else if pos + 1 < n && chars[pos + 1] == '-' {
                Token::UndirectedOp
            } else {
                return Err(pos);
            };
            let lx = Lexeme { kind: kind, text: String::new() };
            let ghost lxv = lx.deep_view();
            acc.push(lx);
            pos = pos + 2;
            proof {
                assert(lxv == bare_lexeme(kind));
                assert(acc.deep_view() =~= old_acc.push(lxv));
                lemma_tokenize_step(s@, old_pos, pos as int, lxv, old_acc, acc.deep_view());
            }
        } else {
            let kind = if c == '{' {
                Token::OpenBrace
            } else if c == '}' {
                Token::CloseBrace
            } else if c == '[' {
                Token::OpenBracket
            } else if c == ']' {
                Token::CloseBracket
            } else if c == ',' {
                Token::Comma
            } else if c == ';' {
                Token::Semicolon
            } else if c == '=' {
                Token::Equals
            } else {
                return Err(pos);
            };
            let lx = Lexeme { kind: kind, text: String::new() };
            let ghost lxv = lx.deep_view();
            acc.push(lx);
            pos = pos + 1;
            proof {
                assert(lxv == bare_lexeme(kind));
                assert(acc.deep_view() =~= old_acc.push(lxv));
                lemma_tokenize_step(s@, old_pos, pos as int, lxv, old_acc, acc.deep_view());
            }
        }
    }
}

} // verus!
