//! Serialization of the assignment / attribute-list / node subset of the
//! AST back to DOT text.
//!
//! The canonical form writes an assignment as `key=value`, a bracket group
//! as `[a=1,b=2]`, and a node as its identifier followed directly by its
//! bracket groups, e.g. `A[x=1][y=2]`.  The spec functions below define
//! that text exactly; each executable function is proved to produce it.

use vstd::prelude::*;

use crate::ast_nodes::assignment_view;
use crate::ast_nodes::assignments_view;
use crate::ast_nodes::attribute_list_view;
use crate::ast_nodes::node_view;
use crate::ast_nodes::Assignment;
use crate::ast_nodes::AssignmentV;
use crate::ast_nodes::AttributeList;
use crate::ast_nodes::AttributeListV;
use crate::ast_nodes::Node;
use crate::ast_nodes::NodeV;
use crate::lex::bare_lexeme;
use crate::lex::ident_end;
use crate::lex::is_ident_char;
use crate::lex::is_space_char;
use crate::lex::spec_tokenize;
use crate::lex::spec_tokenize_from;
use crate::lex::word_kind;
use crate::lex::word_lexeme;
use crate::lex::LexemeV;
use crate::lex::Token;
use crate::parse::spec_parse_assignment;
use crate::parse::spec_parse_attr_groups;
use crate::parse::spec_parse_group_items;
use crate::parse::spec_parse_id;
use crate::parse::spec_parse_node;
use crate::parse::tok_at;
use crate::parse::ParseError;

verus! {

/// The text of one assignment: `key=value`.
pub open spec fn assignment_text(a: AssignmentV) -> Seq<char> {
    a.key + seq!['='] + a.value
}

/// The text of the assignments of one group, joined by commas.
pub open spec fn group_items_text(g: Seq<AssignmentV>) -> Seq<char>
    decreases g.len(),
{
    if g.len() == 0 {
        Seq::empty()
    } else if g.len() == 1 {
        assignment_text(g[0])
    } else {
        assignment_text(g[0]) + seq![','] + group_items_text(g.subrange(1, g.len() as int))
    }
}

/// The text of one bracket group.
pub open spec fn group_text(g: Seq<AssignmentV>) -> Seq<char> {
    seq!['['] + group_items_text(g) + seq![']']
}

/// The text of an attribute list: its bracket groups, one after another.
pub open spec fn attribute_list_text(al: AttributeListV) -> Seq<char>
    decreases al.len(),
{
    if al.len() == 0 {
        Seq::empty()
    } else {
        group_text(al[0]) + attribute_list_text(al.subrange(1, al.len() as int))
    }
}

/// The text of a node statement: its identifier, followed directly by its
/// bracket groups when it has any.
pub open spec fn node_text(n: NodeV) -> Seq<char> {
    n.id + match n.attribute_list {
        Some(al) => attribute_list_text(al),
        None => Seq::empty(),
    }
}

/// A simple identifier: a nonempty run of identifier characters that is
/// not a keyword.  Such an identifier relexes as the single `Id` token it
/// was printed from.
pub open spec fn simple_id(s: Seq<char>) -> bool {
    s.len() > 0 && (forall|i: int| 0 <= i < s.len() ==> is_ident_char(#[trigger] s[i]))
        && word_kind(s) == Token::Id
}

/// Both sides of the assignment are simple identifiers.
pub open spec fn assignment_simple(a: AssignmentV) -> bool {
    simple_id(a.key) && simple_id(a.value)
}

/// Every assignment of every group is over simple identifiers, and there
/// is at least one group (a parsed attribute list always has one).
pub open spec fn attribute_list_simple(al: AttributeListV) -> bool {
    al.len() >= 1 && (forall|i: int, j: int|
        0 <= i < al.len() && 0 <= j < al[i].len() ==> assignment_simple(#[trigger] al[i][j]))
}

/// The node's identifier is simple, and so is its attribute list when it
/// has one.
pub open spec fn node_simple(n: NodeV) -> bool {
    simple_id(n.id) && match n.attribute_list {
        Some(al) => attribute_list_simple(al),
        None => true,
    }
}

/// The `Id` lexeme carrying the given text.
pub open spec fn id_lexeme(s: Seq<char>) -> LexemeV {
    LexemeV { kind: Token::Id, text: s }
}

/// The tokens of one assignment.
pub open spec fn assignment_tokens(a: AssignmentV) -> Seq<LexemeV> {
    seq![id_lexeme(a.key), bare_lexeme(Token::Equals), id_lexeme(a.value)]
}

/// The tokens of one group's assignments, joined by commas.
pub open spec fn group_items_tokens(g: Seq<AssignmentV>) -> Seq<LexemeV>
    decreases g.len(),
{
    if g.len() == 0 {
        Seq::empty()
    } else if g.len() == 1 {
        assignment_tokens(g[0])
    } else {
        assignment_tokens(g[0]) + seq![bare_lexeme(Token::Comma)] + group_items_tokens(
            g.subrange(1, g.len() as int),
        )
    }
}

/// The tokens of one bracket group.
pub open spec fn group_tokens(g: Seq<AssignmentV>) -> Seq<LexemeV> {
    seq![bare_lexeme(Token::OpenBracket)] + group_items_tokens(g) + seq![
        bare_lexeme(Token::CloseBracket),
    ]
}

/// The tokens of an attribute list.
pub open spec fn attribute_list_tokens(al: AttributeListV) -> Seq<LexemeV>
    decreases al.len(),
{
    if al.len() == 0 {
        Seq::empty()
    } else {
        group_tokens(al[0]) + attribute_list_tokens(al.subrange(1, al.len() as int))
    }
}

/// The tokens of a node statement.
pub open spec fn node_tokens(n: NodeV) -> Seq<LexemeV> {
    seq![id_lexeme(n.id)] + match n.attribute_list {
        Some(al) => attribute_list_tokens(al),
        None => Seq::empty(),
    }
}

proof fn lemma_parse_assignment_tokens(toks: Seq<LexemeV>, pos: int, a: AssignmentV)
    requires
        0 <= pos,
        pos + 3 <= toks.len(),
        toks.subrange(pos, pos + 3) == assignment_tokens(a),
    ensures
        spec_parse_assignment(toks, pos) == Ok::<(AssignmentV, int), ParseError>((a, pos + 3)),
{
    assert(toks[pos] == assignment_tokens(a)[0]);
    assert(toks[pos + 1] == assignment_tokens(a)[1]);
    assert(toks[pos + 2] == assignment_tokens(a)[2]);
    assert(a == (AssignmentV { key: a.key, value: a.value }));
}

proof fn lemma_parse_group_items_tokens(toks: Seq<LexemeV>, pos: int, g: Seq<AssignmentV>)
    requires
        0 <= pos,
        pos + group_items_tokens(g).len() <= toks.len(),
        toks.subrange(pos, pos + group_items_tokens(g).len() as int) == group_items_tokens(g),
        tok_at(toks, pos + group_items_tokens(g).len() as int) == Some(Token::CloseBracket),
    ensures
        spec_parse_group_items(toks, pos) == Ok::<(Seq<AssignmentV>, int), ParseError>(
            (g, pos + group_items_tokens(g).len() as int),
        ),
    decreases g.len(),
{
    let l = group_items_tokens(g).len() as int;
    if g.len() == 0 {
        assert(g =~= Seq::<AssignmentV>::empty());
    } else if g.len() == 1 {
        assert(l == 3);
        assert(toks.subrange(pos, pos + 3) =~= group_items_tokens(g));
        lemma_parse_assignment_tokens(toks, pos, g[0]);
        assert(toks[pos] == group_items_tokens(g)[0]);
        assert(tok_at(toks, pos) == Some(Token::Id));
        assert(spec_parse_group_items(toks, pos + 3) == Ok::<(Seq<AssignmentV>, int), ParseError>(
            (Seq::empty(), pos + 3),
        ));
        assert(seq![g[0]] + Seq::<AssignmentV>::empty() =~= g);
        assert(spec_parse_group_items(toks, pos) == Ok::<(Seq<AssignmentV>, int), ParseError>(
            (g, pos + 3),
        ));
    } else {
        let rest = g.subrange(1, g.len() as int);
        let rl = group_items_tokens(rest).len() as int;
        assert(l == 4 + rl);
        assert(toks.subrange(pos, pos + 3) =~= assignment_tokens(g[0])) by {
            assert(forall|i: int|
                0 <= i < l ==> toks[pos + i] == #[trigger] group_items_tokens(g)[i]);
        }
        lemma_parse_assignment_tokens(toks, pos, g[0]);
        assert(toks[pos + 3] == group_items_tokens(g)[3]);
        assert(group_items_tokens(g)[3] == bare_lexeme(Token::Comma));
        assert(toks.subrange(pos + 4, pos + 4 + rl) =~= group_items_tokens(rest)) by {
            assert(forall|i: int|
                0 <= i < l ==> toks[pos + i] == #[trigger] group_items_tokens(g)[i]);
            assert(forall|i: int|
                0 <= i < rl ==> group_items_tokens(g)[4 + i] == #[trigger] group_items_tokens(
                    rest,
                )[i]);
        }
        lemma_parse_group_items_tokens(toks, pos + 4, rest);
        assert(toks[pos] == group_items_tokens(g)[0]);
        assert(tok_at(toks, pos) == Some(Token::Id));
        assert(seq![g[0]] + rest =~= g);
        assert(spec_parse_group_items(toks, pos) == Ok::<(Seq<AssignmentV>, int), ParseError>(
            (g, pos + l),
        ));
    }
}

proof fn lemma_parse_attribute_list_tokens(toks: Seq<LexemeV>, pos: int, al: AttributeListV)
    requires
        0 <= pos,
        al.len() >= 1,
        pos + attribute_list_tokens(al).len() <= toks.len(),
        toks.subrange(pos, pos + attribute_list_tokens(al).len() as int) == attribute_list_tokens(
            al,
        ),
        tok_at(toks, pos + attribute_list_tokens(al).len() as int) != Some(Token::OpenBracket),
    ensures
        spec_parse_attr_groups(toks, pos) == Ok::<(AttributeListV, int), ParseError>(
            (al, pos + attribute_list_tokens(al).len() as int),
        ),
    decreases al.len(),
{
    let l = attribute_list_tokens(al).len() as int;
    let g = al[0];
    let il = group_items_tokens(g).len() as int;
    let rest = al.subrange(1, al.len() as int);
    let rl = attribute_list_tokens(rest).len() as int;
    assert(group_tokens(g).len() == il + 2);
    assert(l == il + 2 + rl);
    assert(forall|i: int| 0 <= i < l ==> toks[pos + i] == #[trigger] attribute_list_tokens(al)[i]);
    assert(attribute_list_tokens(al)[0] == group_tokens(g)[0]);
    assert(toks[pos] == bare_lexeme(Token::OpenBracket));
    assert(toks.subrange(pos + 1, pos + 1 + il) =~= group_items_tokens(g)) by {
        assert(forall|i: int|
            0 <= i < il ==> attribute_list_tokens(al)[1 + i] == #[trigger] group_items_tokens(
                g,
            )[i]);
    }
    assert(toks[pos + 1 + il] == attribute_list_tokens(al)[1 + il]);
    assert(attribute_list_tokens(al)[1 + il] == group_tokens(g)[1 + il]);
    assert(toks[pos + 1 + il] == bare_lexeme(Token::CloseBracket));
    lemma_parse_group_items_tokens(toks, pos + 1, g);
    let p1 = pos + 1 + il;
    if al.len() == 1 {
        assert(rl == 0);
        assert(tok_at(toks, p1 + 1) != Some(Token::OpenBracket));
        assert(seq![g] =~= al);
    } else {
        assert(attribute_list_tokens(rest).len() >= group_tokens(rest[0]).len());
        assert(attribute_list_tokens(al)[il + 2] == attribute_list_tokens(rest)[0]);
        assert(attribute_list_tokens(rest)[0] == group_tokens(rest[0])[0]);
        assert(toks[p1 + 1] == bare_lexeme(Token::OpenBracket));
        assert(toks.subrange(p1 + 1, p1 + 1 + rl) =~= attribute_list_tokens(rest)) by {
            assert(forall|i: int|
                0 <= i < rl ==> attribute_list_tokens(al)[il + 2 + i]
                    == #[trigger] attribute_list_tokens(rest)[i]);
        }
        lemma_parse_attribute_list_tokens(toks, p1 + 1, rest);
        assert(seq![g] + rest =~= al);
    }
}

/// Parsing inverts printing at the token level: the token sequence of any
/// node whose attribute list is not empty-but-present parses back to
/// exactly that node, consuming the whole sequence.
pub proof fn lemma_node_tokens_round_trip(n: NodeV)
    requires
        n.attribute_list matches Some(al) ==> al.len() >= 1,
    ensures
        spec_parse_node(node_tokens(n), 0) == Ok::<(NodeV, int), ParseError>(
            (n, node_tokens(n).len() as int),
        ),
{
    let toks = node_tokens(n);
    assert(toks[0] == id_lexeme(n.id));
    assert(spec_parse_id(toks, 0) == Ok::<(Seq<char>, int), ParseError>((n.id, 1)));
    match n.attribute_list {
        None => {
            assert(toks.len() == 1);
            assert(n == (NodeV { id: n.id, attribute_list: None }));
        },
        Some(al) => {
            let l = attribute_list_tokens(al).len() as int;
            assert(toks.len() == 1 + l);
            assert(toks.subrange(1, 1 + l) =~= attribute_list_tokens(al)) by {
                assert(forall|i: int|
                    0 <= i < l ==> toks[1 + i] == #[trigger] attribute_list_tokens(al)[i]);
            }
            lemma_parse_attribute_list_tokens(toks, 1, al);
            assert(n == (NodeV { id: n.id, attribute_list: Some(al) }));
        },
    }
}

/// The text from `pos` to `end` lexes to exactly `toks`: tokenizing from
/// `pos` yields `toks` followed by whatever the text from `end` yields.
pub open spec fn lexes_to(s: Seq<char>, pos: int, end: int, toks: Seq<LexemeV>) -> bool {
    spec_tokenize_from(s, pos) == (match spec_tokenize_from(s, end) {
        Ok(rest) => Ok::<Seq<LexemeV>, int>(toks + rest),
        Err(p) => Err::<Seq<LexemeV>, int>(p),
    })
}

proof fn lemma_lexes_to_trans(s: Seq<char>, a: int, b: int, c: int, t1: Seq<LexemeV>, t2: Seq<
    LexemeV,
>)
    requires
        lexes_to(s, a, b, t1),
        lexes_to(s, b, c, t2),
    ensures
        lexes_to(s, a, c, t1 + t2),
{
    match spec_tokenize_from(s, c) {
        Ok(rest) => {
            assert(t1 + (t2 + rest) =~= (t1 + t2) + rest);
        },
        Err(_) => {},
    }
}

proof fn lemma_ident_end_run(s: Seq<char>, pos: int, e: int)
    requires
        0 <= pos <= e <= s.len(),
        forall|i: int| pos <= i < e ==> is_ident_char(#[trigger] s[i]),
        e == s.len() || !is_ident_char(s[e]),
    ensures
        ident_end(s, pos) == e,
    decreases e - pos,
{
    if pos < e {
        lemma_ident_end_run(s, pos + 1, e);
    }
}

proof fn lemma_lex_ident(s: Seq<char>, pos: int, id: Seq<char>)
    requires
        0 <= pos,
        pos + id.len() <= s.len(),
        s.subrange(pos, pos + id.len() as int) == id,
        simple_id(id),
        pos + id.len() == s.len() || !is_ident_char(s[pos + id.len()]),
    ensures
        lexes_to(s, pos, pos + id.len() as int, seq![id_lexeme(id)]),
{
    let e = pos + id.len() as int;
    assert(forall|i: int| pos <= i < e ==> s[i] == id[i - pos]);
    assert(forall|i: int| pos <= i < e ==> is_ident_char(#[trigger] s[i]));
    lemma_ident_end_run(s, pos, e);
    let c = s[pos];
    assert(c == id[0]);
    assert(is_ident_char(c));
    assert(!is_space_char(c));
    assert(c != '/' && c != '"' && c != '-');
    assert(s.subrange(pos, e) =~= id);
    assert(word_lexeme(id) == id_lexeme(id));
}

proof fn lemma_lex_punct(s: Seq<char>, pos: int, c: char, t: Token)
    requires
        0 <= pos < s.len(),
        s[pos] == c,
        (c == '=' && t == Token::Equals) || (c == '[' && t == Token::OpenBracket) || (c == ']' && t
            == Token::CloseBracket) || (c == ',' && t == Token::Comma),
    ensures
        lexes_to(s, pos, pos + 1, seq![bare_lexeme(t)]),
{
    assert(!is_space_char(c));
    assert(!is_ident_char(c));
    assert(c != '/' && c != '"' && c != '-');
}

proof fn lemma_tokenize_assignment(s: Seq<char>, pos: int, a: AssignmentV)
    requires
        0 <= pos,
        pos + assignment_text(a).len() <= s.len(),
        s.subrange(pos, pos + assignment_text(a).len() as int) == assignment_text(a),
        assignment_simple(a),
        pos + assignment_text(a).len() == s.len() || !is_ident_char(
            s[pos + assignment_text(a).len()],
        ),
    ensures
        lexes_to(s, pos, pos + assignment_text(a).len() as int, assignment_tokens(a)),
{
    let kl = a.key.len() as int;
    let vl = a.value.len() as int;
    let l = assignment_text(a).len() as int;
    assert(l == kl + 1 + vl);
    assert(forall|i: int| 0 <= i < l ==> s[pos + i] == #[trigger] assignment_text(a)[i]);
    assert(s.subrange(pos, pos + kl) =~= a.key) by {
        assert(forall|i: int| 0 <= i < kl ==> assignment_text(a)[i] == #[trigger] a.key[i]);
    }
    assert(assignment_text(a)[kl] == '=');
    assert(s[pos + kl] == '=');
    assert(!is_ident_char('='));
    lemma_lex_ident(s, pos, a.key);
    lemma_lex_punct(s, pos + kl, '=', Token::Equals);
    assert(s.subrange(pos + kl + 1, pos + kl + 1 + vl) =~= a.value) by {
        assert(forall|i: int|
            0 <= i < vl ==> assignment_text(a)[kl + 1 + i] == #[trigger] a.value[i]);
    }
    lemma_lex_ident(s, pos + kl + 1, a.value);
    lemma_lexes_to_trans(
        s,
        pos,
        pos + kl,
        pos + kl + 1,
        seq![id_lexeme(a.key)],
        seq![bare_lexeme(Token::Equals)],
    );
    assert(seq![id_lexeme(a.key)] + seq![bare_lexeme(Token::Equals)] =~= seq![
        id_lexeme(a.key),
        bare_lexeme(Token::Equals),
    ]);
    lemma_lexes_to_trans(
        s,
        pos,
        pos + kl + 1,
        pos + l,
        seq![id_lexeme(a.key), bare_lexeme(Token::Equals)],
        seq![id_lexeme(a.value)],
    );
    assert(seq![id_lexeme(a.key), bare_lexeme(Token::Equals)] + seq![id_lexeme(a.value)]
        =~= assignment_tokens(a));
}

proof fn lemma_tokenize_group_items(s: Seq<char>, pos: int, g: Seq<AssignmentV>)
    requires
        0 <= pos,
        pos + group_items_text(g).len() < s.len(),
        s.subrange(pos, pos + group_items_text(g).len() as int) == group_items_text(g),
        forall|j: int| 0 <= j < g.len() ==> assignment_simple(#[trigger] g[j]),
        s[pos + group_items_text(g).len()] == ']',
    ensures
        lexes_to(s, pos, pos + group_items_text(g).len() as int, group_items_tokens(g)),
    decreases g.len(),
{
    let l = group_items_text(g).len() as int;
    if g.len() == 0 {
        assert(group_items_tokens(g) =~= Seq::<LexemeV>::empty());
        match spec_tokenize_from(s, pos) {
            Ok(rest) => {
                assert(Seq::<LexemeV>::empty() + rest =~= rest);
            },
            Err(_) => {},
        }
    } else if g.len() == 1 {
        assert(group_items_text(g) == assignment_text(g[0]));
        assert(!is_ident_char(']'));
        lemma_tokenize_assignment(s, pos, g[0]);
    } else {
        let al = assignment_text(g[0]).len() as int;
        let rest = g.subrange(1, g.len() as int);
        let rl = group_items_text(rest).len() as int;
        assert(l == al + 1 + rl);
        assert(forall|i: int| 0 <= i < l ==> s[pos + i] == #[trigger] group_items_text(g)[i]);
        assert(s.subrange(pos, pos + al) =~= assignment_text(g[0])) by {
            assert(forall|i: int|
                0 <= i < al ==> group_items_text(g)[i] == #[trigger] assignment_text(g[0])[i]);
        }
        assert(group_items_text(g)[al] == ',');
        assert(s[pos + al] == ',');
        assert(!is_ident_char(','));
        lemma_tokenize_assignment(s, pos, g[0]);
        lemma_lex_punct(s, pos + al, ',', Token::Comma);
        assert(s.subrange(pos + al + 1, pos + al + 1 + rl) =~= group_items_text(rest)) by {
            assert(forall|i: int|
                0 <= i < rl ==> group_items_text(g)[al + 1 + i] == #[trigger] group_items_text(
                    rest,
                )[i]);
        }
        lemma_tokenize_group_items(s, pos + al + 1, rest);
        lemma_lexes_to_trans(
            s,
            pos,
            pos + al,
            pos + al + 1,
            assignment_tokens(g[0]),
            seq![bare_lexeme(Token::Comma)],
        );
        lemma_lexes_to_trans(
            s,
            pos,
            pos + al + 1,
            pos + l,
            assignment_tokens(g[0]) + seq![bare_lexeme(Token::Comma)],
            group_items_tokens(rest),
        );
        assert((assignment_tokens(g[0]) + seq![bare_lexeme(Token::Comma)]) + group_items_tokens(
            rest,
        ) =~= group_items_tokens(g));
    }
}

proof fn lemma_tokenize_attribute_list(s: Seq<char>, pos: int, al: AttributeListV)
    requires
        0 <= pos,
        pos + attribute_list_text(al).len() <= s.len(),
        s.subrange(pos, pos + attribute_list_text(al).len() as int) == attribute_list_text(al),
        forall|i: int, j: int|
            0 <= i < al.len() && 0 <= j < al[i].len() ==> assignment_simple(#[trigger] al[i][j]),
    ensures
        lexes_to(s, pos, pos + attribute_list_text(al).len() as int, attribute_list_tokens(al)),
    decreases al.len(),
{
    let l = attribute_list_text(al).len() as int;
    if al.len() == 0 {
        assert(attribute_list_tokens(al) =~= Seq::<LexemeV>::empty());
        match spec_tokenize_from(s, pos) {
            Ok(rest) => {
                assert(Seq::<LexemeV>::empty() + rest =~= rest);
            },
            Err(_) => {},
        }
    } else {
        let g = al[0];
        let il = group_items_text(g).len() as int;
        let gl = il + 2;
        let rest = al.subrange(1, al.len() as int);
        let rl = attribute_list_text(rest).len() as int;
        assert(group_text(g).len() == gl);
        assert(l == gl + rl);
        assert(forall|i: int| 0 <= i < l ==> s[pos + i] == #[trigger] attribute_list_text(al)[i]);
        assert(forall|i: int|
            0 <= i < gl ==> attribute_list_text(al)[i] == #[trigger] group_text(g)[i]);
        assert(s[pos + 0] == attribute_list_text(al)[0]);
        assert(group_text(g)[0] == '[');
        assert(s[pos] == '[');
        lemma_lex_punct(s, pos, '[', Token::OpenBracket);
        assert(s.subrange(pos + 1, pos + 1 + il) =~= group_items_text(g)) by {
            assert(forall|i: int|
                0 <= i < il ==> group_text(g)[1 + i] == #[trigger] group_items_text(g)[i]);
        }
        assert(s[pos + (1 + il)] == attribute_list_text(al)[1 + il]);
        assert(group_text(g)[1 + il] == ']');
        assert(s[pos + 1 + il] == ']');
        lemma_tokenize_group_items(s, pos + 1, g);
        lemma_lex_punct(s, pos + 1 + il, ']', Token::CloseBracket);
        assert(s.subrange(pos + gl, pos + gl + rl) =~= attribute_list_text(rest)) by {
            assert(forall|i: int|
                0 <= i < rl ==> attribute_list_text(al)[gl + i] == #[trigger] attribute_list_text(
                    rest,
                )[i]);
        }
        lemma_tokenize_attribute_list(s, pos + gl, rest);
        lemma_lexes_to_trans(
            s,
            pos,
            pos + 1,
            pos + 1 + il,
            seq![bare_lexeme(Token::OpenBracket)],
            group_items_tokens(g),
        );
        lemma_lexes_to_trans(
            s,
            pos,
            pos + 1 + il,
            pos + gl,
            seq![bare_lexeme(Token::OpenBracket)] + group_items_tokens(g),
            seq![bare_lexeme(Token::CloseBracket)],
        );
        lemma_lexes_to_trans(
            s,
            pos,
            pos + gl,
            pos + l,
            (seq![bare_lexeme(Token::OpenBracket)] + group_items_tokens(g)) + seq![
                bare_lexeme(Token::CloseBracket),
            ],
            attribute_list_tokens(rest),
        );
        assert(((seq![bare_lexeme(Token::OpenBracket)] + group_items_tokens(g)) + seq![
            bare_lexeme(Token::CloseBracket),
        ]) + attribute_list_tokens(rest) =~= attribute_list_tokens(al));
    }
}

/// Reserializing and reparsing is the identity on assignments with simple
/// identifiers: tokenizing the printed text of such an assignment yields
/// exactly its token sequence, and parsing that back yields an equal
/// assignment, consuming all of it.
pub proof fn lemma_assignment_round_trip(a: AssignmentV)
    requires
        assignment_simple(a),
    ensures
        spec_tokenize(assignment_text(a)) == Ok::<Seq<LexemeV>, int>(assignment_tokens(a)),
        spec_parse_assignment(assignment_tokens(a), 0) == Ok::<(AssignmentV, int), ParseError>(
            (a, 3),
        ),
{
    let s = assignment_text(a);
    let l = s.len() as int;
    assert(s.subrange(0, l) =~= s);
    lemma_tokenize_assignment(s, 0, a);
    assert(spec_tokenize_from(s, l) == Ok::<Seq<LexemeV>, int>(Seq::empty()));
    assert(assignment_tokens(a) + Seq::<LexemeV>::empty() =~= assignment_tokens(a));
    let toks = assignment_tokens(a);
    assert(toks.subrange(0, 3) =~= toks);
    lemma_parse_assignment_tokens(toks, 0, a);
}

/// Reserializing and reparsing is the identity on attribute lists over
/// simple identifiers: tokenizing the printed text of such a list yields
/// exactly its token sequence, and parsing that back yields an equal list,
/// group and assignment order preserved, consuming all of it.
pub proof fn lemma_attribute_list_round_trip(al: AttributeListV)
    requires
        attribute_list_simple(al),
    ensures
        spec_tokenize(attribute_list_text(al)) == Ok::<Seq<LexemeV>, int>(
            attribute_list_tokens(al),
        ),
        spec_parse_attr_groups(attribute_list_tokens(al), 0) == Ok::<
            (AttributeListV, int),
            ParseError,
        >((al, attribute_list_tokens(al).len() as int)),
{
    let s = attribute_list_text(al);
    let l = s.len() as int;
    assert(s.subrange(0, l) =~= s);
    lemma_tokenize_attribute_list(s, 0, al);
    assert(spec_tokenize_from(s, l) == Ok::<Seq<LexemeV>, int>(Seq::empty()));
    assert(attribute_list_tokens(al) + Seq::<LexemeV>::empty() =~= attribute_list_tokens(al));
    let toks = attribute_list_tokens(al);
    assert(toks.subrange(0, toks.len() as int) =~= toks);
    lemma_parse_attribute_list_tokens(toks, 0, al);
}

/// Reserializing and reparsing is the identity on the
/// assignment / attribute-list / node subset with simple identifiers:
/// tokenizing the printed text of such a node yields exactly its token
/// sequence, and parsing that token sequence back yields an equal node,
/// consuming all of it.
pub proof fn lemma_node_round_trip(n: NodeV)
    requires
        node_simple(n),
    ensures
        spec_tokenize(node_text(n)) == Ok::<Seq<LexemeV>, int>(node_tokens(n)),
        spec_parse_node(node_tokens(n), 0) == Ok::<(NodeV, int), ParseError>(
            (n, node_tokens(n).len() as int),
        ),
{
    let s = node_text(n);
    let il = n.id.len() as int;
    assert(forall|i: int| 0 <= i < il ==> s[i] == #[trigger] n.id[i]);
    assert(s.subrange(0, il) =~= n.id);
    match n.attribute_list {
        None => {
            assert(s.len() == il);
            lemma_lex_ident(s, 0, n.id);
            assert(spec_tokenize_from(s, il) == Ok::<Seq<LexemeV>, int>(Seq::empty()));
            assert(seq![id_lexeme(n.id)] + Seq::<LexemeV>::empty() =~= node_tokens(n));
        },
        Some(al) => {
            let l = attribute_list_text(al).len() as int;
            assert(s.len() == il + l);
            assert(forall|i: int| 0 <= i < l ==> s[il + i] == #[trigger] attribute_list_text(al)[i]);
            assert(al.len() >= 1);
            assert(attribute_list_text(al)[0] == group_text(al[0])[0]);
            assert(s[il] == '[');
            assert(!is_ident_char('['));
            lemma_lex_ident(s, 0, n.id);
            assert(s.subrange(il, il + l) =~= attribute_list_text(al));
            lemma_tokenize_attribute_list(s, il, al);
            lemma_lexes_to_trans(s, 0, il, il + l, seq![id_lexeme(n.id)], attribute_list_tokens(al));
            assert(spec_tokenize_from(s, il + l) == Ok::<Seq<LexemeV>, int>(Seq::empty()));
            assert((seq![id_lexeme(n.id)] + attribute_list_tokens(al)) + Seq::<LexemeV>::empty()
                =~= node_tokens(n));
        },
    }
    lemma_node_tokens_round_trip(n);
}

/// Serialize one assignment.
pub fn assignment_to_dot(a: &Assignment) -> (r: String)
    ensures
        r@ == assignment_text(assignment_view(*a)),
{
    let mut s = String::new();
    s.append(a.key.as_str());
    s.append("=");
    s.append(a.value.as_str());
    proof {
        reveal_strlit("=");
        assert(s@ =~= assignment_text(assignment_view(*a)));
    }
    s
}

fn group_items_to_dot(g: &Vec<Assignment>, i: usize) -> (r: String)
    requires
        i <= g@.len(),
    ensures
        r@ == group_items_text(assignments_view(g@).subrange(i as int, g@.len() as int)),
    decreases g@.len() - i,
{
    let ghost tail = assignments_view(g@).subrange(i as int, g@.len() as int);
    if i >= g.len() {
        let s = String::new();
        proof {
            assert(tail.len() == 0);
        }
        s
    } else if i + 1 == g.len() {
        let s = assignment_to_dot(&g[i]);
        proof {
            assert(tail.len() == 1);
            assert(tail[0] == assignment_view(g@[i as int]));
        }
        s
    } else {
        let mut s = assignment_to_dot(&g[i]);
        s.append(",");
        let rest = group_items_to_dot(g, i + 1);
        s.append(rest.as_str());
        proof {
            reveal_strlit(",");
            assert(tail[0] == assignment_view(g@[i as int]));
            assert(tail.subrange(1, tail.len() as int) =~= assignments_view(g@).subrange(
                i + 1,
                g@.len() as int,
            ));
            assert(s@ =~= group_items_text(tail));
        }
        s
    }
}

fn attribute_list_to_dot_from(al: &AttributeList, i: usize) -> (r: String)
    requires
        i <= al@.len(),
    ensures
        r@ == attribute_list_text(
            attribute_list_view(*al).subrange(i as int, al@.len() as int),
        ),
    decreases al@.len() - i,
{
    let ghost tail = attribute_list_view(*al).subrange(i as int, al@.len() as int);
    if i >= al.len() {
        let s = String::new();
        proof {
            assert(tail.len() == 0);
        }
        s
    } else {
        let mut s = String::new();
        s.append("[");
        let items = group_items_to_dot(&al[i], 0);
        s.append(items.as_str());
        s.append("]");
        let rest = attribute_list_to_dot_from(al, i + 1);
        s.append(rest.as_str());
        proof {
            reveal_strlit("[");
            reveal_strlit("]");
            assert(tail[0] == assignments_view(al@[i as int]@));
            assert(assignments_view(al@[i as int]@).subrange(
                0,
                al@[i as int]@.len() as int,
            ) =~= assignments_view(al@[i as int]@));
            assert(tail.subrange(1, tail.len() as int) =~= attribute_list_view(*al).subrange(
                i + 1,
                al@.len() as int,
            ));
            assert(s@ =~= attribute_list_text(tail));
        }
        s
    }
}

/// Serialize an attribute list: its bracket groups, one after another.
pub fn attribute_list_to_dot(al: &AttributeList) -> (r: String)
    ensures
        r@ == attribute_list_text(attribute_list_view(*al)),
{
    let r = attribute_list_to_dot_from(al, 0);
    proof {
        assert(attribute_list_view(*al).subrange(0, al@.len() as int) =~= attribute_list_view(
            *al,
        ));
    }
    r
}

/// Serialize a node statement.
pub fn node_to_dot(n: &Node) -> (r: String)
    ensures
        r@ == node_text(node_view(*n)),
{
    let mut s = String::new();
    s.append(n.id.as_str());
    match &n.attribute_list {
        Some(al) => {
            let t = attribute_list_to_dot(al);
            s.append(t.as_str());
        },
        None => {
            proof {
                assert(s@ =~= node_text(node_view(*n)));
            }
        },
    }
    proof {
        assert(s@ =~= node_text(node_view(*n)));
    }
    s
}

} // verus!
