//! Tests for the tokenizer.

use dot_ast::lex::tokenize;
use dot_ast::lex::Token;

#[test]
fn keywords_and_punctuation() {
    let toks = tokenize("strict digraph g { a -> b; }").unwrap();
    let kinds: Vec<Token> = toks.iter().map(|l| l.kind).collect();
    assert_eq!(
        kinds,
        vec![
            Token::Strict,
            Token::Digraph,
            Token::Id,
            Token::OpenBrace,
            Token::Id,
            Token::DirectedOp,
            Token::Id,
            Token::Semicolon,
            Token::CloseBrace,
        ]
    );
    assert_eq!(toks[2].text, String::from("g"));
}

#[test]
fn undirected_operator_and_brackets() {
    let toks = tokenize("a -- b [w=2]").unwrap();
    let kinds: Vec<Token> = toks.iter().map(|l| l.kind).collect();
    assert_eq!(
        kinds,
        vec![
            Token::Id,
            Token::UndirectedOp,
            Token::Id,
            Token::OpenBracket,
            Token::Id,
            Token::Equals,
            Token::Id,
            Token::CloseBracket,
        ]
    );
}

#[test]
fn quoted_identifier_keeps_inner_text() {
    let toks = tokenize("\"Node 1\"").unwrap();
    assert_eq!(toks.len(), 1);
    assert_eq!(toks[0].kind, Token::Id);
    assert_eq!(toks[0].text, String::from("Node 1"));
}

#[test]
fn keyword_prefix_is_plain_identifier() {
    let toks = tokenize("graphs subgraph_x digraph").unwrap();
    let kinds: Vec<Token> = toks.iter().map(|l| l.kind).collect();
    assert_eq!(kinds, vec![Token::Id, Token::Id, Token::Digraph]);
    assert_eq!(toks[0].text, String::from("graphs"));
}

#[test]
fn comments_are_skipped() {
    let toks = tokenize("a // rest of line\n b /* block\n comment */ c").unwrap();
    let kinds: Vec<Token> = toks.iter().map(|l| l.kind).collect();
    assert_eq!(kinds, vec![Token::Id, Token::Id, Token::Id]);
}

#[test]
fn unrecognized_character_position_reported() {
    assert_eq!(tokenize("ab % c"), Err(3));
}

#[test]
fn unclosed_quote_is_an_error_at_the_quote() {
    assert_eq!(tokenize("a \"unclosed"), Err(2));
}

#[test]
fn lone_dash_is_an_error() {
    assert_eq!(tokenize("a - b"), Err(2));
}

#[test]
fn unclosed_block_comment_is_an_error() {
    assert_eq!(tokenize("a /* never closed"), Err(2));
}
