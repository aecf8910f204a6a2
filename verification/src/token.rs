//! The units that terminal output is split into before it is rendered.

use vstd::prelude::*;
use ansi_parser::{AnsiParser, AnsiSequence, Output};

verus! {

/// One unit of tokenized terminal output.
#[derive(Debug, PartialEq, Eq)]
pub enum Token {
    /// An SGR escape sequence, with its parameters.
    Graphics(Vec<u8>),
    /// A run of literal text, not yet escaped.
    Text(String),
    /// Any other escape sequence.
    Other,
}

/// A token as contracts see it.
pub enum TokenView {
    Graphics(Seq<u8>),
    Text(Seq<char>),
    Other,
}

impl View for Token {
    type V = TokenView;

    open spec fn view(&self) -> TokenView {
        match *self {
            Token::Graphics(parameters) => TokenView::Graphics(parameters@),
            Token::Text(text) => TokenView::Text(text@),
            Token::Other => TokenView::Other,
        }
    }
}

impl Clone for Token {
    fn clone(&self) -> (copy: Self)
        ensures
            copy@ == self@,
    {
        match self {
            Token::Graphics(parameters) => Token::Graphics(parameters.clone()),
            Token::Text(text) => Token::Text(text.clone()),
            Token::Other => Token::Other,
        }
    }
}

/// The views of `tokens`, in order.
pub open spec fn token_views(tokens: Seq<Token>) -> Seq<TokenView> {
    tokens.map_values(|token: Token| token@)
}

/// The tokens that the ANSI lexer splits `text` into.
pub uninterp spec fn ansi_tokens(text: Seq<char>) -> Seq<TokenView>;

/// Runs the iterator of `ansi_parser::AnsiParser::ansi_parse` over `text` to
/// its end. Trusted: what the lexer yields depends on the text alone. Each
/// item is carried over as it came: a text block with its text, a
/// `SetGraphicsMode` sequence with its parameters, any other escape sequence
/// as `Token::Other`.
#[verifier::external_body]
pub(crate) fn tokenize(text: &str) -> (tokens: Vec<Token>)
    ensures
        token_views(tokens@) == ansi_tokens(text@),
{
    let mut tokens = Vec::new();
    for block in text.ansi_parse() {
        tokens.push(match block {
            Output::TextBlock(run) => Token::Text(run.to_string()),
            Output::Escape(AnsiSequence::SetGraphicsMode(mode)) => Token::Graphics(mode.to_vec()),
            Output::Escape(_) => Token::Other,
        });
    }
    tokens
}

} // verus!
