//! The driving loop: from tokens to the HTML fragment.

use vstd::prelude::*;
use vstd::string::*;
use crate::escape::{encode_text, escaped_text};
use crate::state::GraphicsModeState;
use crate::tags::{enclosed, lemma_enclosed_by_tags};
use crate::token::{ansi_tokens, token_views, tokenize, Token, TokenView};

verus! {

impl GraphicsModeState {
    /// `body` between the opening and the closing tags of the state.
    pub open spec fn wrapped(self, body: Seq<char>) -> Seq<char> {
        self.opening_tags() + body + self.closing_tags()
    }

    /// What one token adds to the output: a run of text gives its escaped
    /// text between the tags of the state, an escape sequence gives nothing.
    pub open spec fn emitted(self, token: TokenView) -> Seq<char> {
        match token {
            TokenView::Text(text) => self.wrapped(escaped_text(text)),
            TokenView::Graphics(_) => Seq::empty(),
            TokenView::Other => Seq::empty(),
        }
    }

    /// The state behind one token: an SGR sequence is scanned into the
    /// state, any other token leaves it as it is.
    pub open spec fn after(self, token: TokenView) -> GraphicsModeState {
        match token {
            TokenView::Graphics(parameters) => self.scanned(parameters),
            TokenView::Text(_) => self,
            TokenView::Other => self,
        }
    }

    /// Escapes a run of literal text and wraps it in the tags of the state.
    pub fn render_text(&self, text: &str) -> (html: String)
        ensures
            html@ == self.wrapped(escaped_text(text@)),
    {
        let (opening, closing) = self.build_tags();
        let mut html = opening;
        let body = encode_text(text);
        html.append(body.as_str());
        html.append(closing.as_str());
        html
    }

    /// Processes one token: returns the state behind it and what it adds to
    /// the output.
    pub fn step(&self, token: &Token) -> (next: (Self, String))
        ensures
            next.0 == self.after(token@),
            next.1@ == self.emitted(token@),
            self.wf() ==> next.0.wf(),
    {
        match token {
            Token::Graphics(parameters) => (self.clone_from_scan(parameters.as_slice()), String::new()),
            Token::Text(text) => (*self, self.render_text(text.as_str())),
            Token::Other => (*self, String::new()),
        }
    }
}

/// Wrapping is nesting: a body between the opening and the closing tags of
/// a state is the body enclosed in the active tags of the state, the first
/// of them outermost.
pub proof fn lemma_wrapped_is_enclosed(state: GraphicsModeState, body: Seq<char>)
    ensures
        state.wrapped(body) == enclosed(state.active_tags(), body),
{
    lemma_enclosed_by_tags(state.active_tags(), body);
}

/// The output for `tokens`, read from `state` on.
pub open spec fn rendered_from(state: GraphicsModeState, tokens: Seq<TokenView>) -> Seq<char>
    decreases tokens.len(),
{
    if tokens.len() == 0 {
        Seq::empty()
    } else {
        state.emitted(tokens[0]) + rendered_from(state.after(tokens[0]), tokens.skip(1))
    }
}

/// The HTML fragment for `tokens`: the output read from the initial state on.
pub open spec fn rendered(tokens: Seq<TokenView>) -> Seq<char> {
    rendered_from(GraphicsModeState::initial(), tokens)
}

/// Renders a sequence of tokens as an HTML fragment, starting with no
/// styling active.
pub fn render_tokens(tokens: &[Token]) -> (html: String)
    ensures
        html@ == rendered(token_views(tokens@)),
{
    let ghost views = token_views(tokens@);
    let mut state = GraphicsModeState::default();
    let mut html = String::new();
    let mut i: usize = 0;
    assert(views.skip(0) =~= views);
    while i < tokens.len()
        invariant
            i <= tokens@.len(),
            views == token_views(tokens@),
            html@ + rendered_from(state, views.skip(i as int)) == rendered(views),
        decreases tokens@.len() - i,
    {
        let ghost rest = views.skip(i as int);
        let (next, piece) = state.step(&tokens[i]);
        assert(rest[0] == tokens@[i as int]@);
        assert(rest.skip(1) =~= views.skip(i + 1));
        assert(html@ + piece@ + rendered_from(next, rest.skip(1)) =~= html@ + rendered_from(
            state,
            rest,
        ));
        html.append(piece.as_str());
        state = next;
        i += 1;
    }
    assert(html@ + Seq::<char>::empty() =~= html@);
    html
}

/// Renders terminal output as an HTML fragment: splits `text` into tokens
/// and renders those.
pub fn render(text: &str) -> (html: String)
    ensures
        html@ == rendered(ansi_tokens(text@)),
{
    let tokens = tokenize(text);
    render_tokens(tokens.as_slice())
}

} // verus!
