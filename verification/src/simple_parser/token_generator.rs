//! The interface between the tokenizer and a language's own rules.
use crate::simple_parser::token::{Token, TokenClass, TokenView};
use vstd::prelude::*;

verus! {

/// Turns the words of a line into tokens of class `C`.
///
/// An implementation fixes, as functions of the word alone, which tokens a
/// word gives and which words begin a comment; [`generate`](Self::generate)
/// and [`is_comment`](Self::is_comment) compute these.
pub trait TokenGenerator<C: TokenClass> {
    /// The tokens that `word` stands for; `starts_line` tells whether the word
    /// is the first of its line. An implementation that does not say which
    /// they are leaves them open.
    open spec fn tokens_of(&self, word: Seq<char>, starts_line: bool) -> Seq<TokenView<C>> {
        arbitrary()
    }

    /// Whether a line that begins with `word` is a comment. An implementation
    /// that does not say leaves it open.
    open spec fn begins_comment(&self, word: Seq<char>) -> bool {
        arbitrary()
    }

    /// Given a word of the input, returns the tokens generated from it.
    fn generate(&self, word: &str, starts_line: bool) -> (tokens: Vec<Token<C>>)
        ensures
            Token::views(tokens@) == self.tokens_of(word@, starts_line),
    ;

    /// Given the first word of a line, tells whether the line is a comment.
    fn is_comment(&self, word: &str) -> (comment: bool)
        ensures
            comment == self.begins_comment(word@),
    ;
}

} // verus!
