//! Tokens: a piece of source text with its class.
use vstd::prelude::*;

verus! {

/// Marks a type as the set of classes that a token can have.
pub trait TokenClass {

}

/// A piece of source text, the class it was given, and whether it is the
/// first token of its line.
#[derive(PartialEq, Debug)]
pub struct Token<C: TokenClass> {
    pub class: C,
    pub value: String,
    pub starts_line: bool,
}

/// What a [`Token`] stands for in contracts: its text is a sequence of
/// characters.
pub struct TokenView<C> {
    pub class: C,
    pub value: Seq<char>,
    pub starts_line: bool,
}

impl<C: TokenClass> View for Token<C> {
    type V = TokenView<C>;

    open spec fn view(&self) -> TokenView<C> {
        TokenView { class: self.class, value: self.value@, starts_line: self.starts_line }
    }
}

impl<C: TokenClass> Token<C> {
    /// The views of a sequence of tokens, in the same order.
    pub open spec fn views(tokens: Seq<Token<C>>) -> Seq<TokenView<C>> {
        tokens.map_values(|t: Token<C>| t@)
    }

    /// The token with the given class and text.
    pub fn new(class: C, value: String, starts_line: bool) -> (token: Token<C>)
        ensures
            token.class == class,
            token.value == value,
            token.starts_line == starts_line,
    {
        Token { class, value, starts_line }
    }
}

} // verus!
