//! Words with a class: the tokens of text that is read word by word.
use vstd::prelude::*;

verus! {

/// Marks a type as a set of classes that words can have.
pub trait Classification {

}

/// A word and its class.
#[derive(PartialEq, Debug)]
pub struct Token<C: Classification> {
    pub class: C,
    pub value: String,
}

/// What a [`Token`] stands for in contracts.
pub struct TokenView<C> {
    pub class: C,
    pub value: Seq<char>,
}

impl<C: Classification> View for Token<C> {
    type V = TokenView<C>;

    open spec fn view(&self) -> TokenView<C> {
        TokenView { class: self.class, value: self.value@ }
    }
}

impl<C: Classification> Token<C> {
    /// The token with the given class and text.
    pub fn new(class: C, value: String) -> (token: Token<C>)
        ensures
            token.class == class,
            token.value == value,
    {
        Token { class: class, value: value }
    }
}

/// Says which class a word has.
pub trait Classifier<C: Classification> {
    /// The class of `word`. An implementation that does not say leaves it
    /// open.
    open spec fn class_of(&self, word: Seq<char>) -> C {
        arbitrary()
    }

    /// Returns the class of `word`.
    fn classify(&self, word: &str) -> (class: C)
        ensures
            class == self.class_of(word@),
    ;
}

} // verus!
