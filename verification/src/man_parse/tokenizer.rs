//! Splitting text into words and giving each its class.
use crate::man_parse::token::{Classification, Classifier, Token, TokenView};
use crate::simple_parser::split_whitespace;
use crate::simple_parser::split_whitespace::find_chunk_end;
use crate::text::{char_is_whitespace, chars_of, string_of_range};
use vstd::prelude::*;

verus! {

/// The tokens of the words of `text` that begin at or after `from`, where
/// `from` is the start of a chunk: one token for each chunk that is not
/// white space.
pub open spec fn word_tokens_from<C: Classification, K: Classifier<C>>(
    classifier: &K,
    text: Seq<char>,
    from: int,
) -> Seq<TokenView<C>>
    decreases text.len() - from,
{
    if from < 0 || from >= text.len() {
        seq![]
    } else {
        let end = split_whitespace::chunk_end(text, from);
        proof {
            split_whitespace::lemma_run_end(text, text[from], from + 1);
        }
        let word = text.subrange(from, end);
        if crate::text::is_whitespace(text[from]) {
            word_tokens_from(classifier, text, end)
        } else {
            seq![TokenView { class: classifier.class_of(word), value: word }] + word_tokens_from(
                classifier,
                text,
                end,
            )
        }
    }
}

/// The views of a sequence of tokens, in the same order.
pub open spec fn token_views<C: Classification>(tokens: Seq<Token<C>>) -> Seq<TokenView<C>> {
    tokens.map_values(|t: Token<C>| t@)
}

/// Turns `input` into tokens: one for each of its words, with the class that
/// `classifier` gives the word. Words are what white space separates.
pub fn tokenize<C: Classification, K: Classifier<C>>(input: &str, classifier: &K) -> (result: Vec<
    Token<C>,
>)
    ensures
        token_views(result@) == word_tokens_from(classifier, input@, 0),
{
    let chars = chars_of(input);
    let len = chars.len();
    let mut result: Vec<Token<C>> = Vec::new();
    let mut at: usize = 0;
    assert(token_views(result@) =~= seq![]);
    while at < len
        invariant
            len == chars@.len(),
            chars@ == input@,
            at <= len,
            token_views(result@) + word_tokens_from(classifier, chars@, at as int)
                == word_tokens_from(classifier, chars@, 0),
        decreases len - at,
    {
        let end = find_chunk_end(&chars, at);
        if !char_is_whitespace(chars[at]) {
            let ghost before = token_views(result@);
            let ghost rest = word_tokens_from(classifier, chars@, end as int);
            let word = string_of_range(&chars, at, end);
            let class = classifier.classify(word.as_str());
            let token = Token { class: class, value: word };
            result.push(token);
            assert(token_views(result@) =~= before.push(token@));
            assert(before.push(token@) + rest =~= before + (seq![token@] + rest));
        }
        at = end;
    }
    assert(token_views(result@) + Seq::<TokenView<C>>::empty() =~= token_views(result@));
    result
}

} // verus!
