//! The driver of the lexer: it cuts the input into lines and the lines into
//! chunks, and hands each chunk to a [`TokenGenerator`].
use crate::simple_parser::split_whitespace;
use crate::simple_parser::split_whitespace::find_chunk_end;
use crate::simple_parser::token::{Token, TokenClass, TokenView};
use crate::simple_parser::token_generator::TokenGenerator;
use crate::text::{chars_of, string_of_range};
use vstd::prelude::*;

verus! {

/// The position of the first line feed of `text` at or after `from`, or the
/// length of `text`.
pub open spec fn line_end(text: Seq<char>, from: int) -> int
    decreases text.len() - from,
{
    if from < 0 || from >= text.len() {
        text.len() as int
    } else if text[from] == '\n' {
        from
    } else {
        line_end(text, from + 1)
    }
}

/// [`line_end`] lies between `from` and the end of the text, and no line feed
/// stands before it.
pub proof fn lemma_line_end(text: Seq<char>, from: int)
    requires
        0 <= from <= text.len(),
    ensures
        from <= line_end(text, from) <= text.len(),
        line_end(text, from) < text.len() ==> text[line_end(text, from)] == '\n',
        forall|i: int| from <= i < line_end(text, from) ==> text[i] != '\n',
    decreases text.len() - from,
{
    if from < text.len() && text[from] != '\n' {
        lemma_line_end(text, from + 1);
    }
}

/// The position behind the text of the line that begins at `from`: the
/// line's end, or one before it where a carriage return stands directly
/// before the line feed.
pub open spec fn line_stop(text: Seq<char>, from: int) -> int {
    let end = line_end(text, from);
    if from < end < text.len() && text[end - 1] == '\r' {
        end - 1
    } else {
        end
    }
}

/// The line that begins at `from`, without its line ending.
pub open spec fn line_at(text: Seq<char>, from: int) -> Seq<char> {
    text.subrange(from, line_stop(text, from))
}

/// The tokens of the chunks of `line` from position `from` on. Only the chunk
/// at position 0 starts the line.
pub open spec fn chunk_tokens_from<C: TokenClass, G: TokenGenerator<C>>(
    generator: &G,
    line: Seq<char>,
    from: int,
) -> Seq<TokenView<C>>
    decreases line.len() - from,
{
    if from < 0 || from >= line.len() {
        seq![]
    } else {
        let end = split_whitespace::chunk_end(line, from);
        proof {
            split_whitespace::lemma_run_end(line, line[from], from + 1);
        }
        generator.tokens_of(line.subrange(from, end), from == 0) + chunk_tokens_from(
            generator,
            line,
            end,
        )
    }
}

/// The tokens of one line.
///
/// A line without characters gives what the generator makes of the empty
/// word at the start of a line. A line whose first chunk begins a comment
/// gives nothing. Any other line gives the tokens of its chunks, in order.
pub open spec fn line_tokens<C: TokenClass, G: TokenGenerator<C>>(
    generator: &G,
    line: Seq<char>,
) -> Seq<TokenView<C>> {
    if line.len() == 0 {
        generator.tokens_of(seq![], true)
    } else if generator.begins_comment(
        line.subrange(0, split_whitespace::chunk_end(line, 0)),
    ) {
        seq![]
    } else {
        chunk_tokens_from(generator, line, 0)
    }
}

/// The tokens of the lines of `text` that begin at or after `from`, where
/// `from` is the start of a line.
pub open spec fn text_tokens_from<C: TokenClass, G: TokenGenerator<C>>(
    generator: &G,
    text: Seq<char>,
    from: int,
) -> Seq<TokenView<C>>
    decreases text.len() - from,
{
    if from < 0 || from >= text.len() {
        seq![]
    } else {
        let end = line_end(text, from);
        proof {
            lemma_line_end(text, from);
        }
        line_tokens(generator, line_at(text, from)) + (if end < text.len() {
            text_tokens_from(generator, text, end + 1)
        } else {
            seq![]
        })
    }
}

/// The tokens of `text`: those of its lines, in order. Lines end at a line
/// feed or at a carriage return followed by a line feed; the last line may
/// end with the text.
pub open spec fn text_tokens<C: TokenClass, G: TokenGenerator<C>>(
    generator: &G,
    text: Seq<char>,
) -> Seq<TokenView<C>> {
    text_tokens_from(generator, text, 0)
}

/// The position of the first line feed at or after `from`, or the length of
/// `chars`.
fn find_line_end(chars: &Vec<char>, from: usize) -> (end: usize)
    requires
        from <= chars@.len(),
    ensures
        end == line_end(chars@, from as int),
        from <= end <= chars@.len(),
{
    let len = chars.len();
    let mut at: usize = from;
    while at < len && chars[at] != '\n'
        invariant
            len == chars@.len(),
            from <= at <= len,
            line_end(chars@, at as int) == line_end(chars@, from as int),
        decreases len - at,
    {
        at += 1;
    }
    at
}

/// The characters `chars[from..to]` as a vector of their own.
fn copy_range(chars: &Vec<char>, from: usize, to: usize) -> (copy: Vec<char>)
    requires
        from <= to <= chars@.len(),
    ensures
        copy@ == chars@.subrange(from as int, to as int),
{
    let mut copy: Vec<char> = Vec::new();
    let mut at: usize = from;
    while at < to
        invariant
            from <= at <= to <= chars@.len(),
            copy@ == chars@.subrange(from as int, at as int),
        decreases to - at,
    {
        copy.push(chars[at]);
        at += 1;
        assert(copy@ =~= chars@.subrange(from as int, at as int));
    }
    copy
}

/// Appends the tokens of one line to `tokens`.
fn tokenize_line<C: TokenClass, G: TokenGenerator<C>>(
    tokens: &mut Vec<Token<C>>,
    line: &Vec<char>,
    classifier: &G,
)
    ensures
        Token::views(final(tokens)@)
            == Token::views(old(tokens)@) + line_tokens(
            classifier,
            line@,
        ),
{
    let len = line.len();
    let ghost before = Token::views(tokens@);
    if len == 0 {
        // a line without any character is handed over as the empty word
        let empty = String::new();
        let mut generated = classifier.generate(empty.as_str(), true);
        assert(empty@ =~= seq![]);
        tokens.append(&mut generated);
        assert(Token::views(tokens@) =~= before + line_tokens(
            classifier,
            line@,
        ));
        return ;
    }
    let ghost all = chunk_tokens_from(classifier, line@, 0);
    let mut at: usize = 0;
    assert(before + Seq::<TokenView<C>>::empty() =~= before);
    while at < len
        invariant
            len == line@.len(),
            len > 0,
            at <= len,
            all == chunk_tokens_from(classifier, line@, 0),
            at == 0 ==> Token::views(tokens@) == before,
            at > 0 ==> !classifier.begins_comment(
                line@.subrange(0, split_whitespace::chunk_end(line@, 0)),
            ) && Token::views(tokens@) + chunk_tokens_from(
                classifier,
                line@,
                at as int,
            ) == before + all,
        ensures
            Token::views(tokens@) == before + line_tokens(
                classifier,
                line@,
            ),
        decreases len - at,
    {
        let end = find_chunk_end(line, at);
        let word = string_of_range(line, at, end);
        let starts_line = at == 0;
        if starts_line && classifier.is_comment(word.as_str()) {
            // the rest of the line is dropped
            break ;
        }
        let ghost emitted = Token::views(tokens@);
        let ghost rest = chunk_tokens_from(classifier, line@, end as int);
        let mut generated = classifier.generate(word.as_str(), starts_line);
        let ghost made = Token::views(generated@);
        tokens.append(&mut generated);
        assert(Token::views(tokens@) =~= emitted + made);
        assert((emitted + made) + rest =~= emitted + (made + rest));
        at = end;
    }
}

/// Turns `input` into tokens, line by line.
///
/// Each line is cut into chunks of white space and of other characters, and
/// `classifier` says what tokens each chunk gives. The first chunk of a line
/// is handed over as starting the line. A line whose first chunk begins a
/// comment gives no tokens; a line without characters is handed over as the
/// empty word.
pub fn tokenize<C: TokenClass, G: TokenGenerator<C>>(input: &str, classifier: &G) -> (tokens: Vec<
    Token<C>,
>)
    ensures
        Token::views(tokens@) == text_tokens(classifier, input@),
{
    let chars = chars_of(input);
    let len = chars.len();
    let mut tokens: Vec<Token<C>> = Vec::new();
    let mut start: usize = 0;
    let ghost all = text_tokens(classifier, chars@);
    assert(Token::views(tokens@) =~= seq![]);
    while start < len
        invariant
            len == chars@.len(),
            start <= len,
            chars@ == input@,
            all == text_tokens(classifier, chars@),
            Token::views(tokens@) + text_tokens_from(
                classifier,
                chars@,
                start as int,
            ) == all,
        decreases len - start,
    {
        let end = find_line_end(&chars, start);
        let stop = if start < end && end < len && chars[end - 1] == '\r' {
            end - 1
        } else {
            end
        };
        let line = copy_range(&chars, start, stop);
        let ghost emitted = Token::views(tokens@);
        let ghost rest = if end < len {
            text_tokens_from(classifier, chars@, end + 1)
        } else {
            seq![]
        };
        tokenize_line(&mut tokens, &line, classifier);
        assert((emitted + line_tokens(classifier, line@)) + rest =~= emitted + (line_tokens(
            classifier,
            line@,
        ) + rest));
        start = if end < len {
            end + 1
        } else {
            len
        };
    }
    assert(Token::views(tokens@) + Seq::<TokenView<C>>::empty()
        =~= Token::views(tokens@));
    tokens
}

} // verus!
