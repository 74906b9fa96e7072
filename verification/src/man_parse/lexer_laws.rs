//! Laws of the lexer: what holds of the tokens of every word, line and text.
use crate::man_parse::troff_token_generator as lexer;
use crate::man_parse::troff_token_generator::{TroffToken, TroffTokenGenerator, TroffTokenView};
use crate::simple_parser::split_whitespace;
use crate::simple_parser::token::Token;
use crate::simple_parser::tokenizer;
use vstd::prelude::*;

verus! {

/// Lexing is a function of the text: token sequences that were generated
/// from the same text with the troff lexer hold the same tokens, in class,
/// text and line start.
pub proof fn lemma_same_text_same_tokens(
    first: Seq<Token<TroffToken>>,
    second: Seq<Token<TroffToken>>,
    text: Seq<char>,
)
    requires
        Token::views(first)
            == tokenizer::text_tokens(&TroffTokenGenerator, text),
        Token::views(second)
            == tokenizer::text_tokens(&TroffTokenGenerator, text),
    ensures
        first.len() == second.len(),
        forall|i: int|
            0 <= i < first.len() ==> (#[trigger] first[i]).class == second[i].class
                && first[i].value@ == second[i].value@ && first[i].starts_line
                == second[i].starts_line,
{
    let a = Token::views(first);
    let b = Token::views(second);
    assert(a.len() == first.len() && b.len() == second.len());
    assert forall|i: int| 0 <= i < first.len() implies (#[trigger] first[i]).class
        == second[i].class && first[i].value@ == second[i].value@ && first[i].starts_line
        == second[i].starts_line by {
        assert(a[i] == first[i]@);
        assert(b[i] == second[i]@);
    }
}

/// Whether `value` is one white space character, once or repeated.
pub open spec fn is_whitespace_run(value: Seq<char>) -> bool {
    &&& value.len() > 0
    &&& crate::text::is_whitespace(value[0])
    &&& forall|i: int| 0 <= i < value.len() ==> #[trigger] value[i] == value[0]
}

/// Whether `token` is neither a macro nor white space, and does not start a
/// line.
pub open spec fn is_inner_token(token: TroffTokenView) -> bool {
    &&& token.class != TroffToken::Macro
    &&& token.class != TroffToken::Whitespace
    &&& token.class != TroffToken::EmptyLine
    &&& !token.starts_line
}

/// Whether `token` is neither a macro, nor white space, nor an empty line.
pub open spec fn is_text_token(token: TroffTokenView) -> bool {
    &&& token.class != TroffToken::Macro
    &&& token.class != TroffToken::Whitespace
    &&& token.class != TroffToken::EmptyLine
}

/// Whether `tokens` are text tokens of which none starts a line, but for
/// the first where `starts_line` says so.
pub open spec fn are_text_tokens(tokens: Seq<TroffTokenView>, starts_line: bool) -> bool {
    forall|i: int|
        0 <= i < tokens.len() ==> is_text_token(#[trigger] tokens[i]) && ((i > 0 || !starts_line)
            ==> !tokens[i].starts_line)
}

/// Whether `tokens` are inner tokens.
pub open spec fn are_inner_tokens(tokens: Seq<TroffTokenView>) -> bool {
    forall|i: int| 0 <= i < tokens.len() ==> is_inner_token(#[trigger] tokens[i])
}

/// A word that begins with `.` at the start of a line is one macro token
/// that holds the whole word, whatever else the word holds.
pub proof fn lemma_macro_word_is_one_token(word: Seq<char>)
    requires
        word.len() > 0,
        word[0] == '.',
    ensures
        lexer::word_tokens(word, true) == seq![
            lexer::token(TroffToken::Macro, word, true),
        ],
{
}

/// The tokens of the argument of an escape command are inner tokens.
pub proof fn lemma_argument_tokens_are_inner(word: Seq<char>, from: int)
    ensures
        are_inner_tokens(lexer::argument_tokens(word, from)),
{
}

/// The tokens that the text of a word is split into are text tokens, and
/// all are inner tokens but the first, which starts a line if the word
/// does.
pub proof fn lemma_text_tokens_are_text(word: Seq<char>, base: int, at: int, starts_line: bool)
    requires
        0 <= base <= at,
    ensures
        are_text_tokens(
            lexer::text_tokens(word, base, at, starts_line),
            starts_line,
        ),
    decreases word.len() - at, 1int,
{
    let tokens = lexer::text_tokens(
        word,
        base,
        at,
        starts_line,
    );
    let pending = lexer::pending_text(
        word,
        base,
        at,
        starts_line,
    );
    if at >= word.len() {
    } else if word[at] == '"' || word[at] == '\\' {
        let rest = if word[at] == '"' {
            lexer::text_tokens(word, at + 1, at + 1, false)
        } else {
            lexer::escape_tokens(word, at + 1)
        };
        if word[at] == '"' {
            lemma_text_tokens_are_text(word, at + 1, at + 1, false);
        } else {
            lemma_escape_tokens_are_inner(word, at + 1);
        }
        assert forall|i: int| 0 <= i < tokens.len() implies is_text_token(#[trigger] tokens[i]) && ((
        i > 0 || !starts_line) ==> !tokens[i].starts_line) by {
            if i >= pending.len() + 1 {
                assert(tokens[i] == rest[i - pending.len() - 1]);
            } else if i == pending.len() {
                assert(tokens[i].starts_line == (starts_line && at == base));
            } else {
                assert(tokens[i] == pending[i]);
            }
        }
    } else {
        lemma_text_tokens_are_text(word, base, at + 1, starts_line);
    }
}

/// The tokens of what follows a `\` are inner tokens.
pub proof fn lemma_escape_tokens_are_inner(word: Seq<char>, at: int)
    requires
        0 <= at,
    ensures
        are_inner_tokens(lexer::escape_tokens(word, at)),
    decreases word.len() - at, 0int,
{
    let len = word.len() as int;
    let tokens = lexer::escape_tokens(word, at);
    if at >= len {
    } else if word[at] == '(' {
        let end = lexer::at_most(at + 3, len);
        lemma_text_tokens_are_text(word, end, end, false);
        let rest = lexer::text_tokens(word, end, end, false);
        assert forall|i: int| 0 <= i < tokens.len() implies is_inner_token(#[trigger] tokens[i]) by {
            if i >= 2 {
                assert(tokens[i] == rest[i - 2]);
                assert(is_text_token(rest[i - 2]));
            }
        }
    } else if lexer::takes_argument(word[at]) {
        let end = lexer::argument_end(word, at + 1);
        if at + 2 <= len {
            lexer::lemma_bracket_end_bounds(word, at + 2);
        }
        lemma_text_tokens_are_text(word, end, end, false);
        lemma_argument_tokens_are_inner(word, at + 1);
        let args = lexer::argument_tokens(word, at + 1);
        let rest = lexer::text_tokens(word, end, end, false);
        assert forall|i: int| 0 <= i < tokens.len() implies is_inner_token(#[trigger] tokens[i]) by {
            if i >= 1 + args.len() {
                assert(tokens[i] == rest[i - 1 - args.len()]);
                assert(is_text_token(rest[i - 1 - args.len()]));
            } else if i >= 1 {
                assert(tokens[i] == args[i - 1]);
            }
        }
    } else {
        lemma_text_tokens_are_text(word, at + 1, at + 1, false);
        let rest = lexer::text_tokens(
            word,
            at + 1,
            at + 1,
            false,
        );
        assert forall|i: int| 0 <= i < tokens.len() implies is_inner_token(#[trigger] tokens[i]) by {
            if i >= 1 {
                assert(tokens[i] == rest[i - 1]);
                assert(is_text_token(rest[i - 1]));
            }
        }
    }
}

/// A word that does not start a line gives no macro token, and none of its
/// tokens starts a line.
pub proof fn lemma_macro_only_at_line_start(word: Seq<char>)
    ensures
        forall|i: int|
            0 <= i < lexer::word_tokens(word, false).len() ==> {
                let token = #[trigger] lexer::word_tokens(
                    word,
                    false,
                )[i];
                token.class != TroffToken::Macro && !token.starts_line
            },
{
    if word.len() > 0 && !crate::text::is_whitespace(word[0]) {
        lemma_text_tokens_are_text(word, 0, 0, false);
    }
}

/// Whether every white space token among `tokens` holds one repeated white
/// space character.
pub open spec fn whitespace_is_uniform(tokens: Seq<TroffTokenView>) -> bool {
    forall|i: int|
        0 <= i < tokens.len() && (#[trigger] tokens[i]).class == TroffToken::Whitespace
            ==> is_whitespace_run(tokens[i].value)
}

/// Whether `tokens` holds no macro token, and no token that starts a line,
/// but for the first.
pub open spec fn only_first_starts_line(tokens: Seq<TroffTokenView>) -> bool {
    forall|i: int|
        1 <= i < tokens.len() ==> (#[trigger] tokens[i]).class != TroffToken::Macro
            && !tokens[i].starts_line
}

/// A chunk of a line holds one repeated white space character, or no white
/// space at all.
pub proof fn lemma_chunk_is_uniform(line: Seq<char>, from: int)
    requires
        0 <= from < line.len(),
    ensures
        from < split_whitespace::chunk_end(line, from) <= line.len(),
        crate::text::is_whitespace(line[from]) ==> is_whitespace_run(
            line.subrange(from, split_whitespace::chunk_end(line, from)),
        ),
{
    split_whitespace::lemma_run_end(line, line[from], from + 1);
}

/// The tokens of the chunks of a line: every white space token among them
/// holds one repeated white space character, and behind those of the first
/// chunk none is a macro or starts a line.
pub proof fn lemma_chunk_tokens(line: Seq<char>, from: int)
    requires
        0 <= from <= line.len(),
    ensures
        whitespace_is_uniform(
            tokenizer::chunk_tokens_from(&TroffTokenGenerator, line, from),
        ),
        from > 0 ==> forall|i: int|
            0 <= i < tokenizer::chunk_tokens_from(
                &TroffTokenGenerator,
                line,
                from,
            ).len() ==> {
                let token = #[trigger] tokenizer::chunk_tokens_from(
                    &TroffTokenGenerator,
                    line,
                    from,
                )[i];
                token.class != TroffToken::Macro && !token.starts_line
            },
    decreases line.len() - from,
{
    let g = &TroffTokenGenerator;
    let tokens = tokenizer::chunk_tokens_from(g, line, from);
    if from < line.len() {
        let end = split_whitespace::chunk_end(line, from);
        lemma_chunk_is_uniform(line, from);
        lemma_chunk_tokens(line, end);
        let chunk = line.subrange(from, end);
        let first = lexer::word_tokens(chunk, from == 0);
        let rest = tokenizer::chunk_tokens_from(g, line, end);
        assert(tokens == first + rest);
        assert(chunk[0] == line[from]);
        if !crate::text::is_whitespace(chunk[0]) {
            lemma_text_tokens_are_text(chunk, 0, 0, from == 0);
        }
        lemma_macro_only_at_line_start(chunk);
        assert forall|i: int|
            0 <= i < tokens.len() && (#[trigger] tokens[i]).class
                == TroffToken::Whitespace implies is_whitespace_run(tokens[i].value) by {
            if i >= first.len() {
                assert(tokens[i] == rest[i - first.len()]);
            } else {
                assert(tokens[i] == first[i]);
            }
        }
        if from > 0 {
            assert forall|i: int| 0 <= i < tokens.len() implies {
                let token = #[trigger] tokens[i];
                token.class != TroffToken::Macro && !token.starts_line
            } by {
                if i >= first.len() {
                    assert(tokens[i] == rest[i - first.len()]);
                } else {
                    assert(tokens[i] == first[i]);
                }
            }
        }
    }
}

/// A line that begins with a macro gives exactly one macro token: its first
/// token, which holds the first chunk whole and starts the line. No other
/// token of the line is a macro or starts a line.
pub proof fn lemma_macro_line(line: Seq<char>)
    requires
        line.len() > 0,
        line[0] == '.',
        !lexer::is_comment_word(
            line.subrange(0, split_whitespace::chunk_end(line, 0)),
        ),
    ensures
        tokenizer::line_tokens(&TroffTokenGenerator, line).len() >= 1,
        tokenizer::line_tokens(&TroffTokenGenerator, line)[0]
            == lexer::token(
            TroffToken::Macro,
            line.subrange(0, split_whitespace::chunk_end(line, 0)),
            true,
        ),
        only_first_starts_line(
            tokenizer::line_tokens(&TroffTokenGenerator, line),
        ),
{
    let g = &TroffTokenGenerator;
    let end = split_whitespace::chunk_end(line, 0);
    lemma_chunk_is_uniform(line, 0);
    let chunk = line.subrange(0, end);
    assert(chunk[0] == '.');
    lemma_macro_word_is_one_token(chunk);
    lemma_chunk_tokens(line, end);
    let tokens = tokenizer::line_tokens(g, line);
    let rest = tokenizer::chunk_tokens_from(g, line, end);
    assert(tokens == lexer::word_tokens(chunk, true) + rest);
    assert forall|i: int| 1 <= i < tokens.len() implies (#[trigger] tokens[i]).class
        != TroffToken::Macro && !tokens[i].starts_line by {
        assert(tokens[i] == rest[i - 1]);
    }
}

/// Every white space token of a line holds one repeated white space
/// character.
pub proof fn lemma_line_whitespace_is_uniform(line: Seq<char>)
    ensures
        whitespace_is_uniform(
            tokenizer::line_tokens(&TroffTokenGenerator, line),
        ),
{
    if line.len() > 0 {
        lemma_chunk_tokens(line, 0);
    }
}

/// Every white space token of a text holds one repeated white space
/// character.
pub proof fn lemma_whitespace_is_uniform(text: Seq<char>, from: int)
    requires
        0 <= from <= text.len(),
    ensures
        whitespace_is_uniform(
            tokenizer::text_tokens_from(&TroffTokenGenerator, text, from),
        ),
    decreases text.len() - from,
{
    let g = &TroffTokenGenerator;
    let tokens = tokenizer::text_tokens_from(g, text, from);
    if from < text.len() {
        let end = tokenizer::line_end(text, from);
        tokenizer::lemma_line_end(text, from);
        let line = tokenizer::line_at(text, from);
        lemma_line_whitespace_is_uniform(line);
        let first = tokenizer::line_tokens(g, line);
        let rest = if end < text.len() {
            tokenizer::text_tokens_from(g, text, end + 1)
        } else {
            seq![]
        };
        if end < text.len() {
            lemma_whitespace_is_uniform(text, end + 1);
        }
        assert(tokens == first + rest);
        assert forall|i: int|
            0 <= i < tokens.len() && (#[trigger] tokens[i]).class
                == TroffToken::Whitespace implies is_whitespace_run(tokens[i].value) by {
            if i >= first.len() {
                assert(tokens[i] == rest[i - first.len()]);
            } else {
                assert(tokens[i] == first[i]);
            }
        }
    }
}

/// The texts of `tokens`, joined.
pub open spec fn joined(tokens: Seq<TroffTokenView>) -> Seq<char>
    decreases tokens.len(),
{
    if tokens.len() == 0 {
        seq![]
    } else {
        joined(tokens.drop_last()) + tokens.last().value
    }
}

/// Whether the texts of `tokens`, joined, are `text`, or `text` and the `]`
/// that closes a bracketed argument which the text leaves open.
pub open spec fn hold_text(tokens: Seq<TroffTokenView>, text: Seq<char>) -> bool {
    joined(tokens) == text || joined(tokens) == text.push(']')
}

/// The texts of two token sequences, one behind the other, are the texts of
/// the one behind those of the other.
pub proof fn lemma_joined_concat(first: Seq<TroffTokenView>, second: Seq<TroffTokenView>)
    ensures
        joined(first + second) == joined(first) + joined(second),
    decreases second.len(),
{
    if second.len() == 0 {
        assert(first + second =~= first);
        assert(joined(first) + joined(second) =~= joined(first));
    } else {
        lemma_joined_concat(first, second.drop_last());
        assert((first + second).drop_last() =~= first + second.drop_last());
        assert(joined(first + second) =~= joined(first) + joined(second));
    }
}

/// The text of one token.
pub proof fn lemma_joined_one(token: TroffTokenView)
    ensures
        joined(seq![token]) == token.value,
{
    reveal_with_fuel(joined, 2);
    assert(seq![token].drop_last() =~= Seq::<TroffTokenView>::empty());
    assert(joined(seq![token]) =~= token.value);
}

/// The tokens of the argument of an escape command hold the text of the
/// argument; where the word ends before a bracketed argument is closed, they
/// hold the closing `]` as well.
pub proof fn lemma_argument_tokens_hold_text(word: Seq<char>, from: int)
    requires
        0 <= from <= word.len(),
    ensures
        joined(lexer::argument_tokens(word, from)) == word.subrange(
            from,
            lexer::argument_end(word, from),
        ) || (lexer::argument_end(word, from) == word.len() && joined(
            lexer::argument_tokens(word, from),
        ) == word.subrange(from, word.len() as int).push(']')),
        from <= lexer::argument_end(word, from) <= word.len(),
{
    let len = word.len() as int;
    let tokens = lexer::argument_tokens(word, from);
    let end = lexer::argument_end(word, from);
    if from + 1 <= len {
        lexer::lemma_bracket_end_bounds(word, from + 1);
    }
    if from >= len {
        assert(word.subrange(from, end) =~= seq![]);
    } else if word[from] == '(' {
        let open = lexer::token(TroffToken::ArgOpenParen, seq!['('], false);
        let arg = lexer::token(TroffToken::CommandArg, word.subrange(from + 1, end), false);
        assert(tokens =~= seq![open] + seq![arg]);
        lemma_joined_concat(seq![open], seq![arg]);
        lemma_joined_one(open);
        lemma_joined_one(arg);
        assert(seq!['('] + word.subrange(from + 1, end) =~= word.subrange(from, end));
    } else if word[from] == '[' {
        let close_at = lexer::bracket_end(word, from + 1);
        let open = lexer::token(TroffToken::ArgOpenBracket, seq!['['], false);
        let arg = lexer::token(TroffToken::CommandArg, word.subrange(from + 1, close_at), false);
        let close = lexer::token(TroffToken::ArgCloseBracket, seq![']'], false);
        assert(tokens =~= (seq![open] + seq![arg]) + seq![close]);
        lemma_joined_concat(seq![open] + seq![arg], seq![close]);
        lemma_joined_concat(seq![open], seq![arg]);
        lemma_joined_one(open);
        lemma_joined_one(arg);
        lemma_joined_one(close);
        if close_at < len {
            assert((seq!['['] + word.subrange(from + 1, close_at)) + seq![']'] =~= word.subrange(
                from,
                end,
            ));
        } else {
            assert((seq!['['] + word.subrange(from + 1, close_at)) + seq![']'] =~= word.subrange(
                from,
                len,
            ).push(']'));
        }
    } else {
        lemma_joined_one(tokens[0]);
        assert(tokens =~= seq![tokens[0]]);
    }
}

/// The tokens that the text of a word is split into hold that text: nothing
/// of the word is lost, and nothing is added but the `]` that closes a
/// bracketed argument which the word leaves open.
pub proof fn lemma_text_tokens_hold_text(word: Seq<char>, base: int, at: int, starts_line: bool)
    requires
        0 <= base <= at <= word.len(),
    ensures
        hold_text(
            lexer::text_tokens(word, base, at, starts_line),
            word.subrange(base, word.len() as int),
        ),
    decreases word.len() - at, 1int,
{
    let len = word.len() as int;
    let tokens = lexer::text_tokens(word, base, at, starts_line);
    let pending = lexer::pending_text(word, base, at, starts_line);
    if at >= len {
        if base < len {
            lemma_joined_one(tokens[0]);
            assert(tokens =~= seq![tokens[0]]);
        } else {
            assert(word.subrange(base, len) =~= seq![]);
        }
    } else if word[at] == '"' || word[at] == '\\' {
        let special = lexer::token(
            if word[at] == '"' {
                TroffToken::DoubleQuote
            } else {
                TroffToken::Backslash
            },
            seq![word[at]],
            starts_line && at == base,
        );
        let rest = if word[at] == '"' {
            lexer::text_tokens(word, at + 1, at + 1, false)
        } else {
            lexer::escape_tokens(word, at + 1)
        };
        if word[at] == '"' {
            lemma_text_tokens_hold_text(word, at + 1, at + 1, false);
        } else {
            lemma_escape_tokens_hold_text(word, at + 1);
        }
        assert(tokens =~= (pending + seq![special]) + rest);
        lemma_joined_concat(pending + seq![special], rest);
        lemma_joined_concat(pending, seq![special]);
        lemma_joined_one(special);
        if base < at {
            lemma_joined_one(pending[0]);
            assert(pending =~= seq![pending[0]]);
        }
        let head = word.subrange(base, at) + seq![word[at]];
        assert(joined(pending + seq![special]) =~= head);
        let tail = word.subrange(at + 1, len);
        assert(head + tail =~= word.subrange(base, len));
        assert(head + tail.push(']') =~= word.subrange(base, len).push(']'));
    } else {
        lemma_text_tokens_hold_text(word, base, at + 1, starts_line);
    }
}

/// The tokens of what follows a `\` hold that text, in the same sense.
pub proof fn lemma_escape_tokens_hold_text(word: Seq<char>, at: int)
    requires
        0 <= at <= word.len(),
    ensures
        hold_text(lexer::escape_tokens(word, at), word.subrange(at, word.len() as int)),
    decreases word.len() - at, 0int,
{
    let len = word.len() as int;
    let tokens = lexer::escape_tokens(word, at);
    if at >= len {
        assert(word.subrange(at, len) =~= seq![]);
    } else {
        let command = lexer::token(TroffToken::EscapeCommand, seq![word[at]], false);
        lemma_joined_one(command);
        if word[at] == '(' {
            let end = lexer::at_most(at + 3, len);
            let name = lexer::token(TroffToken::TextWord, word.subrange(at + 1, end), false);
            let rest = lexer::text_tokens(word, end, end, false);
            lemma_text_tokens_hold_text(word, end, end, false);
            assert(tokens =~= (seq![command] + seq![name]) + rest);
            lemma_joined_concat(seq![command] + seq![name], rest);
            lemma_joined_concat(seq![command], seq![name]);
            lemma_joined_one(name);
            let head = seq![word[at]] + word.subrange(at + 1, end);
            let tail = word.subrange(end, len);
            assert(head + tail =~= word.subrange(at, len));
            assert(head + tail.push(']') =~= word.subrange(at, len).push(']'));
        } else if lexer::takes_argument(word[at]) {
            let end = lexer::argument_end(word, at + 1);
            lemma_argument_tokens_hold_text(word, at + 1);
            let args = lexer::argument_tokens(word, at + 1);
            let rest = lexer::text_tokens(word, end, end, false);
            lemma_text_tokens_hold_text(word, end, end, false);
            assert(tokens =~= (seq![command] + args) + rest);
            lemma_joined_concat(seq![command] + args, rest);
            lemma_joined_concat(seq![command], args);
            let tail = word.subrange(end, len);
            if joined(args) == word.subrange(at + 1, end) {
                let head = seq![word[at]] + word.subrange(at + 1, end);
                assert(head + tail =~= word.subrange(at, len));
                assert(head + tail.push(']') =~= word.subrange(at, len).push(']'));
            } else {
                // the argument runs to the end of the word
                assert(tail =~= seq![]);
                assert(rest =~= seq![]);
                assert((seq![word[at]] + word.subrange(at + 1, len).push(']')) + Seq::<
                    char,
                >::empty() =~= word.subrange(at, len).push(']'));
            }
        } else {
            let rest = lexer::text_tokens(word, at + 1, at + 1, false);
            lemma_text_tokens_hold_text(word, at + 1, at + 1, false);
            assert(tokens =~= seq![command] + rest);
            lemma_joined_concat(seq![command], rest);
            let tail = word.subrange(at + 1, len);
            assert(seq![word[at]] + tail =~= word.subrange(at, len));
            assert(seq![word[at]] + tail.push(']') =~= word.subrange(at, len).push(']'));
        }
    }
}

/// Lexing loses nothing: the tokens of a word hold the text of the word.
pub proof fn lemma_word_tokens_hold_text(word: Seq<char>, starts_line: bool)
    requires
        word.len() > 0 || starts_line,
    ensures
        hold_text(lexer::word_tokens(word, starts_line), word),
{
    let tokens = lexer::word_tokens(word, starts_line);
    if word.len() == 0 || crate::text::is_whitespace(word[0]) || (starts_line && word[0] == '.') {
        lemma_joined_one(tokens[0]);
        assert(tokens =~= seq![tokens[0]]);
        assert(tokens[0].value =~= word);
    } else {
        lemma_text_tokens_hold_text(word, 0, 0, starts_line);
        assert(word.subrange(0, word.len() as int) =~= word);
    }
}

} // verus!
