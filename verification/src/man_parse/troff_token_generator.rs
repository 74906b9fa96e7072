//! The lexer for a small subset of troff: how one word of a source line
//! becomes tokens.
use crate::simple_parser::token::{Token, TokenClass, TokenView};
use crate::simple_parser::token_generator::TokenGenerator;
use crate::text::{char_is_whitespace, chars_of, string_of_range};
use vstd::prelude::*;

verus! {

/// The classes of troff tokens.
#[derive(Debug, PartialEq, Eq, Copy, Clone, Structural)]
pub enum TroffToken {
    /// A run of one repeated white space character.
    Whitespace,
    /// A word that begins with `.` at the start of a line, whole.
    Macro,
    /// Plain text.
    TextWord,
    /// A `"`.
    DoubleQuote,
    /// A `\`.
    Backslash,
    /// The character that follows a `\`, such as the `f` of `\f`.
    EscapeCommand,
    /// The argument of an escape command, such as the `B` of `\fB`.
    CommandArg,
    /// The `[` that opens a bracketed argument.
    ArgOpenBracket,
    /// The `]` that closes a bracketed argument.
    ArgCloseBracket,
    /// The `(` that opens a two-character argument.
    ArgOpenParen,
    /// A line without any character.
    EmptyLine,
}

impl TokenClass for TroffToken {

}

/// A troff token as contracts see it.
pub type TroffTokenView = TokenView<TroffToken>;

/// The token view with the given parts.
pub open spec fn token(class: TroffToken, value: Seq<char>, starts_line: bool) -> TroffTokenView {
    TokenView { class, value, starts_line }
}

/// Whether the escape command `command` is followed by an argument: `\f`,
/// `\m` and `\s` are.
pub open spec fn takes_argument(command: char) -> bool {
    command == 'f' || command == 'm' || command == 's'
}

/// The smaller of `a` and `b`.
pub open spec fn at_most(a: int, b: int) -> int {
    if a <= b {
        a
    } else {
        b
    }
}

/// The position of the first `]` of `word` at or after `from`, or the length
/// of `word` if there is none.
pub open spec fn bracket_end(word: Seq<char>, from: int) -> int
    decreases word.len() - from,
{
    if from < 0 || from >= word.len() {
        word.len() as int
    } else if word[from] == ']' {
        from
    } else {
        bracket_end(word, from + 1)
    }
}

/// [`bracket_end`] lies between `from` and the end of the word, and no `]`
/// stands before it.
pub proof fn lemma_bracket_end_bounds(word: Seq<char>, from: int)
    requires
        0 <= from <= word.len(),
    ensures
        from <= bracket_end(word, from) <= word.len(),
        bracket_end(word, from) < word.len() ==> word[bracket_end(word, from)] == ']',
        forall|i: int| from <= i < bracket_end(word, from) ==> word[i] != ']',
    decreases word.len() - from,
{
    if from < word.len() && word[from] != ']' {
        lemma_bracket_end_bounds(word, from + 1);
    }
}

/// The position just behind the argument of an escape command, where the
/// argument begins at `from`.
///
/// After `(` the argument is the two characters that follow; after `[` it
/// runs to the next `]`, which is passed over too; after a sign it is the
/// sign and one character; otherwise it is one character. An argument never
/// runs beyond the word: one that the word cuts short ends with the word.
pub open spec fn argument_end(word: Seq<char>, from: int) -> int {
    let len = word.len() as int;
    if from >= len {
        len
    } else if word[from] == '(' {
        at_most(from + 3, len)
    } else if word[from] == '[' {
        at_most(bracket_end(word, from + 1) + 1, len)
    } else if word[from] == '+' || word[from] == '-' {
        at_most(from + 2, len)
    } else {
        from + 1
    }
}

/// The tokens of the argument of an escape command, where the argument
/// begins at `from`.
///
/// A bracketed argument always gives its three tokens, the closing marker
/// too where the word ends before a `]` was found.
pub open spec fn argument_tokens(word: Seq<char>, from: int) -> Seq<TroffTokenView> {
    let len = word.len() as int;
    if from >= len {
        seq![]
    } else if word[from] == '(' {
        seq![
            token(TroffToken::ArgOpenParen, seq!['('], false),
            token(TroffToken::CommandArg, word.subrange(from + 1, at_most(from + 3, len)), false),
        ]
    } else if word[from] == '[' {
        seq![
            token(TroffToken::ArgOpenBracket, seq!['['], false),
            token(
                TroffToken::CommandArg,
                word.subrange(from + 1, bracket_end(word, from + 1)),
                false,
            ),
            token(TroffToken::ArgCloseBracket, seq![']'], false),
        ]
    } else if word[from] == '+' || word[from] == '-' {
        seq![token(TroffToken::CommandArg, word.subrange(from, at_most(from + 2, len)), false)]
    } else {
        seq![token(TroffToken::CommandArg, word.subrange(from, from + 1), false)]
    }
}

/// The text word `word[base..at]`, if it is not empty.
pub open spec fn pending_text(word: Seq<char>, base: int, at: int, starts_line: bool) -> Seq<
    TroffTokenView,
> {
    if base < at {
        seq![token(TroffToken::TextWord, word.subrange(base, at), starts_line)]
    } else {
        seq![]
    }
}

/// The tokens of `word[base..]`, where `word[base..at]` is known to hold
/// neither `\` nor `"`.
///
/// Text up to the next `\` or `"` is one text word; the special character is
/// a token of its own; what follows a `\` is read by [`escape_tokens`]. Only
/// the first token of the word can start a line.
pub open spec fn text_tokens(word: Seq<char>, base: int, at: int, starts_line: bool) -> Seq<
    TroffTokenView,
>
    decreases word.len() - at, 1int,
{
    if at < base || base < 0 {
        seq![]
    } else if at >= word.len() {
        pending_text(word, base, word.len() as int, starts_line)
    } else if word[at] == '"' {
        pending_text(word, base, at, starts_line) + seq![
            token(TroffToken::DoubleQuote, seq!['"'], starts_line && at == base),
        ] + text_tokens(word, at + 1, at + 1, false)
    } else if word[at] == '\\' {
        pending_text(word, base, at, starts_line) + seq![
            token(TroffToken::Backslash, seq!['\\'], starts_line && at == base),
        ] + escape_tokens(word, at + 1)
    } else {
        text_tokens(word, base, at + 1, starts_line)
    }
}

/// The tokens of `word[at..]`, where `word[at]` follows a `\`.
///
/// The character is an escape command whatever it is. After `(` the next two
/// characters are one text word, the name of a special character; after a
/// command that takes an argument come the tokens of that argument.
pub open spec fn escape_tokens(word: Seq<char>, at: int) -> Seq<TroffTokenView>
    decreases word.len() - at, 0int,
{
    let len = word.len() as int;
    if at < 0 || at >= len {
        seq![]
    } else if word[at] == '(' {
        let end = at_most(at + 3, len);
        seq![
            token(TroffToken::EscapeCommand, seq!['('], false),
            token(TroffToken::TextWord, word.subrange(at + 1, end), false),
        ] + text_tokens(word, end, end, false)
    } else if takes_argument(word[at]) {
        let end = argument_end(word, at + 1);
        proof {
            if at + 2 <= len {
                lemma_bracket_end_bounds(word, at + 2);
            }
        }
        seq![token(TroffToken::EscapeCommand, seq![word[at]], false)] + argument_tokens(
            word,
            at + 1,
        ) + text_tokens(word, end, end, false)
    } else {
        seq![token(TroffToken::EscapeCommand, seq![word[at]], false)] + text_tokens(
            word,
            at + 1,
            at + 1,
            false,
        )
    }
}

/// The tokens that one word of a line stands for.
///
/// An empty word at the start of a line is an empty line. A word that begins
/// with white space is one white space token. A word that begins with `.` at
/// the start of a line is one macro token, never split. Any other word is
/// split at each `\` and `"`.
pub open spec fn word_tokens(word: Seq<char>, starts_line: bool) -> Seq<TroffTokenView> {
    if word.len() == 0 {
        if starts_line {
            seq![token(TroffToken::EmptyLine, seq![], true)]
        } else {
            seq![]
        }
    } else if crate::text::is_whitespace(word[0]) {
        seq![token(TroffToken::Whitespace, word, starts_line)]
    } else if starts_line && word[0] == '.' {
        seq![token(TroffToken::Macro, word, true)]
    } else {
        text_tokens(word, 0, 0, starts_line)
    }
}

/// Whether a line whose first word is `word` is a comment: the word begins
/// with `\"`, `.\"` or `\#`, or is a lone `.`.
pub open spec fn is_comment_word(word: Seq<char>) -> bool {
    ||| word.len() >= 2 && word[0] == '\\' && word[1] == '"'
    ||| word.len() >= 3 && word[0] == '.' && word[1] == '\\' && word[2] == '"'
    ||| word.len() >= 2 && word[0] == '\\' && word[1] == '#'
    ||| word.len() == 1 && word[0] == '.'
}

/// The lexer for troff words.
pub struct TroffTokenGenerator;

impl TokenGenerator<TroffToken> for TroffTokenGenerator {
    open spec fn tokens_of(&self, word: Seq<char>, starts_line: bool) -> Seq<TroffTokenView> {
        word_tokens(word, starts_line)
    }

    open spec fn begins_comment(&self, word: Seq<char>) -> bool {
        is_comment_word(word)
    }

    fn generate(&self, word: &str, starts_line: bool) -> (tokens: Vec<Token<TroffToken>>) {
        let chars = chars_of(word);
        let len = chars.len();
        let mut tokens: Vec<Token<TroffToken>> = Vec::new();
        assert(Token::views(tokens@) =~= seq![]);
        assert(chars@.subrange(0, len as int) =~= word@);
        if len == 0 {
            if starts_line {
                push_token(&mut tokens, TroffToken::EmptyLine, &chars, 0, 0, true);
                assert(chars@.subrange(0, 0) =~= seq![]);
            }
            return tokens;
        }
        if char_is_whitespace(chars[0]) {
            push_token(&mut tokens, TroffToken::Whitespace, &chars, 0, len, starts_line);
            return tokens;
        }
        if starts_line && chars[0] == '.' {
            push_token(&mut tokens, TroffToken::Macro, &chars, 0, len, true);
            return tokens;
        }
        split_text(&chars, starts_line)
    }

    fn is_comment(&self, word: &str) -> (comment: bool) {
        let chars = chars_of(word);
        let len = chars.len();
        (len >= 2 && chars[0] == '\\' && chars[1] == '"') || (len >= 3 && chars[0] == '.'
            && chars[1] == '\\' && chars[2] == '"') || (len >= 2 && chars[0] == '\\' && chars[1]
            == '#') || (len == 1 && chars[0] == '.')
    }
}

/// Appends to `tokens` the token of class `class` with the text
/// `chars[from..to]`.
fn push_token(
    tokens: &mut Vec<Token<TroffToken>>,
    class: TroffToken,
    chars: &Vec<char>,
    from: usize,
    to: usize,
    starts_line: bool,
)
    requires
        from <= to <= chars@.len(),
    ensures
        Token::views(final(tokens)@)
            == Token::views(old(tokens)@).push(
            token(class, chars@.subrange(from as int, to as int), starts_line),
        ),
{
    let value = string_of_range(chars, from, to);
    tokens.push(Token::new(class, value, starts_line));
    assert(Token::views(tokens@)
        =~= Token::views(old(tokens)@).push(
        token(class, chars@.subrange(from as int, to as int), starts_line),
    ));
}

/// Appends to `tokens` the token of class `class` whose text is the one
/// character `c`; such a token never starts a line.
fn push_marker(tokens: &mut Vec<Token<TroffToken>>, class: TroffToken, c: char)
    ensures
        Token::views(final(tokens)@)
            == Token::views(old(tokens)@).push(
            token(class, seq![c], false),
        ),
{
    let mut value = String::new();
    value.push(c);
    assert(value@ =~= seq![c]);
    tokens.push(Token::new(class, value, false));
    assert(Token::views(tokens@)
        =~= Token::views(old(tokens)@).push(
        token(class, seq![c], false),
    ));
}

/// Given an escape command, tells whether an argument follows it.
///
/// `\fBword` is the command `f` with the argument `B` before the text
/// `word`; `\-` stands for `-` and has no argument.
fn command_has_args(command: char) -> (has: bool)
    ensures
        has == takes_argument(command),
{
    command == 'f' || command == 'm' || command == 's'
}

/// The class of a character that is a token of its own wherever it stands in
/// a word.
fn try_match_special(c: char) -> (class: Option<TroffToken>)
    ensures
        class == (if c == '\\' {
            Some(TroffToken::Backslash)
        } else if c == '"' {
            Some(TroffToken::DoubleQuote)
        } else {
            None
        }),
{
    if c == '\\' {
        Some(TroffToken::Backslash)
    } else if c == '"' {
        Some(TroffToken::DoubleQuote)
    } else {
        None
    }
}

/// The position of the first `]` at or after `from`, or the length of
/// `chars`.
fn find_bracket_end(chars: &Vec<char>, from: usize) -> (end: usize)
    requires
        from <= chars@.len(),
    ensures
        end == bracket_end(chars@, from as int),
        from <= end <= chars@.len(),
{
    let mut at: usize = from;
    while at < chars.len() && chars[at] != ']'
        invariant
            from <= at <= chars@.len(),
            bracket_end(chars@, at as int) == bracket_end(chars@, from as int),
        decreases chars@.len() - at,
    {
        at += 1;
    }
    at
}

/// Appends to `tokens` the tokens of the argument that begins at `from`, and
/// returns the position behind the argument.
fn get_escaped_args(tokens: &mut Vec<Token<TroffToken>>, chars: &Vec<char>, from: usize) -> (end:
    usize)
    requires
        from <= chars@.len(),
    ensures
        end == argument_end(chars@, from as int),
        from <= end <= chars@.len(),
        Token::views(final(tokens)@)
            == Token::views(old(tokens)@) + argument_tokens(
            chars@,
            from as int,
        ),
{
    let len = chars.len();
    if from >= len {
        assert(Token::views(tokens@)
            =~= Token::views(tokens@) + Seq::<TroffTokenView>::empty());
        return len;
    }
    let first = chars[from];
    let ghost before = Token::views(tokens@);
    if first == '(' {
        let end = if len - from >= 3 {
            from + 3
        } else {
            len
        };
        push_marker(tokens, TroffToken::ArgOpenParen, '(');
        push_token(tokens, TroffToken::CommandArg, chars, from + 1, end, false);
        assert(Token::views(tokens@) =~= before + argument_tokens(
            chars@,
            from as int,
        ));
        end
    } else if first == '[' {
        let close = find_bracket_end(chars, from + 1);
        push_marker(tokens, TroffToken::ArgOpenBracket, '[');
        push_token(tokens, TroffToken::CommandArg, chars, from + 1, close, false);
        push_marker(tokens, TroffToken::ArgCloseBracket, ']');
        assert(Token::views(tokens@) =~= before + argument_tokens(
            chars@,
            from as int,
        ));
        if close < len {
            close + 1
        } else {
            len
        }
    } else if first == '+' || first == '-' {
        let end = if len - from >= 2 {
            from + 2
        } else {
            len
        };
        push_token(tokens, TroffToken::CommandArg, chars, from, end, false);
        assert(Token::views(tokens@) =~= before + argument_tokens(
            chars@,
            from as int,
        ));
        end
    } else {
        push_token(tokens, TroffToken::CommandArg, chars, from, from + 1, false);
        assert(Token::views(tokens@) =~= before + argument_tokens(
            chars@,
            from as int,
        ));
        from + 1
    }
}

/// Appends to `tokens` the tokens of the escape command at `at`, which
/// follows a `\`, and of its argument. Returns the position behind them,
/// where plain text goes on.
fn push_escape(tokens: &mut Vec<Token<TroffToken>>, chars: &Vec<char>, at: usize) -> (end: usize)
    requires
        at <= chars@.len(),
    ensures
        at <= end <= chars@.len(),
        at < chars@.len() ==> at < end,
        Token::views(final(tokens)@) + text_tokens(
            chars@,
            end as int,
            end as int,
            false,
        ) == Token::views(old(tokens)@) + escape_tokens(
            chars@,
            at as int,
        ),
{
    let len = chars.len();
    let ghost word = chars@;
    let ghost before = Token::views(tokens@);
    if at >= len {
        assert(text_tokens(word, len as int, len as int, false) =~= escape_tokens(
            word,
            at as int,
        ));
        return len;
    }
    let command = chars[at];
    push_token(tokens, TroffToken::EscapeCommand, chars, at, at + 1, false);
    assert(word.subrange(at as int, at + 1) =~= seq![command]);
    let ghost emitted = Token::views(tokens@);
    let end = if command == '(' {
        let end = if len - at >= 3 {
            at + 3
        } else {
            len
        };
        push_token(tokens, TroffToken::TextWord, chars, at + 1, end, false);
        end
    } else if command_has_args(command) {
        proof {
            if at + 2 <= len {
                lemma_bracket_end_bounds(word, at + 2);
            }
        }
        get_escaped_args(tokens, chars, at + 1)
    } else {
        at + 1
    };
    let ghost rest = text_tokens(word, end as int, end as int, false);
    assert(Token::views(tokens@) + rest =~= before + escape_tokens(
        word,
        at as int,
    ));
    end
}

/// The tokens of a word that is neither empty, nor white space, nor a macro.
fn split_text(chars: &Vec<char>, starts_line: bool) -> (tokens: Vec<Token<TroffToken>>)
    ensures
        Token::views(tokens@) == text_tokens(
            chars@,
            0,
            0,
            starts_line,
        ),
{
    let len = chars.len();
    let ghost word = chars@;
    let ghost all = text_tokens(word, 0, 0, starts_line);
    let mut tokens: Vec<Token<TroffToken>> = Vec::new();
    // where the text word that is being read began
    let mut base: usize = 0;
    let mut at: usize = 0;
    let mut first = starts_line;
    assert(Token::views(tokens@) =~= seq![]);
    while at < len
        invariant
            len == chars@.len(),
            word == chars@,
            base <= at <= len,
            Token::views(tokens@) + text_tokens(
                word,
                base as int,
                at as int,
                first,
            ) == all,
        decreases len - at,
    {
        let c = chars[at];
        let ghost before = Token::views(tokens@);
        match try_match_special(c) {
            None => {
                at += 1;
            },
            Some(class) => {
                let ghost head = pending_text(word, base as int, at as int, first) + seq![
                    token(class, seq![c], first && at == base),
                ];
                let ghost tail = if c == '"' {
                    text_tokens(word, at + 1, at + 1, false)
                } else {
                    escape_tokens(word, at + 1)
                };
                assert(before + (head + tail) =~= all);
                if at > base {
                    push_token(&mut tokens, TroffToken::TextWord, chars, base, at, first);
                    first = false;
                }
                push_token(&mut tokens, class, chars, at, at + 1, first);
                assert(word.subrange(at as int, at + 1) =~= seq![c]);
                assert(Token::views(tokens@) =~= before + head);
                assert((before + head) + tail =~= all);
                first = false;
                at += 1;
                if c == '\\' {
                    // what follows a backslash is escaped, whatever it is
                    at = push_escape(&mut tokens, chars, at);
                }
                base = at;
            },
        }
    }
    if base < len {
        push_token(&mut tokens, TroffToken::TextWord, chars, base, len, first);
    } else {
        assert(Token::views(tokens@) + Seq::<
            TroffTokenView,
        >::empty() =~= Token::views(tokens@));
    }
    tokens
}

} // verus!
