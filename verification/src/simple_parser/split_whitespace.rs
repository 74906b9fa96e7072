//! Splitting a line into words and the white space between them, keeping
//! both.
use crate::text::{char_is_whitespace, chars_of};
use vstd::prelude::*;

verus! {

/// Whether `c` continues a chunk that began with `first`: a chunk of white
/// space holds one repeated character, any other chunk holds no white space.
pub open spec fn continues_chunk(first: char, c: char) -> bool {
    if crate::text::is_whitespace(first) {
        c == first
    } else {
        !crate::text::is_whitespace(c)
    }
}

/// The first position at or after `at` whose character does not continue a
/// chunk that began with `first`, or the length of `line`.
pub open spec fn run_end(line: Seq<char>, first: char, at: int) -> int
    decreases line.len() - at,
{
    if at < 0 || at >= line.len() {
        line.len() as int
    } else if continues_chunk(first, line[at]) {
        run_end(line, first, at + 1)
    } else {
        at
    }
}

/// The position behind the chunk that begins at `start`.
pub open spec fn chunk_end(line: Seq<char>, start: int) -> int {
    if 0 <= start < line.len() {
        run_end(line, line[start], start + 1)
    } else {
        line.len() as int
    }
}

/// [`run_end`] lies between `at` and the end of the line; every character
/// before it continues the chunk, and the character at it does not.
pub proof fn lemma_run_end(line: Seq<char>, first: char, at: int)
    requires
        0 <= at <= line.len(),
    ensures
        at <= run_end(line, first, at) <= line.len(),
        forall|i: int| at <= i < run_end(line, first, at) ==> continues_chunk(first, line[i]),
        run_end(line, first, at) < line.len() ==> !continues_chunk(
            first,
            line[run_end(line, first, at)],
        ),
    decreases line.len() - at,
{
    if at < line.len() && continues_chunk(first, line[at]) {
        lemma_run_end(line, first, at + 1);
    }
}

/// The chunks of `line` from position `from` on: maximal runs of one
/// repeated white space character, and maximal runs without white space.
pub open spec fn chunks_from(line: Seq<char>, from: int) -> Seq<Seq<char>>
    decreases line.len() - from,
{
    if from < 0 || from >= line.len() {
        seq![]
    } else {
        let end = chunk_end(line, from);
        proof {
            lemma_run_end(line, line[from], from + 1);
        }
        seq![line.subrange(from, end)] + chunks_from(line, end)
    }
}

/// The chunks of `line`.
pub open spec fn split_chunks(line: Seq<char>) -> Seq<Seq<char>> {
    chunks_from(line, 0)
}

/// Tells whether `c` continues a chunk that began with `first`.
fn same_chunk(first: char, c: char) -> (same: bool)
    ensures
        same == continues_chunk(first, c),
{
    if char_is_whitespace(first) {
        c == first
    } else {
        !char_is_whitespace(c)
    }
}

/// The position behind the chunk of `chars` that begins at `start`.
pub fn find_chunk_end(chars: &Vec<char>, start: usize) -> (end: usize)
    requires
        start < chars@.len(),
    ensures
        end == chunk_end(chars@, start as int),
        start < end <= chars@.len(),
{
    let len = chars.len();
    let first = chars[start];
    let mut at: usize = start + 1;
    while at < len && same_chunk(first, chars[at])
        invariant
            len == chars@.len(),
            start < at <= len,
            run_end(chars@, first, at as int) == run_end(chars@, first, start + 1),
        decreases chars@.len() - at,
    {
        at += 1;
    }
    at
}

/// Strings that can be split into chunks.
pub trait WhitespaceSplitInclusive {
    /// The text that is split.
    spec fn text(&self) -> Seq<char>;

    /// A cursor over the chunks of the text, before the first one.
    fn split_whitespace_inclusive(&self) -> (split: SplitWhitespaceInclusive<'_>)
        ensures
            split.remaining() == split_chunks(self.text()),
    ;
}

impl WhitespaceSplitInclusive for str {
    open spec fn text(&self) -> Seq<char> {
        self@
    }

    fn split_whitespace_inclusive(&self) -> (split: SplitWhitespaceInclusive<'_>) {
        SplitWhitespaceInclusive::new(self)
    }
}

/// A cursor over the chunks of a string: words, and the white space between
/// them.
pub struct SplitWhitespaceInclusive<'a> {
    content: &'a str,
    chars: Vec<char>,
    cur_idx: usize,
}

impl<'a> SplitWhitespaceInclusive<'a> {
    #[verifier::type_invariant]
    spec fn well_formed(self) -> bool {
        self.chars@ == self.content@ && self.cur_idx <= self.chars@.len()
    }

    /// The chunks that are still to come.
    pub closed spec fn remaining(&self) -> Seq<Seq<char>> {
        chunks_from(self.content@, self.cur_idx as int)
    }

    /// A cursor before the first chunk of `content`.
    pub fn new(content: &'a str) -> (split: Self)
        ensures
            split.remaining() == split_chunks(content@),
    {
        SplitWhitespaceInclusive { content, chars: chars_of(content), cur_idx: 0 }
    }

    /// The next chunk, if there is one.
    pub fn next(&mut self) -> (chunk: Option<&'a str>)
        ensures
            old(self).remaining().len() == 0 ==> chunk is None && final(self).remaining() == old(
                self,
            ).remaining(),
            old(self).remaining().len() > 0 ==> chunk is Some && chunk->0@ == old(
                self,
            ).remaining()[0] && final(self).remaining() == old(self).remaining().drop_first(),
    {
        proof {
            use_type_invariant(&*self);
        }
        if self.cur_idx >= self.chars.len() {
            return None;
        }
        let start = self.cur_idx;
        let end = find_chunk_end(&self.chars, start);
        let chunk = self.content.substring_char(start, end);
        self.cur_idx = end;
        assert(old(self).remaining().drop_first() =~= self.remaining());
        Some(chunk)
    }

    /// All the chunks that are still to come, in order.
    pub fn collect(self) -> (chunks: Vec<&'a str>)
        ensures
            chunk_texts(chunks@) == self.remaining(),
    {
        let mut split = self;
        let mut chunks: Vec<&'a str> = Vec::new();
        assert(chunk_texts(chunks@) =~= seq![]);
        loop
            invariant
                chunk_texts(chunks@) + split.remaining() == self.remaining(),
            decreases split.remaining().len(),
        {
            let ghost before = split.remaining();
            let ghost collected = chunk_texts(chunks@);
            match split.next() {
                None => {
                    assert(collected + before =~= collected);
                    return chunks;
                },
                Some(chunk) => {
                    chunks.push(chunk);
                    assert(chunk_texts(chunks@) =~= collected.push(chunk@));
                    assert(collected.push(chunk@) + before.drop_first() =~= collected + before);
                },
            }
        }
    }
}

/// The texts of `chunks`.
pub open spec fn chunk_texts(chunks: Seq<&str>) -> Seq<Seq<char>> {
    chunks.map_values(|chunk: &str| chunk@)
}

} // verus!
