//! The passages that go with a question, and how they are written out.

use crate::audio_source::{watch_url, youtube_link};
use crate::decimal::{decimal, padded, push_decimal, push_padded};
use crate::rag::{context_views, plain_context, ContextChunk, ContextView};
use crate::text::{
    append_chars, append_str, from_chars, join, join_chars, lemma_views_push, starts_with,
    to_chars, views,
};
use crate::vector_store::SearchResult;
use vstd::prelude::*;

verus! {

/// How many passages go with a question where nothing else is said.
pub const DEFAULT_MAX_CHUNKS: usize = 10;

/// The least score, in millionths, of a passage that goes with a question.
pub const DEFAULT_MIN_SCORE: i32 = 300000;

/// What is asked of a search for the passages of a question.
#[derive(Debug, Clone, Copy)]
pub struct ContextBuilder {
    pub max_chunks: usize,
    pub min_score: i32,
}

/// Whether a media is a file on disk, by its identifier.
pub open spec fn is_local_id(video_id: Seq<char>) -> bool {
    "local_"@.is_prefix_of(video_id)
}

/// The passage of a search result: with the address of its start where the
/// media is a video on the web.
pub open spec fn context_of(r: SearchResult) -> ContextView {
    ContextView {
        url: if is_local_id(r.document.video_id@) {
            None
        } else {
            Some(watch_url(r.document.video_id@, r.document.start_ms))
        },
        ..plain_context(r)
    }
}

/// The passages of search results, in order.
pub open spec fn contexts_of(results: Seq<SearchResult>) -> Seq<ContextView> {
    Seq::new(results.len(), |i: int| context_of(results[i]))
}

/// A passage as a block of a prompt, numbered from one.
pub open spec fn prompt_block(i: int, c: ContextView) -> Seq<char> {
    "---\n["@ + decimal((i + 1) as nat) + "] "@ + c.video_title + " @ "@ + c.timestamp + "\n"@
        + c.content + "\n---"@
}

pub open spec fn prompt_blocks(chunks: Seq<ContextView>) -> Seq<Seq<char>> {
    Seq::new(chunks.len(), |i: int| prompt_block(i, chunks[i]))
}

/// The passages as they stand in a prompt.
pub open spec fn prompt_context(chunks: Seq<ContextView>) -> Seq<char> {
    join(prompt_blocks(chunks), "\n\n"@)
}

/// The hundredths nearest to a score in millionths, without its sign; a half
/// goes to the even side.
pub open spec fn hundredths(score: i32) -> nat {
    let size = if score < 0 {
        -(score as int)
    } else {
        score as int
    };
    let whole = size / 10000;
    let rest = size % 10000;
    if rest > 5000 || (rest == 5000 && whole % 2 == 1) {
        (whole + 1) as nat
    } else {
        whole as nat
    }
}

/// A score with two digits behind the point.
pub open spec fn score_text(score: i32) -> Seq<char> {
    let h = hundredths(score);
    (if score < 0 {
        seq!['-']
    } else {
        Seq::<char>::empty()
    }) + decimal(h / 100) + seq!['.'] + padded(h % 100, 2)
}

/// A passage as a line for a reader, with its address where it has one.
pub open spec fn display_line(c: ContextView) -> Seq<char> {
    c.video_title + " @ "@ + c.timestamp + " (score: "@ + score_text(c.score) + ")"@ + (match c.url {
        Some(u) => "\n  Link: "@ + u,
        None => Seq::<char>::empty(),
    })
}

pub open spec fn display_lines(chunks: Seq<ContextView>) -> Seq<Seq<char>> {
    Seq::new(chunks.len(), |i: int| display_line(chunks[i]))
}

/// The passages as they are shown to a reader.
pub open spec fn display_context(chunks: Seq<ContextView>) -> Seq<char> {
    join(display_lines(chunks), "\n\n"@)
}

/// Appends a score with two digits behind the point.
pub fn push_score(out: &mut Vec<char>, score: i32)
    ensures
        final(out)@ == old(out)@ + score_text(score),
{
    let size: u64 = if score < 0 {
        (-(score as i64)) as u64
    } else {
        score as u64
    };
    let whole: u64 = size / 10000;
    let rest: u64 = size % 10000;
    let h: u64 = if rest > 5000 || (rest == 5000 && whole % 2 == 1) {
        whole + 1
    } else {
        whole
    };
    assert(h == hundredths(score));
    let mut text: Vec<char> = Vec::new();
    if score < 0 {
        text.push('-');
    }
    let ghost sign = text@;
    push_decimal(&mut text, h / 100);
    text.push('.');
    push_padded(&mut text, h % 100, 2);
    assert(text@ == sign + decimal((h / 100) as nat) + seq!['.'] + padded((h % 100) as nat, 2));
    append_chars(out, &text);
}

impl ContextBuilder {
    /// What is asked by default.
    pub fn new() -> (b: ContextBuilder)
        ensures
            b.max_chunks == DEFAULT_MAX_CHUNKS,
            b.min_score == DEFAULT_MIN_SCORE,
    {
        ContextBuilder { max_chunks: DEFAULT_MAX_CHUNKS, min_score: DEFAULT_MIN_SCORE }
    }

    /// The same with another number of passages.
    pub fn with_max_chunks(self, max_chunks: usize) -> (b: ContextBuilder)
        ensures
            b.max_chunks == max_chunks,
            b.min_score == self.min_score,
    {
        ContextBuilder { max_chunks, min_score: self.min_score }
    }

    /// The same with another least score.
    pub fn with_min_score(self, min_score: i32) -> (b: ContextBuilder)
        ensures
            b.max_chunks == self.max_chunks,
            b.min_score == min_score,
    {
        ContextBuilder { max_chunks: self.max_chunks, min_score }
    }

    /// The passages of search results, each with the address of its start
    /// where its media is a video on the web.
    pub fn from_results(results: &Vec<SearchResult>) -> (out: Vec<ContextChunk>)
        ensures
            context_views(out@) == contexts_of(results@),
    {
        let mut out: Vec<ContextChunk> = Vec::new();
        let local = to_chars("local_");
        let mut i: usize = 0;
        while i < results.len()
            invariant
                i <= results.len(),
                local@ == "local_"@,
                context_views(out@) == contexts_of(results@).take(i as int),
            decreases results.len() - i,
        {
            let r = &results[i];
            let mut chunk = ContextChunk::from(r);
            if !starts_with(&to_chars(r.document.video_id.as_str()), &local) {
                chunk.url = Some(youtube_link(r.document.video_id.as_str(), r.document.start_ms));
            }
            assert(chunk@ == context_of(*r));
            let ghost prior = out@;
            out.push(chunk);
            assert(context_views(out@) =~= context_views(prior).push(chunk@));
            assert(contexts_of(results@).take(i + 1) =~= contexts_of(results@).take(i as int).push(
                chunk@,
            ));
            i = i + 1;
        }
        assert(contexts_of(results@).take(results.len() as int) == contexts_of(results@));
        out
    }
}

/// The passages as they stand in a prompt: blocks between rules, each with
/// its number, title and time above its text.
pub fn format_context_for_prompt(chunks: &Vec<ContextChunk>) -> (out: String)
    ensures
        out@ == prompt_context(context_views(chunks@)),
{
    let ghost all = context_views(chunks@);
    let mut blocks: Vec<Vec<char>> = Vec::new();
    let mut i: usize = 0;
    while i < chunks.len()
        invariant
            i <= chunks.len(),
            all == context_views(chunks@),
            views(blocks@) == prompt_blocks(all).take(i as int),
        decreases chunks.len() - i,
    {
        let c = &chunks[i];
        let mut b: Vec<char> = Vec::new();
        append_str(&mut b, "---\n[");
        push_decimal(&mut b, (i + 1) as u64);
        append_str(&mut b, "] ");
        append_str(&mut b, c.video_title.as_str());
        append_str(&mut b, " @ ");
        append_str(&mut b, c.timestamp.as_str());
        append_str(&mut b, "\n");
        append_str(&mut b, c.content.as_str());
        append_str(&mut b, "\n---");
        assert(b@ == prompt_block(i as int, c@));
        proof {
            lemma_views_push(blocks@, b);
            assert(prompt_blocks(all).take(i + 1) =~= prompt_blocks(all).take(i as int).push(
                prompt_block(i as int, c@),
            ));
        }
        blocks.push(b);
        i = i + 1;
    }
    assert(prompt_blocks(all).take(chunks.len() as int) == prompt_blocks(all));
    from_chars(&join_chars(&blocks, &to_chars("\n\n")))
}

/// The passages as they are shown to a reader: title, time and score of each,
/// and its address where it has one.
pub fn format_context_for_display(chunks: &Vec<ContextChunk>) -> (out: String)
    ensures
        out@ == display_context(context_views(chunks@)),
{
    let ghost all = context_views(chunks@);
    let mut lines: Vec<Vec<char>> = Vec::new();
    let mut i: usize = 0;
    while i < chunks.len()
        invariant
            i <= chunks.len(),
            all == context_views(chunks@),
            views(lines@) == display_lines(all).take(i as int),
        decreases chunks.len() - i,
    {
        let c = &chunks[i];
        let mut b: Vec<char> = Vec::new();
        append_str(&mut b, c.video_title.as_str());
        append_str(&mut b, " @ ");
        append_str(&mut b, c.timestamp.as_str());
        append_str(&mut b, " (score: ");
        push_score(&mut b, c.score);
        append_str(&mut b, ")");
        let ghost head = b@;
        match &c.url {
            Some(u) => {
                append_str(&mut b, "\n  Link: ");
                append_str(&mut b, u.as_str());
                assert(b@ == head + ("\n  Link: "@ + u@));
            },
            None => {
                assert(b@ == head + Seq::<char>::empty());
            },
        }
        assert(b@ == display_line(c@));
        proof {
            lemma_views_push(lines@, b);
            assert(display_lines(all).take(i + 1) =~= display_lines(all).take(i as int).push(
                display_line(c@),
            ));
        }
        lines.push(b);
        i = i + 1;
    }
    assert(display_lines(all).take(chunks.len() as int) == display_lines(all));
    from_chars(&join_chars(&lines, &to_chars("\n\n")))
}

} // verus!
