//! The tools that a model may ask for: reading a request, and writing out what
//! the index answered.

use crate::calendar::{format_instant, instant_text};
use crate::decimal::{
    decimal, lemma_decimal_digits, lemma_decimal_len, lemma_digits_value_concat,
    digits_value, lemma_padded_digits, lemma_plain_numeral, lemma_shifted_value_beyond, padded,
    pow10, shifted_value,
    push_decimal, push_padded, thousandths,
};
use crate::error::LyttError;
use crate::json::{json_of_text, parse_json, Json, JsonValue};
use crate::schema::{outline, signature, ParamDefault, ParamKind, ParamSpec, ToolSpec};
use crate::seqs::{lemma_filter_empty, lemma_filter_next};
use crate::sorting::{reorder, sort_by_keys, stable_order};
use crate::text::{
    append_chars, append_str, from_chars, join, join_chars, lemma_views_push, str_eq, string_of,
    take_chars, to_chars, views,
};
use crate::timefmt::{clock, clock_seconds, push_clock, round_seconds, rounded_seconds};
use crate::vector_store::{Document, IndexedVideo, SearchResult};
use vstd::prelude::*;

verus! {

/// A request for one of the tools. Times are whole milliseconds.
#[derive(Debug, Clone)]
pub enum ToolCall {
    Search { query: String, limit: u32 },
    GetTranscript { video_id: String },
    GetSegment { video_id: String, start_ms: u64, end_ms: u64 },
    ListVideos,
    GetVideoInfo { video_id: String },
}

/// What a `ToolCall` holds.
pub enum ToolCallView {
    Search { query: Seq<char>, limit: u32 },
    GetTranscript { video_id: Seq<char> },
    GetSegment { video_id: Seq<char>, start_ms: u64, end_ms: u64 },
    ListVideos,
    GetVideoInfo { video_id: Seq<char> },
}

impl View for ToolCall {
    type V = ToolCallView;

    open spec fn view(&self) -> ToolCallView {
        match self {
            ToolCall::Search { query, limit } => ToolCallView::Search {
                query: query@,
                limit: *limit,
            },
            ToolCall::GetTranscript { video_id } => ToolCallView::GetTranscript {
                video_id: video_id@,
            },
            ToolCall::GetSegment { video_id, start_ms, end_ms } => ToolCallView::GetSegment {
                video_id: video_id@,
                start_ms: *start_ms,
                end_ms: *end_ms,
            },
            ToolCall::ListVideos => ToolCallView::ListVideos,
            ToolCall::GetVideoInfo { video_id } => ToolCallView::GetVideoInfo {
                video_id: video_id@,
            },
        }
    }
}

/// How many results a search returns where the request names no limit.
pub const DEFAULT_LIMIT: u32 = 5;

/// The least score, in millionths, of a result that a search tool returns.
pub const SEARCH_THRESHOLD: i32 = 300000;

/// How many characters of a passage a search result shows.
pub const PREVIEW_CHARS: usize = 500;

/// The limit of a search: the number given, held to 32 bits, or the default.
pub open spec fn limit_of(args: JsonValue) -> u32 {
    match args.natural_field("limit"@) {
        Some(n) => (n % 0x1_0000_0000) as u32,
        None => DEFAULT_LIMIT,
    }
}

/// What is said of an argument that is missing or of the wrong kind.
pub open spec fn missing(key: Seq<char>) -> Seq<char> {
    "Missing '"@ + key + "' argument"@
}

/// The request that a tool name and its arguments make, or what is wrong with
/// them.
pub open spec fn tool_call_of(name: Seq<char>, args: JsonValue) -> Result<
    ToolCallView,
    Seq<char>,
> {
    if name == "search"@ {
        match args.text_field("query"@) {
            Some(query) => Ok(ToolCallView::Search { query, limit: limit_of(args) }),
            None => Err(missing("query"@)),
        }
    } else if name == "get_transcript"@ {
        match args.text_field("video_id"@) {
            Some(video_id) => Ok(ToolCallView::GetTranscript { video_id }),
            None => Err(missing("video_id"@)),
        }
    } else if name == "get_segment"@ {
        match args.text_field("video_id"@) {
            Some(video_id) => match args.millis_field("start_seconds"@) {
                Some(start) => match args.millis_field("end_seconds"@) {
                    Some(end) => Ok(
                        ToolCallView::GetSegment {
                            video_id,
                            start_ms: start as u64,
                            end_ms: end as u64,
                        },
                    ),
                    None => Err(missing("end_seconds"@)),
                },
                None => Err(missing("start_seconds"@)),
            },
            None => Err(missing("video_id"@)),
        }
    } else if name == "list_videos"@ {
        Ok(ToolCallView::ListVideos)
    } else if name == "get_video_info"@ {
        match args.text_field("video_id"@) {
            Some(video_id) => Ok(ToolCallView::GetVideoInfo { video_id }),
            None => Err(missing("video_id"@)),
        }
    } else {
        Err("Unknown tool: "@ + name)
    }
}

fn default_limit() -> (n: u32)
    ensures
        n == DEFAULT_LIMIT,
{
    DEFAULT_LIMIT
}

fn missing_argument(key: &str) -> (e: LyttError)
    ensures
        e == LyttError::Agent(e->Agent_0),
        e->Agent_0@ == missing(key@),
{
    let mut m: Vec<char> = Vec::new();
    append_str(&mut m, "Missing '");
    append_str(&mut m, key);
    append_str(&mut m, "' argument");
    LyttError::Agent(from_chars(&m))
}

/// Reads a request from a tool name and arguments that are JSON already.
pub fn tool_call_from_json(name: &str, args: &Json) -> (r: Result<ToolCall, LyttError>)
    ensures
        match tool_call_of(name@, args@) {
            Ok(call) => r matches Ok(t) && t@ == call,
            Err(detail) => r matches Err(LyttError::Agent(m)) && m@ == detail,
        },
{
    if str_eq(name, "search") {
        let query = match args.str_field("query") {
            Some(q) => q,
            None => {
                return Err(missing_argument("query"));
            },
        };
        let limit: u32 = match args.u64_field("limit") {
            Some(n) => (n % 0x1_0000_0000) as u32,
            None => default_limit(),
        };
        Ok(ToolCall::Search { query, limit })
    } else if str_eq(name, "get_transcript") {
        match args.str_field("video_id") {
            Some(video_id) => Ok(ToolCall::GetTranscript { video_id }),
            None => Err(missing_argument("video_id")),
        }
    } else if str_eq(name, "get_segment") {
        let video_id = match args.str_field("video_id") {
            Some(v) => v,
            None => {
                return Err(missing_argument("video_id"));
            },
        };
        let start_ms = match args.millis_field("start_seconds") {
            Some(v) => v,
            None => {
                return Err(missing_argument("start_seconds"));
            },
        };
        let end_ms = match args.millis_field("end_seconds") {
            Some(v) => v,
            None => {
                return Err(missing_argument("end_seconds"));
            },
        };
        Ok(ToolCall::GetSegment { video_id, start_ms, end_ms })
    } else if str_eq(name, "list_videos") {
        Ok(ToolCall::ListVideos)
    } else if str_eq(name, "get_video_info") {
        match args.str_field("video_id") {
            Some(video_id) => Ok(ToolCall::GetVideoInfo { video_id }),
            None => Err(missing_argument("video_id")),
        }
    } else {
        let mut m: Vec<char> = Vec::new();
        append_str(&mut m, "Unknown tool: ");
        append_str(&mut m, name);
        Err(LyttError::Agent(from_chars(&m)))
    }
}

/// Reads a request from a tool name and the text of its arguments. Arguments
/// that are no JSON are refused before the name is looked at.
pub fn parse_tool_call(name: &str, arguments: &str) -> (r: Result<ToolCall, LyttError>)
    ensures
        match json_of_text(arguments@) {
            Some(args) => match tool_call_of(name@, args) {
                Ok(call) => r matches Ok(t) && t@ == call,
                Err(detail) => r matches Err(LyttError::Agent(m)) && m@ == detail,
            },
            None => r matches Err(LyttError::Agent(m)) && "Invalid tool arguments: "@.is_prefix_of(
                m@,
            ),
        },
{
    match parse_json(arguments) {
        Ok(args) => tool_call_from_json(name, &args),
        Err(reason) => {
            let mut m: Vec<char> = Vec::new();
            append_str(&mut m, "Invalid tool arguments: ");
            append_str(&mut m, reason.as_str());
            Err(LyttError::Agent(from_chars(&m)))
        },
    }
}

/// The first characters of a passage that a search result shows.
pub open spec fn preview(content: Seq<char>) -> Seq<char> {
    if content.len() > PREVIEW_CHARS {
        content.take(PREVIEW_CHARS as int)
    } else {
        content
    }
}

/// The digits behind the point of `rest` thousandths, without zeros at the end.
pub open spec fn fraction_digits(rest: nat) -> Seq<char> {
    if rest % 100 == 0 {
        padded(rest / 100, 1)
    } else if rest % 10 == 0 {
        padded(rest / 10, 2)
    } else {
        padded(rest, 3)
    }
}

/// `ms` milliseconds as seconds: a whole number where it is one, else with the
/// digits behind the point that are needed.
pub open spec fn seconds_text(ms: nat) -> Seq<char> {
    if ms % 1000 == 0 {
        decimal(ms / 1000)
    } else {
        decimal(ms / 1000) + seq!['.'] + fraction_digits(ms % 1000)
    }
}

/// Seconds that are written are read back as the same milliseconds.
pub proof fn lemma_seconds_read_back(ms: nat)
    requires
        ms <= u64::MAX,
    ensures
        thousandths(seconds_text(ms)) == Some(ms),
{
    let q = ms / 1000;
    let r = ms % 1000;
    let whole = decimal(q);
    lemma_decimal_digits(q);
    reveal_with_fuel(pow10, 4);
    assert(pow10(0) == 1 && pow10(1) == 10 && pow10(2) == 100 && pow10(3) == 1000);
    if r == 0 {
        let none = Seq::<char>::empty();
        lemma_plain_numeral(whole, none);
        assert(whole + none == whole);
        lemma_shifted_value_beyond(whole, (whole.len() + 3) as int);
        assert(seconds_text(ms) == whole);
        assert(shifted_value(whole, (whole.len() + 3) as int) == q * 1000);
        assert(q * 1000 == ms);
    } else {
        let behind = fraction_digits(r);
        let places: nat = if r % 100 == 0 {
            1
        } else if r % 10 == 0 {
            2
        } else {
            3
        };
        let written: nat = if r % 100 == 0 {
            r / 100
        } else if r % 10 == 0 {
            r / 10
        } else {
            r
        };
        lemma_padded_digits(written, places);
        lemma_decimal_len(written);
        assert(behind == padded(written, places));
        assert(behind.len() == places);
        lemma_plain_numeral(whole, behind);
        lemma_digits_value_concat(whole, behind);
        lemma_shifted_value_beyond(whole + behind, (whole.len() + 3) as int);
        assert((whole + behind).len() == whole.len() + places);
        assert(seconds_text(ms) == whole + seq!['.'] + behind);
        assert(digits_value(whole + behind) == q * pow10(places) + written);
        assert(shifted_value(whole + behind, (whole.len() + 3) as int) == (q * pow10(places)
            + written) * pow10((3 - places) as nat));
        if r % 100 == 0 {
            assert((q * 10 + written) * 100 == ms);
        } else if r % 10 == 0 {
            assert((q * 100 + written) * 10 == ms);
        } else {
            assert((q * 1000 + written) * 1 == ms);
        }
    }
}

pub fn push_seconds(out: &mut Vec<char>, ms: u64)
    ensures
        final(out)@ == old(out)@ + seconds_text(ms as nat),
{
    let ghost start = out@;
    push_decimal(out, ms / 1000);
    let rest: u64 = ms % 1000;
    if rest != 0 {
        out.push('.');
        if rest % 100 == 0 {
            push_padded(out, rest / 100, 1);
        } else if rest % 10 == 0 {
            push_padded(out, rest / 10, 2);
        } else {
            push_padded(out, rest, 3);
        }
        assert(out@ == start + (decimal((ms / 1000) as nat) + seq!['.'] + fraction_digits(
            rest as nat,
        )));
    }
}

/// The clock reading of a time: `MM:SS`, or `HH:MM:SS` from one hour on.
pub fn format_seconds(ms: u64) -> (out: String)
    ensures
        out@ == clock(clock_seconds(ms as nat)),
{
    crate::timefmt::format_clock(ms)
}

/// One result of a search, numbered from one.
pub open spec fn search_entry(i: int, r: SearchResult) -> Seq<char> {
    decimal((i + 1) as nat) + ". ["@ + r.document.video_id@ + "] "@ + r.document.video_title@
        + " @ "@ + clock(clock_seconds(r.document.start_ms as nat)) + "\n   "@ + preview(
        r.document.content@,
    )
}

/// The results of a search, each as its entry.
pub open spec fn search_entries(results: Seq<SearchResult>) -> Seq<Seq<char>> {
    Seq::new(results.len(), |i: int| search_entry(i, results[i]))
}

/// What a search tool answers.
pub open spec fn search_report(results: Seq<SearchResult>) -> Seq<char> {
    if results.len() == 0 {
        "No relevant results found."@
    } else {
        "Found "@ + decimal(results.len()) + " results:\n\n"@ + join(
            search_entries(results),
            "\n\n"@,
        )
    }
}

/// The keys by which passages are put in their order within a media.
pub open spec fn chunk_order_keys(docs: Seq<Document>) -> Seq<i128> {
    Seq::new(docs.len(), |i: int| docs[i].chunk_order as i128)
}

/// The passages in their order within a media.
pub open spec fn in_chunk_order(docs: Seq<Document>) -> Seq<Document> {
    reorder(docs, stable_order(chunk_order_keys(docs)))
}

/// The latest end among the passages, or zero.
pub open spec fn latest_end(docs: Seq<Document>) -> nat
    decreases docs.len(),
{
    if docs.len() == 0 {
        0
    } else {
        let before = latest_end(docs.drop_last());
        if docs.last().end_ms > before {
            docs.last().end_ms as nat
        } else {
            before
        }
    }
}

/// A passage with the clock reading of its start in front.
pub open spec fn passage_line(d: Document) -> Seq<char> {
    "["@ + clock(clock_seconds(d.start_ms as nat)) + "] "@ + d.content@
}

pub open spec fn passage_lines(docs: Seq<Document>) -> Seq<Seq<char>> {
    Seq::new(docs.len(), |i: int| passage_line(docs[i]))
}

/// What the transcript tool answers for a media that has passages.
pub open spec fn transcript_report(docs: Seq<Document>) -> Seq<char> {
    let sorted = in_chunk_order(docs);
    "# "@ + sorted[0].video_title@ + "\n\nDuration: "@ + decimal(
        rounded_seconds(latest_end(sorted)),
    ) + " seconds\n\n"@ + join(passage_lines(sorted), "\n\n"@)
}

/// Holds of the passages that share time with `[start, end)`.
pub open spec fn shares_time(start: u64, end: u64) -> spec_fn(Document) -> bool {
    |d: Document| d.start_ms < end && d.end_ms > start
}

/// A passage with the clock readings of its start and end in front.
pub open spec fn span_line(d: Document) -> Seq<char> {
    "["@ + clock(clock_seconds(d.start_ms as nat)) + " - "@ + clock(
        clock_seconds(d.end_ms as nat),
    ) + "] "@ + d.content@
}

pub open spec fn span_lines(docs: Seq<Document>) -> Seq<Seq<char>> {
    Seq::new(docs.len(), |i: int| span_line(docs[i]))
}

/// What the segment tool answers for a media that has passages.
pub open spec fn segment_report(docs: Seq<Document>, start: u64, end: u64) -> Seq<char> {
    let matching = docs.filter(shares_time(start, end));
    if matching.len() == 0 {
        "No content found between "@ + seconds_text(start as nat) + " and "@ + seconds_text(
            end as nat,
        ) + " seconds."@
    } else {
        join(span_lines(matching), "\n\n"@)
    }
}

/// One indexed media as a list item.
pub open spec fn video_item(v: IndexedVideo) -> Seq<char> {
    "- "@ + v.video_title@ + " (ID: "@ + v.video_id@ + ", "@ + decimal(v.chunk_count as nat)
        + " chunks, "@ + decimal(rounded_seconds(v.total_duration_ms as nat)) + "s)"@
}

pub open spec fn video_items(videos: Seq<IndexedVideo>) -> Seq<Seq<char>> {
    Seq::new(videos.len(), |i: int| video_item(videos[i]))
}

/// What the listing tool answers.
pub open spec fn videos_report(videos: Seq<IndexedVideo>) -> Seq<char> {
    if videos.len() == 0 {
        "No videos indexed yet."@
    } else {
        "Indexed videos ("@ + decimal(videos.len()) + "):\n\n"@ + join(video_items(videos), "\n"@)
    }
}

/// The time of indexing as it is shown: the calendar's text, or `unknown`
/// where the calendar does not reach.
pub open spec fn indexed_text(micros: i64) -> Seq<char> {
    match instant_text(micros) {
        Some(t) => t,
        None => "unknown"@,
    }
}

/// What the information tool answers for a media that the index knows.
pub open spec fn video_report(v: IndexedVideo) -> Seq<char> {
    "Video: "@ + v.video_title@ + "\nID: "@ + v.video_id@ + "\nChunks: "@ + decimal(
        v.chunk_count as nat,
    ) + "\nDuration: "@ + decimal(rounded_seconds(v.total_duration_ms as nat)) + " seconds\nIndexed: "@
        + indexed_text(v.indexed_at)
}

/// The tools' answers, written out from what the index returned.
pub struct ToolContext {}

impl ToolContext {
    pub fn new() -> (c: ToolContext) {
        ToolContext {  }
    }

    /// The answer of the search tool for the results that the index ranked.
    pub fn execute_search(results: &Vec<SearchResult>) -> (out: String)
        ensures
            out@ == search_report(results@),
    {
        if results.len() == 0 {
            return from_chars(&to_chars("No relevant results found."));
        }
        let mut entries: Vec<Vec<char>> = Vec::new();
        let mut i: usize = 0;
        while i < results.len()
            invariant
                i <= results.len(),
                views(entries@) == search_entries(results@).take(i as int),
            decreases results.len() - i,
        {
            let r = &results[i];
            let mut e: Vec<char> = Vec::new();
            push_decimal(&mut e, (i + 1) as u64);
            append_str(&mut e, ". [");
            append_str(&mut e, r.document.video_id.as_str());
            append_str(&mut e, "] ");
            append_str(&mut e, r.document.video_title.as_str());
            append_str(&mut e, " @ ");
            push_clock(&mut e, r.document.start_ms);
            append_str(&mut e, "\n   ");
            let content = to_chars(r.document.content.as_str());
            let shown = take_chars(&content, PREVIEW_CHARS);
            append_chars(&mut e, &shown);
            assert(e@ == search_entry(i as int, *r));
            proof {
                lemma_views_push(entries@, e);
                assert(search_entries(results@).take(i + 1) == search_entries(results@).take(
                    i as int,
                ).push(search_entry(i as int, *r)));
            }
            entries.push(e);
            i = i + 1;
        }
        assert(search_entries(results@).take(results.len() as int) == search_entries(results@));
        let mut out: Vec<char> = Vec::new();
        append_str(&mut out, "Found ");
        push_decimal(&mut out, results.len() as u64);
        append_str(&mut out, " results:\n\n");
        let body = join_chars(&entries, &to_chars("\n\n"));
        append_chars(&mut out, &body);
        from_chars(&out)
    }

    /// The answer of the transcript tool for the passages of a media: the
    /// passages in their order, under the title of the first and the latest end
    /// in whole seconds. A media without passages is not found.
    pub fn execute_get_transcript(video_id: &str, documents: Vec<Document>) -> (r: Result<
        String,
        LyttError,
    >)
        ensures
            documents@.len() == 0 ==> (r matches Err(LyttError::VideoNotFound(id)) && id@
                == video_id@),
            documents@.len() > 0 ==> (r matches Ok(out) && out@ == transcript_report(documents@)),
    {
        if documents.len() == 0 {
            return Err(LyttError::VideoNotFound(from_chars(&to_chars(video_id))));
        }
        let mut sorted = documents;
        let mut keys: Vec<i128> = Vec::new();
        let mut k: usize = 0;
        while k < sorted.len()
            invariant
                k <= sorted.len(),
                keys@ == chunk_order_keys(sorted@).take(k as int),
            decreases sorted.len() - k,
        {
            let key: i128 = sorted[k].chunk_order as i128;
            keys.push(key);
            assert(chunk_order_keys(sorted@).take(k + 1) == chunk_order_keys(sorted@).take(
                k as int,
            ).push(key));
            k = k + 1;
        }
        assert(chunk_order_keys(sorted@).take(sorted.len() as int) == chunk_order_keys(sorted@));
        sort_by_keys(&mut sorted, &mut keys);
        let mut lines: Vec<Vec<char>> = Vec::new();
        let mut end: u64 = 0;
        let mut i: usize = 0;
        assert(sorted@.take(0) == Seq::<Document>::empty());
        while i < sorted.len()
            invariant
                i <= sorted.len(),
                views(lines@) == passage_lines(sorted@).take(i as int),
                end == latest_end(sorted@.take(i as int)),
            decreases sorted.len() - i,
        {
            let d = &sorted[i];
            assert(sorted@.take(i + 1).drop_last() == sorted@.take(i as int));
            assert(sorted@.take(i + 1).last() == *d);
            if d.end_ms > end {
                end = d.end_ms;
            }
            let mut line: Vec<char> = Vec::new();
            append_str(&mut line, "[");
            push_clock(&mut line, d.start_ms);
            append_str(&mut line, "] ");
            append_str(&mut line, d.content.as_str());
            assert(line@ == passage_line(*d));
            proof {
                lemma_views_push(lines@, line);
                assert(passage_lines(sorted@).take(i + 1) == passage_lines(sorted@).take(
                    i as int,
                ).push(passage_line(*d)));
            }
            lines.push(line);
            i = i + 1;
        }
        assert(sorted@.take(sorted.len() as int) == sorted@);
        assert(passage_lines(sorted@).take(sorted.len() as int) == passage_lines(sorted@));
        let mut out: Vec<char> = Vec::new();
        append_str(&mut out, "# ");
        append_str(&mut out, sorted[0].video_title.as_str());
        append_str(&mut out, "\n\nDuration: ");
        push_decimal(&mut out, round_seconds(end));
        append_str(&mut out, " seconds\n\n");
        let body = join_chars(&lines, &to_chars("\n\n"));
        append_chars(&mut out, &body);
        Ok(from_chars(&out))
    }

    /// The answer of the segment tool: the passages that share time with
    /// `[start_ms, end_ms)`, in the order given. A media without passages is not
    /// found.
    pub fn execute_get_segment(
        video_id: &str,
        documents: &Vec<Document>,
        start_ms: u64,
        end_ms: u64,
    ) -> (r: Result<String, LyttError>)
        ensures
            documents@.len() == 0 ==> (r matches Err(LyttError::VideoNotFound(id)) && id@
                == video_id@),
            documents@.len() > 0 ==> (r matches Ok(out) && out@ == segment_report(
                documents@,
                start_ms,
                end_ms,
            )),
    {
        if documents.len() == 0 {
            return Err(LyttError::VideoNotFound(from_chars(&to_chars(video_id))));
        }
        let ghost keep = shares_time(start_ms, end_ms);
        let mut lines: Vec<Vec<char>> = Vec::new();
        let mut i: usize = 0;
        proof {
            lemma_filter_empty(documents@.take(0), keep);
        }
        while i < documents.len()
            invariant
                i <= documents.len(),
                keep == shares_time(start_ms, end_ms),
                views(lines@) == span_lines(documents@.take(i as int).filter(keep)),
            decreases documents.len() - i,
        {
            let d = &documents[i];
            proof {
                lemma_filter_next(documents@, keep, i as int);
            }
            if d.start_ms < end_ms && d.end_ms > start_ms {
                let mut line: Vec<char> = Vec::new();
                append_str(&mut line, "[");
                push_clock(&mut line, d.start_ms);
                append_str(&mut line, " - ");
                push_clock(&mut line, d.end_ms);
                append_str(&mut line, "] ");
                append_str(&mut line, d.content.as_str());
                assert(line@ == span_line(*d));
                proof {
                    lemma_views_push(lines@, line);
                    let before = documents@.take(i as int).filter(keep);
                    assert(span_lines(before.push(*d)) == span_lines(before).push(span_line(*d)));
                }
                lines.push(line);
            }
            i = i + 1;
        }
        assert(documents@.take(documents.len() as int) == documents@);
        if lines.len() == 0 {
            let mut out: Vec<char> = Vec::new();
            append_str(&mut out, "No content found between ");
            push_seconds(&mut out, start_ms);
            append_str(&mut out, " and ");
            push_seconds(&mut out, end_ms);
            append_str(&mut out, " seconds.");
            return Ok(from_chars(&out));
        }
        Ok(from_chars(&join_chars(&lines, &to_chars("\n\n"))))
    }

    /// The answer of the listing tool for the media that the index knows.
    pub fn execute_list_videos(videos: &Vec<IndexedVideo>) -> (out: String)
        ensures
            out@ == videos_report(videos@),
    {
        if videos.len() == 0 {
            return from_chars(&to_chars("No videos indexed yet."));
        }
        let mut items: Vec<Vec<char>> = Vec::new();
        let mut i: usize = 0;
        while i < videos.len()
            invariant
                i <= videos.len(),
                views(items@) == video_items(videos@).take(i as int),
            decreases videos.len() - i,
        {
            let v = &videos[i];
            let mut item: Vec<char> = Vec::new();
            append_str(&mut item, "- ");
            append_str(&mut item, v.video_title.as_str());
            append_str(&mut item, " (ID: ");
            append_str(&mut item, v.video_id.as_str());
            append_str(&mut item, ", ");
            push_decimal(&mut item, v.chunk_count as u64);
            append_str(&mut item, " chunks, ");
            push_decimal(&mut item, round_seconds(v.total_duration_ms));
            append_str(&mut item, "s)");
            assert(item@ == video_item(*v));
            proof {
                lemma_views_push(items@, item);
                assert(video_items(videos@).take(i + 1) == video_items(videos@).take(
                    i as int,
                ).push(video_item(*v)));
            }
            items.push(item);
            i = i + 1;
        }
        assert(video_items(videos@).take(videos.len() as int) == video_items(videos@));
        let mut out: Vec<char> = Vec::new();
        append_str(&mut out, "Indexed videos (");
        push_decimal(&mut out, videos.len() as u64);
        append_str(&mut out, "):\n\n");
        let body = join_chars(&items, &to_chars("\n"));
        append_chars(&mut out, &body);
        from_chars(&out)
    }

    /// The answer of the information tool. A media that the index does not know
    /// is not found.
    pub fn execute_get_video_info(video_id: &str, video: Option<&IndexedVideo>) -> (r: Result<
        String,
        LyttError,
    >)
        ensures
            video is None ==> (r matches Err(LyttError::VideoNotFound(id)) && id@ == video_id@),
            video matches Some(v) ==> (r matches Ok(out) && out@ == video_report(*v)),
    {
        let v = match video {
            Some(v) => v,
            None => {
                return Err(LyttError::VideoNotFound(from_chars(&to_chars(video_id))));
            },
        };
        let mut out: Vec<char> = Vec::new();
        append_str(&mut out, "Video: ");
        append_str(&mut out, v.video_title.as_str());
        append_str(&mut out, "\nID: ");
        append_str(&mut out, v.video_id.as_str());
        append_str(&mut out, "\nChunks: ");
        push_decimal(&mut out, v.chunk_count as u64);
        append_str(&mut out, "\nDuration: ");
        push_decimal(&mut out, round_seconds(v.total_duration_ms));
        append_str(&mut out, " seconds\nIndexed: ");
        match format_instant(v.indexed_at) {
            Some(t) => {
                append_str(&mut out, t.as_str());
            },
            None => {
                append_str(&mut out, "unknown");
            },
        }
        Ok(from_chars(&out))
    }
}

/// The tools by name, each with the names and kinds of its arguments and
/// whether they are required.
pub open spec fn agent_tool_table() -> Seq<(Seq<char>, Seq<(Seq<char>, ParamKind, bool)>)> {
    seq![
        ("search"@, seq![("query"@, ParamKind::Text, true), ("limit"@, ParamKind::Integer, false)]),
        ("get_transcript"@, seq![("video_id"@, ParamKind::Text, true)]),
        ("get_segment"@, seq![("video_id"@, ParamKind::Text, true), ("start_seconds"@, ParamKind::Number, true), ("end_seconds"@, ParamKind::Number, true)]),
        ("list_videos"@, Seq::<(Seq<char>, ParamKind, bool)>::empty()),
        ("get_video_info"@, seq![("video_id"@, ParamKind::Text, true)]),
    ]
}

/// The tools that the assistant offers to the model.
pub fn tool_definitions() -> (tools: Vec<ToolSpec>)
    ensures
        outline(tools@) == agent_tool_table(),
{
    let mut tools: Vec<ToolSpec> = Vec::new();
    {
        let mut parameters: Vec<ParamSpec> = Vec::new();
        parameters.push(ParamSpec::required("query", ParamKind::Text, "The search query"));
        parameters.push(
            ParamSpec::optional("limit", ParamKind::Integer, "Maximum number of results (default: 5)", ParamDefault::Natural(5)),
        );
        let tool = ToolSpec {
            name: string_of("search"),
            description: string_of(
                "Search the video knowledge base for relevant content. Use this when you need to find specific information across all videos.",
            ),
            parameters,
            lists_required: false,
        };
        assert(signature(tool.parameters@) =~= agent_tool_table()[tools@.len() as int].1);
        tools.push(tool);
    }
    {
        let mut parameters: Vec<ParamSpec> = Vec::new();
        parameters.push(ParamSpec::required("video_id", ParamKind::Text, "The video ID"));
        let tool = ToolSpec {
            name: string_of("get_transcript"),
            description: string_of(
                "Get the full transcript of a video. Use this when you need complete context, like for summaries, quizzes, or comprehensive analysis.",
            ),
            parameters,
            lists_required: false,
        };
        assert(signature(tool.parameters@) =~= agent_tool_table()[tools@.len() as int].1);
        tools.push(tool);
    }
    {
        let mut parameters: Vec<ParamSpec> = Vec::new();
        parameters.push(ParamSpec::required("video_id", ParamKind::Text, "The video ID"));
        parameters.push(ParamSpec::required("start_seconds", ParamKind::Number, "Start time in seconds"));
        parameters.push(ParamSpec::required("end_seconds", ParamKind::Number, "End time in seconds"));
        let tool = ToolSpec {
            name: string_of("get_segment"),
            description: string_of(
                "Get a specific time range from a video transcript. Use this when you need content from a particular part of a video.",
            ),
            parameters,
            lists_required: false,
        };
        assert(signature(tool.parameters@) =~= agent_tool_table()[tools@.len() as int].1);
        tools.push(tool);
    }
    {
        let mut parameters: Vec<ParamSpec> = Vec::new();
        let tool = ToolSpec {
            name: string_of("list_videos"),
            description: string_of(
                "List all indexed videos in the knowledge base. Use this to see what content is available.",
            ),
            parameters,
            lists_required: false,
        };
        assert(signature(tool.parameters@) =~= agent_tool_table()[tools@.len() as int].1);
        tools.push(tool);
    }
    {
        let mut parameters: Vec<ParamSpec> = Vec::new();
        parameters.push(ParamSpec::required("video_id", ParamKind::Text, "The video ID"));
        let tool = ToolSpec {
            name: string_of("get_video_info"),
            description: string_of(
                "Get metadata about a specific video (title, duration, chunk count). Use this to get details about a particular video.",
            ),
            parameters,
            lists_required: false,
        };
        assert(signature(tool.parameters@) =~= agent_tool_table()[tools@.len() as int].1);
        tools.push(tool);
    }
    assert(outline(tools@) =~= agent_tool_table());
    tools
}

} // verus!
