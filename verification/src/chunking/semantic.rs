//! Passages by meaning: a model names the sections. Here stand what is
//! decided before the model is asked, and what is made of its answer.

use crate::chunking::temporal::{temporal_chunks, TemporalChunker};
use crate::chunking::{
    chunk_views, in_order, optional_view, whole_chunk, ChunkView, ChunkingConfig, ContentChunk,
};
use crate::config::prompts::{rendered, with_entries, Prompts, Variables};
use crate::decimal::{decimal, push_decimal};
use crate::error::LyttError;
use crate::json::{json_of_text, parse_json, Json, JsonValue};
use crate::text::{
    append_chars, append_str, find_char, first_index, from_chars, is_blank, is_blank_chars, join,
    last_index, lemma_index_bounds, rfind_char, string_of, sub_chars, take_chars, to_chars,
};
use crate::transcription::models::{
    lies_within, space, stamped_lines, texts_where, Transcript,
};
use vstd::prelude::*;

verus! {

/// The chunker that asks a model for the sections.
#[derive(Debug, Clone)]
pub struct SemanticChunker {
    pub model: String,
    pub prompts: Prompts,
}

/// A section as the model names it. Times are whole milliseconds.
#[derive(Debug, Clone)]
pub struct Section {
    pub title: String,
    pub start_ms: u64,
    pub end_ms: u64,
    pub summary: Option<String>,
}

/// What a `Section` holds.
pub struct SectionView {
    pub title: Seq<char>,
    pub start_ms: u64,
    pub end_ms: u64,
    pub summary: Option<Seq<char>>,
}

impl View for Section {
    type V = SectionView;

    open spec fn view(&self) -> SectionView {
        SectionView {
            title: self.title@,
            start_ms: self.start_ms,
            end_ms: self.end_ms,
            summary: optional_view(self.summary),
        }
    }
}

/// The views of sections, in order.
pub open spec fn section_views(sections: Seq<Section>) -> Seq<SectionView> {
    Seq::new(sections.len(), |i: int| sections[i]@)
}

/// What is to be done for a transcript before any model is asked.
#[derive(Debug)]
pub enum SemanticPlan {
    /// Nothing to ask: these are the passages.
    Done(Vec<ContentChunk>),
    /// Ask the model with these two messages.
    AskModel { system: String, user: String },
}

/// How much of an answer an error quotes.
pub const QUOTED_CHARS: usize = 500;

/// The part of an answer that is taken for JSON: from the first `[` to the
/// last `]` where the one stands before the other, else the whole answer.
pub open spec fn json_part(answer: Seq<char>) -> Seq<char> {
    match (first_index(answer, '['), last_index(answer, ']')) {
        (Some(i), Some(j)) => if j > i {
            answer.subrange(i, j + 1)
        } else {
            answer
        },
        _ => answer,
    }
}

/// The summary of a section: none where the member is missing or `null`, the
/// text where it is a string. Anything else is no summary at all.
pub open spec fn summary_of(item: JsonValue) -> Option<Option<Seq<char>>> {
    match item.field("summary"@) {
        None => Some(None),
        Some(JsonValue::Null) => Some(None),
        Some(JsonValue::Text(s)) => Some(Some(s)),
        Some(_) => None,
    }
}

/// The section that a JSON value describes: an object with a title, the two
/// times in seconds and, where it has one, a summary.
pub open spec fn section_of(item: JsonValue) -> Option<SectionView> {
    match (
        item.text_field("title"@),
        item.millis_field("start_seconds"@),
        item.millis_field("end_seconds"@),
        summary_of(item),
    ) {
        (Some(title), Some(start), Some(end), Some(summary)) => Some(
            SectionView { title, start_ms: start as u64, end_ms: end as u64, summary },
        ),
        _ => None,
    }
}

/// The sections that JSON values describe, where every one describes one.
pub open spec fn section_list(items: Seq<JsonValue>) -> Option<Seq<SectionView>>
    decreases items.len(),
{
    if items.len() == 0 {
        Some(Seq::<SectionView>::empty())
    } else {
        match (section_list(items.drop_last()), section_of(items.last())) {
            (Some(before), Some(last)) => Some(before.push(last)),
            _ => None,
        }
    }
}

/// The sections of an answer that is a JSON array of sections.
pub open spec fn sections_of(answer: JsonValue) -> Option<Seq<SectionView>> {
    match answer {
        JsonValue::Array(items) => section_list(items),
        _ => None,
    }
}

/// The sections that the text of an answer names.
pub open spec fn sections_in(answer: Seq<char>) -> Option<Seq<SectionView>> {
    match json_of_text(json_part(answer)) {
        Some(v) => sections_of(v),
        None => None,
    }
}

/// What the transcript says within a section.
pub open spec fn section_text(t: Transcript, s: SectionView) -> Seq<char> {
    join(texts_where(t.segments@, lies_within(s.start_ms, s.end_ms)), space())
}

/// The passages of the sections: a section in which nothing is said gives
/// none; a section shorter than `min_ms` is added to the passage before it,
/// where there is one, which keeps its title and summary; every other section
/// is a passage of its own. The passages are numbered from zero.
pub open spec fn built(sections: Seq<SectionView>, t: Transcript, min_ms: u64) -> Seq<ChunkView>
    decreases sections.len(),
{
    if sections.len() == 0 {
        Seq::<ChunkView>::empty()
    } else {
        let before = built(sections.drop_last(), t, min_ms);
        let s = sections.last();
        let content = section_text(t, s);
        if is_blank(content) {
            before
        } else if s.end_ms - s.start_ms < min_ms && before.len() > 0 {
            before.drop_last().push(
                ChunkView {
                    content: before.last().content + space() + content,
                    end_ms: s.end_ms,
                    ..before.last()
                },
            )
        } else {
            before.push(
                ChunkView {
                    title: Some(s.title),
                    content,
                    start_ms: s.start_ms,
                    end_ms: s.end_ms,
                    order: before.len(),
                    summary: s.summary,
                },
            )
        }
    }
}

/// The passages of a transcript, given the sections that were read from the
/// answer of the model: the passages of the sections, or, where none could be
/// read, the passages by the clock.
pub open spec fn semantic_chunks(
    t: Transcript,
    config: ChunkingConfig,
    sections: Option<Seq<SectionView>>,
) -> Seq<ChunkView> {
    match sections {
        Some(s) => built(s, t, (config.min_duration * 1000) as u64),
        None => temporal_chunks(t, config),
    }
}

/// What the model is told of a transcript.
pub open spec fn chunking_variables(t: Transcript, config: ChunkingConfig) -> Seq<
    (Seq<char>, Seq<char>),
> {
    seq![
        ("title"@, t.video_id@),
        ("transcript"@, join(stamped_lines(t.segments@), seq!['\n'])),
        ("target_duration"@, decimal(config.target_duration as nat)),
        ("min_duration"@, decimal(config.min_duration as nat)),
        ("max_duration"@, decimal(config.max_duration as nat)),
    ]
}

fn number_text(n: u32) -> (out: String)
    ensures
        out@ == decimal(n as nat),
{
    let mut buf: Vec<char> = Vec::new();
    push_decimal(&mut buf, n as u64);
    assert(Seq::<char>::empty() + decimal(n as nat) == decimal(n as nat));
    from_chars(&buf)
}

fn read_section(item: &Json) -> (r: Option<Section>)
    ensures
        r is Some <==> section_of(item@) is Some,
        r matches Some(s) ==> section_of(item@) == Some(s@),
{
    let title = match item.str_field("title") {
        Some(t) => t,
        None => {
            return None;
        },
    };
    let start_ms = match item.millis_field("start_seconds") {
        Some(v) => v,
        None => {
            return None;
        },
    };
    let end_ms = match item.millis_field("end_seconds") {
        Some(v) => v,
        None => {
            return None;
        },
    };
    let summary = match item.get("summary") {
        None => None,
        Some(v) => match v {
            Json::Null => None,
            Json::Text(s) => Some(s.clone()),
            _ => {
                return None;
            },
        },
    };
    Some(Section { title, start_ms, end_ms, summary })
}

proof fn lemma_section_list_fails(items: Seq<JsonValue>, i: int)
    requires
        0 <= i < items.len(),
        section_of(items[i]) is None,
    ensures
        section_list(items) is None,
    decreases items.len(),
{
    if i < items.len() - 1 {
        assert(items.drop_last()[i] == items[i]);
        lemma_section_list_fails(items.drop_last(), i);
    }
}

/// Reads the sections of an answer that is JSON already.
pub fn sections_from_json(answer: &Json) -> (r: Option<Vec<Section>>)
    ensures
        r is Some <==> sections_of(answer@) is Some,
        r matches Some(v) ==> sections_of(answer@) == Some(section_views(v@)),
{
    let items = match answer.as_array() {
        Some(a) => a,
        None => {
            return None;
        },
    };
    let ghost values = items@.map_values(|j: Json| j@);
    let mut out: Vec<Section> = Vec::new();
    let mut i: usize = 0;
    assert(values.take(0) == Seq::<JsonValue>::empty());
    assert(section_views(out@) == Seq::<SectionView>::empty());
    while i < items.len()
        invariant
            i <= items.len(),
            values == items@.map_values(|j: Json| j@),
            answer@ == JsonValue::Array(values),
            section_list(values.take(i as int)) == Some(section_views(out@)),
        decreases items.len() - i,
    {
        assert(values.take(i + 1).drop_last() == values.take(i as int));
        assert(values.take(i + 1).last() == items@[i as int]@);
        match read_section(&items[i]) {
            Some(s) => {
                let ghost prior = out@;
                out.push(s);
                assert(section_views(out@) =~= section_views(prior).push(s@));
            },
            None => {
                proof {
                    lemma_section_list_fails(values, i as int);
                }
                return None;
            },
        }
        i = i + 1;
    }
    assert(values.take(items.len() as int) == values);
    Some(out)
}

fn extract_json_part(answer: &Vec<char>) -> (out: Vec<char>)
    ensures
        out@ == json_part(answer@),
{
    proof {
        lemma_index_bounds(answer@, '[');
        lemma_index_bounds(answer@, ']');
    }
    match (find_char(answer, '['), rfind_char(answer, ']')) {
        (Some(i), Some(j)) => {
            if j > i {
                sub_chars(answer, i, j + 1)
            } else {
                let whole = sub_chars(answer, 0, answer.len());
                assert(answer@.subrange(0, answer.len() as int) == answer@);
                whole
            }
        },
        _ => {
            let whole = sub_chars(answer, 0, answer.len());
            assert(answer@.subrange(0, answer.len() as int) == answer@);
            whole
        },
    }
}

/// How an error about an answer that names no sections begins.
pub open spec fn unread_answer_opening() -> Seq<char> {
    "Failed to parse chunking response: "@
}

/// How an error about an answer ends: with the start of the answer.
pub open spec fn unread_answer_closing(answer: Seq<char>) -> Seq<char> {
    ". Response was: "@ + if answer.len() > QUOTED_CHARS {
        answer.take(QUOTED_CHARS as int)
    } else {
        answer
    }
}

impl SemanticChunker {
    /// A chunker on the default model with the default prompts.
    pub fn new() -> (c: SemanticChunker)
        ensures
            c.model@ == "gpt-4o-mini"@,
            c.prompts.is_default(),
    {
        SemanticChunker { model: string_of("gpt-4o-mini"), prompts: Prompts::default() }
    }

    /// A chunker on the given model with the default prompts.
    pub fn with_model(model: &str) -> (c: SemanticChunker)
        ensures
            c.model@ == model@,
            c.prompts.is_default(),
    {
        SemanticChunker { model: string_of(model), prompts: Prompts::default() }
    }

    /// The same chunker with other prompts.
    pub fn with_prompts(self, prompts: Prompts) -> (c: SemanticChunker)
        ensures
            c.model == self.model,
            c.prompts == prompts,
    {
        SemanticChunker { model: self.model, prompts }
    }

    /// Reads the sections that an answer of the model names. The answer may
    /// hold more than the array of sections. An answer that names none is a
    /// failure that quotes the start of the answer.
    pub fn parse_sections(response: &str) -> (r: Result<Vec<Section>, LyttError>)
        ensures
            match sections_in(response@) {
                Some(list) => r matches Ok(v) && section_views(v@) == list,
                None => r matches Err(LyttError::Transcription(m)) && exists|reason: Seq<char>|
                    m@ == unread_answer_opening() + reason + #[trigger] unread_answer_closing(
                        response@,
                    ),
            },
    {
        let chars = to_chars(response);
        let part = from_chars(&extract_json_part(&chars));
        let reason = match parse_json(part.as_str()) {
            Ok(answer) => match sections_from_json(&answer) {
                Some(sections) => {
                    return Ok(sections);
                },
                None => string_of("the response is no list of sections"),
            },
            Err(reason) => reason,
        };
        let mut m: Vec<char> = Vec::new();
        append_str(&mut m, "Failed to parse chunking response: ");
        append_str(&mut m, reason.as_str());
        let ghost head = m@;
        append_str(&mut m, ". Response was: ");
        let quoted = take_chars(&chars, QUOTED_CHARS);
        append_chars(&mut m, &quoted);
        assert(m@ == unread_answer_opening() + reason@ + unread_answer_closing(response@)) by {
            assert(m@ == (head + ". Response was: "@) + quoted@);
            assert((head + ". Response was: "@) + quoted@ == head + (". Response was: "@
                + quoted@));
        }
        Err(LyttError::Transcription(from_chars(&m)))
    }

    /// The passages of the sections that a model named.
    pub fn build_chunks(sections: &Vec<Section>, transcript: &Transcript, config: &ChunkingConfig) -> (out:
        Vec<ContentChunk>)
        ensures
            chunk_views(out@) == built(
                section_views(sections@),
                *transcript,
                (config.min_duration * 1000) as u64,
            ),
    {
        let min_ms: u64 = (config.min_duration as u64) * 1000;
        let ghost all = section_views(sections@);
        let mut out: Vec<ContentChunk> = Vec::new();
        let mut i: usize = 0;
        assert(all.take(0) == Seq::<SectionView>::empty());
        assert(chunk_views(out@) =~= Seq::<ChunkView>::empty());
        while i < sections.len()
            invariant
                i <= sections.len(),
                all == section_views(sections@),
                min_ms == config.min_duration * 1000,
                chunk_views(out@) == built(all.take(i as int), *transcript, min_ms),
            decreases sections.len() - i,
        {
            let s = &sections[i];
            assert(all.take(i + 1).drop_last() == all.take(i as int));
            assert(all.take(i + 1).last() == s@);
            let content = transcript.text_between(s.start_ms, s.end_ms);
            let content_chars = to_chars(content.as_str());
            if !is_blank_chars(&content_chars) {
                let short = s.end_ms < s.start_ms || s.end_ms - s.start_ms < min_ms;
                if short && out.len() > 0 {
                    let ghost prior = out@;
                    let last = out.pop().unwrap();
                    let mut merged = to_chars(last.content.as_str());
                    merged.push(' ');
                    append_chars(&mut merged, &content_chars);
                    assert(merged@ == last.content@ + space() + content@);
                    let longer = ContentChunk {
                        title: last.title,
                        content: from_chars(&merged),
                        start_ms: last.start_ms,
                        end_ms: s.end_ms,
                        order: last.order,
                        summary: last.summary,
                    };
                    out.push(longer);
                    assert(chunk_views(out@) =~= chunk_views(prior).drop_last().push(longer@));
                } else {
                    let ghost prior = out@;
                    let mut chunk = ContentChunk::new(
                        Some(s.title.clone()),
                        content,
                        s.start_ms,
                        s.end_ms,
                        out.len(),
                    );
                    chunk.summary = match &s.summary {
                        Some(t) => Some(t.clone()),
                        None => None,
                    };
                    out.push(chunk);
                    assert(chunk_views(out@) =~= chunk_views(prior).push(chunk@));
                }
            }
            i = i + 1;
        }
        assert(all.take(sections.len() as int) == all);
        out
    }

    /// Decides whether the model is asked: it is not for a transcript without
    /// segments, which has no passages, nor for one shorter than the least
    /// duration, which is one passage. For any other, the two messages are
    /// the chunking prompts with the transcript and the durations filled in.
    pub fn plan(&self, transcript: &Transcript, config: &ChunkingConfig) -> (p: SemanticPlan)
        ensures
            transcript.segments@.len() == 0 ==> (p matches SemanticPlan::Done(c) && c@.len() == 0),
            transcript.segments@.len() > 0 && transcript.duration_ms < config.min_duration * 1000
                ==> (p matches SemanticPlan::Done(c) && chunk_views(c@) == seq![
                whole_chunk(*transcript),
            ]),
            transcript.segments@.len() > 0 && transcript.duration_ms >= config.min_duration * 1000
                ==> (p matches SemanticPlan::AskModel { system, user } && system@ == rendered(
                self.prompts.chunking.system@,
                with_entries(self.prompts.variables@, chunking_variables(*transcript, *config)),
            ) && user@ == rendered(
                self.prompts.chunking.user@,
                with_entries(self.prompts.variables@, chunking_variables(*transcript, *config)),
            )),
    {
        if transcript.segments.len() == 0 {
            return SemanticPlan::Done(Vec::new());
        }
        if transcript.duration_ms < (config.min_duration as u64) * 1000 {
            let mut out: Vec<ContentChunk> = Vec::new();
            out.push(
                ContentChunk::new(None, transcript.full_text.clone(), 0, transcript.duration_ms, 0),
            );
            assert(chunk_views(out@) =~= seq![whole_chunk(*transcript)]);
            return SemanticPlan::Done(out);
        }
        let mut vars = Variables::new();
        proof {
            assert(vars@ =~= Seq::<(Seq<char>, Seq<char>)>::empty());
        }
        vars.entries.push((string_of("title"), transcript.video_id.clone()));
        vars.entries.push((string_of("transcript"), transcript.format_with_timestamps()));
        vars.entries.push((string_of("target_duration"), number_text(config.target_duration)));
        vars.entries.push((string_of("min_duration"), number_text(config.min_duration)));
        vars.entries.push((string_of("max_duration"), number_text(config.max_duration)));
        assert(vars@ =~= chunking_variables(*transcript, *config));
        let system = self.prompts.render_with_custom(self.prompts.chunking.system.as_str(), &vars);
        let user = self.prompts.render_with_custom(self.prompts.chunking.user.as_str(), &vars);
        SemanticPlan::AskModel { system, user }
    }

    /// The passages of a transcript, given the sections that were read from
    /// the answer of the model, if any were.
    pub fn chunks_from_sections(
        &self,
        sections: Option<Vec<Section>>,
        transcript: &Transcript,
        config: &ChunkingConfig,
    ) -> (out: Vec<ContentChunk>)
        ensures
            chunk_views(out@) == semantic_chunks(
                *transcript,
                *config,
                match sections {
                    Some(s) => Some(section_views(s@)),
                    None => None,
                },
            ),
    {
        match sections {
            Some(s) => Self::build_chunks(&s, transcript, config),
            None => TemporalChunker::new().chunk(transcript, config),
        }
    }

    /// The passages of a transcript, given the answer of the model: the
    /// passages of the sections that the answer names, or, where it names
    /// none, the passages by the clock.
    pub fn finish(&self, response: &str, transcript: &Transcript, config: &ChunkingConfig) -> (out:
        Vec<ContentChunk>)
        ensures
            chunk_views(out@) == semantic_chunks(*transcript, *config, sections_in(response@)),
    {
        let sections = match Self::parse_sections(response) {
            Ok(s) => Some(s),
            Err(_) => None,
        };
        self.chunks_from_sections(sections, transcript, config)
    }

    /// The error of a call to the model that failed.
    pub fn response_failed(reason: &str) -> (e: LyttError)
        ensures
            e matches LyttError::OpenAI(m) && m@ == "Failed to get chunking response: "@ + reason@,
    {
        let mut m: Vec<char> = Vec::new();
        append_str(&mut m, "Failed to get chunking response: ");
        append_str(&mut m, reason);
        LyttError::OpenAI(from_chars(&m))
    }

    /// The error of an answer without content.
    pub fn empty_response() -> (e: LyttError)
        ensures
            e matches LyttError::Transcription(m) && m@ == "Empty response from LLM"@,
    {
        LyttError::Transcription(string_of("Empty response from LLM"))
    }
}

/// Where the sections come in the order of their starts, their passages come
/// in the order of their starts and are numbered from zero without a gap.
pub proof fn lemma_built_in_order(sections: Seq<SectionView>, t: Transcript, min_ms: u64)
    requires
        forall|i: int, j: int|
            0 <= i <= j < sections.len() ==> (#[trigger] sections[i]).start_ms <= (
            #[trigger] sections[j]).start_ms,
    ensures
        in_order(built(sections, t, min_ms)),
        forall|k: int|
            0 <= k < built(sections, t, min_ms).len() ==> sections.len() > 0 && (#[trigger] built(
                sections,
                t,
                min_ms,
            )[k]).start_ms <= sections.last().start_ms,
    decreases sections.len(),
{
    if sections.len() > 0 {
        let shorter = sections.drop_last();
        assert forall|i: int, j: int| 0 <= i <= j < shorter.len() implies (
        #[trigger] shorter[i]).start_ms <= (#[trigger] shorter[j]).start_ms by {
            assert(shorter[i] == sections[i]);
            assert(shorter[j] == sections[j]);
        }
        lemma_built_in_order(shorter, t, min_ms);
        let before = built(shorter, t, min_ms);
        let all = built(sections, t, min_ms);
        if shorter.len() > 0 {
            assert(shorter.last() == sections[sections.len() - 2]);
            assert(sections[sections.len() - 2].start_ms <= sections[sections.len() - 1].start_ms);
        }
        assert forall|k: int| 0 <= k < all.len() implies (#[trigger] all[k]).start_ms
            <= sections.last().start_ms && all[k].order == k by {
            if k < before.len() {
                assert(before[k].start_ms <= shorter.last().start_ms);
                assert(all[k].start_ms == before[k].start_ms);
            }
        }
        assert forall|i: int, j: int| 0 <= i <= j < all.len() implies (#[trigger] all[i]).start_ms
            <= (#[trigger] all[j]).start_ms by {
            if j < before.len() {
                assert(all[i].start_ms == before[i].start_ms);
                assert(all[j].start_ms == before[j].start_ms);
            } else if i < before.len() {
                assert(all[i].start_ms == before[i].start_ms);
                assert(before[i].start_ms <= shorter.last().start_ms);
            }
        }
    }
}

} // verus!
