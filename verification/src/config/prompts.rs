//! The prompts that the models are given, and how a template is filled in.

use crate::text::{append_str, from_chars, replace, replace_chars, str_eq, to_chars};
use vstd::prelude::*;

verus! {

pub const CHUNK_SYS: &'static str = "You are a video content analyst. Your task is to analyze transcripts and identify logical content sections while filtering out filler content.\n\nWhen analyzing a transcript:\n1. Look for natural topic transitions and subject changes\n2. Group related discussions together\n3. Identify distinct segments that cover specific topics\n4. Consider speaker context if apparent from the content\n\nIMPORTANT - Filter out these types of content from chunk boundaries:\n- Subscription/like/notification requests (\"please subscribe\", \"hit the bell\", \"smash that like button\")\n- Generic introductions (\"Hi everyone\", \"Welcome back\", \"Hey guys\")\n- Channel/creator self-promotion (\"Check out my other videos\", \"Link in description\")\n- Outros and sign-offs (\"Thanks for watching\", \"See you next time\")\n- Sponsor segments and ad reads\n- Patreon/membership plugs\n\nThe goal is to have chunks that contain only the substantive educational or informational content.\n\nOutput your analysis as a JSON array of sections.";

pub const CHUNK_USER: &'static str = "Analyze this video transcript and identify logical content sections.\n\nVideo Title: {{title}}\n\nTranscript:\n{{transcript}}\n\nFor each section, provide:\n- \"title\": A brief descriptive title (3-8 words) summarizing the actual content\n- \"start_seconds\": Start timestamp in seconds (skip past any intro fluff)\n- \"end_seconds\": End timestamp in seconds (stop before any outro fluff)\n- \"summary\": One sentence describing the substantive content\n\nTarget section length: {{target_duration}} seconds (minimum {{min_duration}}, maximum {{max_duration}})\n\nRules:\n1. Do NOT include subscription requests, intros like \"welcome back\", or outros in any chunk\n2. If a chunk would start with filler, move start_seconds forward to skip it\n3. If a chunk would end with filler, move end_seconds backward to exclude it\n4. Section titles should reflect the actual topic, not \"Introduction\" unless it's truly introducing the topic\n\nRespond with a JSON array of section objects. Example:\n[\n  {\"title\": \"Binary Number Representation\", \"start_seconds\": 45, \"end_seconds\": 220, \"summary\": \"Explains how binary numbers work and their relationship to decimal.\"},\n  {\"title\": \"Bitwise Operations\", \"start_seconds\": 220, \"end_seconds\": 450, \"summary\": \"Covers AND, OR, XOR and shift operations with examples.\"}\n]";

pub const RAG_SYS: &'static str = "You are a helpful assistant that answers questions based on video content from the user's knowledge base.\n\nGuidelines:\n- Answer questions using only the provided context from video transcripts\n- Always cite your sources with video titles and timestamps\n- Use the format [Video Title @ MM:SS] for citations\n- If the context doesn't contain relevant information, say so clearly\n- Be concise but thorough in your responses\n- When multiple sources are relevant, synthesize information across them";

pub const RAG_USER: &'static str = "Question: {{question}}\n\n{{#if user_context}}\nAdditional context provided by user:\n{{user_context}}\n\n{{/if}}\nRelevant excerpts from your video knowledge base:\n\n{{#each chunks}}\n---\nSource: {{this.video_title}} @ {{this.timestamp}}\n{{this.content}}\n---\n\n{{/each}}\nPlease answer the question based on the above context.";

pub const RAG_CHAT: &'static str = "You are a helpful assistant for exploring video content. You have access to transcripts from the user's video library.\n\nIn this conversation:\n- Answer questions using the video context provided\n- Remember previous questions in the conversation for follow-ups\n- Cite sources with [Video Title @ MM:SS] format\n- Ask clarifying questions if the user's intent is unclear\n- If asked about something not in the videos, say so honestly";

pub const CLEANUP_SYS: &'static str = "You are a transcription cleanup and fusion expert. You process word-level timestamps from Whisper, optionally combined with text from a secondary transcription model.\n\n## Input\n- Word timestamps from Whisper (JSON array with word, start, end)\n- Text transcription (from secondary model, or reconstructed from Whisper words)\n\n## Output\nJSON object with \"segments\" array. Each segment has:\n- \"text\": The cleaned transcribed text for this segment\n- \"start_seconds\": Start time (from Whisper word timestamps)\n- \"end_seconds\": End time (from Whisper word timestamps)\n\n## Rules\n- Use Whisper word timestamps to determine when each segment starts and ends\n- Group words into natural segments (sentences or phrases, typically 5-15 seconds each)\n- If two transcripts are provided, compare them - neither is always correct\n- For names, places, and technical terms: pick what makes sense in context\n- Never hallucinate content not present in the transcript(s)\n- Output segments should cover the full duration of the audio\n- Ensure proper punctuation and capitalization in sentences\n- Segments must not overlap\n- Fix obvious transcription errors (e.g., \"there\" vs \"their\" based on context)";

/// Named texts that templates may refer to. A name occurs once.
#[derive(Debug, Clone)]
pub struct Variables {
    pub entries: Vec<(String, String)>,
}

/// The prompts for finding the sections of a transcript.
#[derive(Debug, Clone)]
pub struct ChunkingPrompts {
    pub system: String,
    pub user: String,
}

/// The prompts for answering from passages.
#[derive(Debug, Clone)]
pub struct RagPrompts {
    pub system: String,
    pub user: String,
    pub chat_system: String,
}

/// The prompt for cleaning up a transcription.
#[derive(Debug, Clone)]
pub struct CleanupPrompts {
    pub system: String,
}

/// All prompts, with the variables that every template may refer to.
#[derive(Debug, Clone)]
pub struct Prompts {
    pub chunking: ChunkingPrompts,
    pub rag: RagPrompts,
    pub cleanup: CleanupPrompts,
    pub variables: Variables,
}

/// The names and texts, in order.
pub open spec fn entry_views(entries: Seq<(String, String)>) -> Seq<(Seq<char>, Seq<char>)> {
    Seq::new(entries.len(), |i: int| (entries[i].0@, entries[i].1@))
}

/// Where `key` stands among the entries, if it does.
pub open spec fn position_of(entries: Seq<(Seq<char>, Seq<char>)>, key: Seq<char>) -> Option<
    int,
>
    decreases entries.len(),
{
    if entries.len() == 0 {
        None
    } else {
        match position_of(entries.drop_last(), key) {
            Some(i) => Some(i),
            None => if entries.last().0 == key {
                Some(entries.len() - 1)
            } else {
                None
            },
        }
    }
}

/// The entries with `key` set to `value`: in the place of `key` where it has
/// one, at the end where it has none.
pub open spec fn with_entry(
    entries: Seq<(Seq<char>, Seq<char>)>,
    key: Seq<char>,
    value: Seq<char>,
) -> Seq<(Seq<char>, Seq<char>)> {
    match position_of(entries, key) {
        Some(i) => entries.update(i, (key, value)),
        None => entries.push((key, value)),
    }
}

/// The entries with each of `more` set, in order.
pub open spec fn with_entries(
    entries: Seq<(Seq<char>, Seq<char>)>,
    more: Seq<(Seq<char>, Seq<char>)>,
) -> Seq<(Seq<char>, Seq<char>)>
    decreases more.len(),
{
    if more.len() == 0 {
        entries
    } else {
        with_entry(with_entries(entries, more.drop_last()), more.last().0, more.last().1)
    }
}

/// How a template refers to the variable `key`.
pub open spec fn placeholder(key: Seq<char>) -> Seq<char> {
    seq!['{', '{'] + key + seq!['}', '}']
}

/// The template with the placeholders of the entries replaced by their
/// texts, one entry after the other.
pub open spec fn rendered(template: Seq<char>, entries: Seq<(Seq<char>, Seq<char>)>) -> Seq<
    char,
>
    decreases entries.len(),
{
    if entries.len() == 0 {
        template
    } else {
        replace(
            rendered(template, entries.drop_last()),
            placeholder(entries.last().0),
            entries.last().1,
        )
    }
}

proof fn lemma_position_bounds(entries: Seq<(Seq<char>, Seq<char>)>, key: Seq<char>)
    ensures
        position_of(entries, key) matches Some(i) ==> 0 <= i < entries.len() && entries[i].0
            == key,
        position_of(entries, key) is None ==> forall|i: int|
            0 <= i < entries.len() ==> (#[trigger] entries[i]).0 != key,
    decreases entries.len(),
{
    if entries.len() > 0 {
        lemma_position_bounds(entries.drop_last(), key);
        if position_of(entries.drop_last(), key) is None {
            assert forall|i: int| 0 <= i < entries.len() - 1 implies (#[trigger] entries[i]).0
                != key by {
                assert(entries.drop_last()[i] == entries[i]);
            }
        }
    }
}

impl Variables {
    /// What the variables hold.
    pub open spec fn view(&self) -> Seq<(Seq<char>, Seq<char>)> {
        entry_views(self.entries@)
    }

    /// No variables.
    pub fn new() -> (v: Variables)
        ensures
            v@.len() == 0,
    {
        Variables { entries: Vec::new() }
    }

    /// How many variables there are.
    pub fn len(&self) -> (n: usize)
        ensures
            n == self@.len(),
    {
        self.entries.len()
    }

    /// Sets `key` to `value`.
    pub fn insert(&mut self, key: String, value: String)
        ensures
            final(self)@ == with_entry(old(self)@, key@, value@),
    {
        let mut i: usize = 0;
        assert(self@.take(0) == Seq::<(Seq<char>, Seq<char>)>::empty());
        while i < self.entries.len()
            invariant
                i <= self.entries.len(),
                self.entries == old(self).entries,
                position_of(self@.take(i as int), key@) is None,
            decreases self.entries.len() - i,
        {
            assert(self@.take(i + 1).drop_last() == self@.take(i as int));
            assert(self@.take(i + 1).last() == self@[i as int]);
            if str_eq(self.entries[i].0.as_str(), key.as_str()) {
                proof {
                    lemma_found_here(self@, key@, i as int);
                }
                self.entries.set(i, (key, value));
                assert(self@ =~= old(self)@.update(i as int, (key@, value@)));
                return ;
            }
            i = i + 1;
        }
        assert(self@.take(self.entries.len() as int) == self@);
        self.entries.push((key, value));
        assert(self@ =~= old(self)@.push((key@, value@)));
    }

    /// A copy that holds the same.
    pub fn duplicate(&self) -> (v: Variables)
        ensures
            v@ == self@,
    {
        let mut entries: Vec<(String, String)> = Vec::new();
        let mut i: usize = 0;
        while i < self.entries.len()
            invariant
                i <= self.entries.len(),
                entry_views(entries@) == self@.take(i as int),
            decreases self.entries.len() - i,
        {
            let pair = (self.entries[i].0.clone(), self.entries[i].1.clone());
            let ghost before = entries@;
            entries.push(pair);
            assert(entry_views(entries@) =~= entry_views(before).push((pair.0@, pair.1@)));
            assert(self@.take(i + 1) =~= self@.take(i as int).push(self@[i as int]));
            i = i + 1;
        }
        assert(self@.take(self.entries.len() as int) == self@);
        Variables { entries }
    }
}

proof fn lemma_found_here(entries: Seq<(Seq<char>, Seq<char>)>, key: Seq<char>, i: int)
    requires
        0 <= i < entries.len(),
        position_of(entries.take(i), key) is None,
        entries[i].0 == key,
    ensures
        position_of(entries, key) == Some(i),
    decreases entries.len() - i,
{
    assert(entries.take(i + 1).drop_last() == entries.take(i));
    assert(entries.take(i + 1).last() == entries[i]);
    assert(position_of(entries.take(i + 1), key) == Some(i));
    lemma_found_stays(entries, key, i, i + 1);
}

proof fn lemma_found_stays(entries: Seq<(Seq<char>, Seq<char>)>, key: Seq<char>, i: int, n: int)
    requires
        0 <= i < n <= entries.len(),
        position_of(entries.take(n), key) == Some(i),
    ensures
        position_of(entries, key) == Some(i),
    decreases entries.len() - n,
{
    if n < entries.len() {
        assert(entries.take(n + 1).drop_last() == entries.take(n));
        lemma_found_stays(entries, key, i, n + 1);
    } else {
        assert(entries.take(n) == entries);
    }
}

impl Default for ChunkingPrompts {
    fn default() -> (p: ChunkingPrompts)
        ensures
            p.system@ == CHUNK_SYS@,
            p.user@ == CHUNK_USER@,
    {
        ChunkingPrompts {
            system: from_chars(&to_chars(CHUNK_SYS)),
            user: from_chars(&to_chars(CHUNK_USER)),
        }
    }
}

impl Default for RagPrompts {
    fn default() -> (p: RagPrompts)
        ensures
            p.system@ == RAG_SYS@,
            p.user@ == RAG_USER@,
            p.chat_system@ == RAG_CHAT@,
    {
        RagPrompts {
            system: from_chars(&to_chars(RAG_SYS)),
            user: from_chars(&to_chars(RAG_USER)),
            chat_system: from_chars(&to_chars(RAG_CHAT)),
        }
    }
}

impl Default for CleanupPrompts {
    fn default() -> (p: CleanupPrompts)
        ensures
            p.system@ == CLEANUP_SYS@,
    {
        CleanupPrompts { system: from_chars(&to_chars(CLEANUP_SYS)) }
    }
}

impl Default for Prompts {
    fn default() -> (p: Prompts)
        ensures
            p.chunking.system@ == CHUNK_SYS@,
            p.chunking.user@ == CHUNK_USER@,
            p.rag.system@ == RAG_SYS@,
            p.rag.user@ == RAG_USER@,
            p.rag.chat_system@ == RAG_CHAT@,
            p.cleanup.system@ == CLEANUP_SYS@,
            p.variables@.len() == 0,
    {
        Prompts {
            chunking: ChunkingPrompts::default(),
            rag: RagPrompts::default(),
            cleanup: CleanupPrompts::default(),
            variables: Variables::new(),
        }
    }
}

impl Prompts {
    /// Whether these are the prompts that come with the library, with no
    /// variables of the user's.
    pub open spec fn is_default(&self) -> bool {
        &&& self.chunking.system@ == CHUNK_SYS@
        &&& self.chunking.user@ == CHUNK_USER@
        &&& self.rag.system@ == RAG_SYS@
        &&& self.rag.user@ == RAG_USER@
        &&& self.rag.chat_system@ == RAG_CHAT@
        &&& self.cleanup.system@ == CLEANUP_SYS@
        &&& self.variables@.len() == 0
    }

    /// Fills in a template: for each variable in order, every `{{name}}` becomes
    /// the variable's text.
    pub fn render(template: &str, vars: &Variables) -> (out: String)
        ensures
            out@ == rendered(template@, vars@),
    {
        let mut result = to_chars(template);
        let mut i: usize = 0;
        assert(vars@.take(0) == Seq::<(Seq<char>, Seq<char>)>::empty());
        while i < vars.entries.len()
            invariant
                i <= vars.entries.len(),
                result@ == rendered(template@, vars@.take(i as int)),
            decreases vars.entries.len() - i,
        {
            let mut pattern: Vec<char> = Vec::new();
            pattern.push('{');
            pattern.push('{');
            append_str(&mut pattern, vars.entries[i].0.as_str());
            pattern.push('}');
            pattern.push('}');
            assert(pattern@ == placeholder(vars@[i as int].0));
            let value = to_chars(vars.entries[i].1.as_str());
            result = replace_chars(&result, &pattern, &value);
            assert(vars@.take(i + 1).drop_last() == vars@.take(i as int));
            assert(vars@.take(i + 1).last() == vars@[i as int]);
            i = i + 1;
        }
        assert(vars@.take(vars.entries.len() as int) == vars@);
        from_chars(&result)
    }

    /// Fills in a template with the variables of these prompts and the given
    /// ones; a given variable goes before one of the same name.
    pub fn render_with_custom(&self, template: &str, vars: &Variables) -> (out: String)
        ensures
            out@ == rendered(template@, with_entries(self.variables@, vars@)),
    {
        let mut merged = self.variables.duplicate();
        let mut i: usize = 0;
        assert(vars@.take(0) == Seq::<(Seq<char>, Seq<char>)>::empty());
        while i < vars.entries.len()
            invariant
                i <= vars.entries.len(),
                merged@ == with_entries(self.variables@, vars@.take(i as int)),
            decreases vars.entries.len() - i,
        {
            merged.insert(vars.entries[i].0.clone(), vars.entries[i].1.clone());
            assert(vars@.take(i + 1).drop_last() == vars@.take(i as int));
            assert(vars@.take(i + 1).last() == vars@[i as int]);
            i = i + 1;
        }
        assert(vars@.take(vars.entries.len() as int) == vars@);
        Self::render(template, &merged)
    }
}

/// Setting a variable leaves one entry of its name, with the text given.
pub proof fn lemma_with_entry(entries: Seq<(Seq<char>, Seq<char>)>, key: Seq<char>, value: Seq<char>)
    ensures
        position_of(with_entry(entries, key, value), key) matches Some(i) && with_entry(
            entries,
            key,
            value,
        )[i] == (key, value),
{
    lemma_position_bounds(entries, key);
    let after = with_entry(entries, key, value);
    match position_of(entries, key) {
        Some(i) => {
            assert forall|j: int| 0 <= j < i implies (#[trigger] after[j]).0 != key by {
                lemma_position_first(entries, key, j);
            }
            lemma_first_at(after, key, i);
        },
        None => {
            lemma_first_at(after, key, entries.len() as int);
        },
    }
}

proof fn lemma_position_first(entries: Seq<(Seq<char>, Seq<char>)>, key: Seq<char>, j: int)
    requires
        position_of(entries, key) matches Some(i) && 0 <= j < i,
    ensures
        entries[j].0 != key,
    decreases entries.len(),
{
    if entries.len() > 0 {
        lemma_position_bounds(entries.drop_last(), key);
        match position_of(entries.drop_last(), key) {
            Some(i) => {
                lemma_position_first(entries.drop_last(), key, j);
                assert(entries.drop_last()[j] == entries[j]);
            },
            None => {
                assert(entries.drop_last()[j] == entries[j]);
            },
        }
    }
}

proof fn lemma_first_at(entries: Seq<(Seq<char>, Seq<char>)>, key: Seq<char>, i: int)
    requires
        0 <= i < entries.len(),
        entries[i].0 == key,
        forall|j: int| 0 <= j < i ==> (#[trigger] entries[j]).0 != key,
    ensures
        position_of(entries, key) == Some(i),
    decreases entries.len(),
{
    lemma_position_bounds(entries.drop_last(), key);
    if i < entries.len() - 1 {
        assert forall|j: int| 0 <= j < i implies (#[trigger] entries.drop_last()[j]).0 != key by {
            assert(entries.drop_last()[j] == entries[j]);
        }
        assert(entries.drop_last()[i] == entries[i]);
        lemma_first_at(entries.drop_last(), key, i);
    } else {
        if position_of(entries.drop_last(), key) is Some {
            let k = position_of(entries.drop_last(), key)->0;
            assert(entries.drop_last()[k] == entries[k]);
        }
    }
}

} // verus!
