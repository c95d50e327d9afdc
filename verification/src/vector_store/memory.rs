//! The index held in memory: documents by identifier, and the transcripts
//! that are kept so that a media can be divided anew.

use crate::seqs::{lemma_filter_empty, lemma_filter_members, lemma_filter_next};
use crate::sorting::{lemma_stable_order, reorder, sort_by_keys, stable_order};
use crate::text::str_eq;
use crate::text::string_of;
use crate::transcription::models::{Transcript, TranscriptView};
use crate::vector_store::{
    document_views, rank_results, ranked, Document, DocumentView, IndexedVideo, IndexedVideoView,
    SearchResult,
};
use vstd::prelude::*;

verus! {

/// A transcript as it is kept, with the title of its media and the instant at
/// which it was kept.
#[derive(Debug, Clone)]
pub struct StoredTranscript {
    pub video_id: String,
    pub video_title: String,
    pub transcript: Transcript,
    pub duration_ms: u64,
    pub transcribed_at: i64,
}

/// An index that lives in memory.
#[derive(Debug)]
pub struct MemoryVectorStore {
    pub documents: Vec<Document>,
    pub transcripts: Vec<StoredTranscript>,
}

/// What a `StoredTranscript` holds.
pub struct StoredTranscriptView {
    pub video_id: Seq<char>,
    pub video_title: Seq<char>,
    pub transcript: TranscriptView,
    pub duration_ms: u64,
    pub transcribed_at: i64,
}

impl View for StoredTranscript {
    type V = StoredTranscriptView;

    open spec fn view(&self) -> StoredTranscriptView {
        StoredTranscriptView {
            video_id: self.video_id@,
            video_title: self.video_title@,
            transcript: self.transcript@,
            duration_ms: self.duration_ms,
            transcribed_at: self.transcribed_at,
        }
    }
}

/// The views of kept transcripts, in order.
pub open spec fn stored_views(kept: Seq<StoredTranscript>) -> Seq<StoredTranscriptView> {
    Seq::new(kept.len(), |i: int| kept[i]@)
}

/// Whether no media has two transcripts.
pub open spec fn one_each(kept: Seq<StoredTranscriptView>) -> bool {
    forall|i: int, j: int|
        0 <= i < j < kept.len() ==> (#[trigger] kept[i]).video_id != (#[trigger] kept[j]).video_id
}

/// Whether `i` is the place of the transcript of the media: the first, and,
/// where no media has two, the only one.
pub open spec fn is_place_of(kept: Seq<StoredTranscriptView>, video_id: Seq<char>, i: int) -> bool {
    &&& 0 <= i < kept.len()
    &&& kept[i].video_id == video_id
    &&& forall|j: int| 0 <= j < i ==> (#[trigger] kept[j]).video_id != video_id
}

/// Whether a transcript of the media is kept.
pub open spec fn keeps(kept: Seq<StoredTranscriptView>, video_id: Seq<char>) -> bool {
    exists|i: int| 0 <= i < kept.len() && (#[trigger] kept[i]).video_id == video_id
}

/// Keys that rise as the instants of keeping fall.
pub open spec fn newest_first_keys(kept: Seq<StoredTranscriptView>) -> Seq<i128> {
    Seq::new(kept.len(), |i: int| (-(kept[i].transcribed_at as int)) as i128)
}

/// What is listed of the kept transcripts: media, title and duration, the one
/// kept last first.
pub open spec fn listed_transcripts(kept: Seq<StoredTranscriptView>) -> Seq<
    (Seq<char>, Seq<char>, u64),
> {
    let sorted = reorder(kept, stable_order(newest_first_keys(kept)));
    Seq::new(
        sorted.len(),
        |i: int| (sorted[i].video_id, sorted[i].video_title, sorted[i].duration_ms),
    )
}

/// Whether no identifier occurs twice.
pub open spec fn unique_ids(docs: Seq<DocumentView>) -> bool {
    forall|i: int, j: int|
        0 <= i < j < docs.len() ==> (#[trigger] docs[i]).id != (#[trigger] docs[j]).id
}

/// Where the document with the given identifier stands, if there is one.
pub open spec fn id_position(docs: Seq<DocumentView>, id: u128) -> Option<int>
    decreases docs.len(),
{
    if docs.len() == 0 {
        None
    } else {
        match id_position(docs.drop_last(), id) {
            Some(i) => Some(i),
            None => if docs.last().id == id {
                Some(docs.len() - 1)
            } else {
                None
            },
        }
    }
}

/// The documents with `doc` put in: in the place of the document with its
/// identifier where there is one, at the end where there is none.
pub open spec fn upserted(docs: Seq<DocumentView>, doc: DocumentView) -> Seq<DocumentView> {
    match id_position(docs, doc.id) {
        Some(i) => docs.update(i, doc),
        None => docs.push(doc),
    }
}

/// The documents with each of `batch` put in, in order.
pub open spec fn upserted_all(docs: Seq<DocumentView>, batch: Seq<DocumentView>) -> Seq<
    DocumentView,
>
    decreases batch.len(),
{
    if batch.len() == 0 {
        docs
    } else {
        upserted(upserted_all(docs, batch.drop_last()), batch.last())
    }
}

/// Holds of the documents of the given media.
pub open spec fn of_video(video_id: Seq<char>) -> spec_fn(DocumentView) -> bool {
    |d: DocumentView| d.video_id == video_id
}

/// Holds of the documents of every other media.
pub open spec fn not_of_video(video_id: Seq<char>) -> spec_fn(DocumentView) -> bool {
    |d: DocumentView| d.video_id != video_id
}

/// The keys that put documents in their order within a media.
pub open spec fn order_keys(docs: Seq<DocumentView>) -> Seq<i128> {
    Seq::new(docs.len(), |i: int| docs[i].chunk_order as i128)
}

/// The documents of a media, in their order within it.
pub open spec fn media_documents(docs: Seq<DocumentView>, video_id: Seq<char>) -> Seq<
    DocumentView,
> {
    let own = docs.filter(of_video(video_id));
    reorder(own, stable_order(order_keys(own)))
}

/// Where the media with the given identifier stands, if there is one.
pub open spec fn video_position(videos: Seq<IndexedVideoView>, video_id: Seq<char>) -> Option<
    int,
>
    decreases videos.len(),
{
    if videos.len() == 0 {
        None
    } else {
        match video_position(videos.drop_last(), video_id) {
            Some(i) => Some(i),
            None => if videos.last().video_id == video_id {
                Some(videos.len() - 1)
            } else {
                None
            },
        }
    }
}

/// What is known of a media after one more of its documents is counted.
pub open spec fn counted(v: IndexedVideoView, d: DocumentView) -> IndexedVideoView {
    IndexedVideoView {
        video_id: v.video_id,
        video_title: v.video_title,
        chunk_count: (v.chunk_count + 1) as usize,
        total_duration_ms: if d.end_ms > v.total_duration_ms {
            d.end_ms
        } else {
            v.total_duration_ms
        },
        indexed_at: if d.indexed_at > v.indexed_at {
            d.indexed_at
        } else {
            v.indexed_at
        },
    }
}

/// What is known of a media of which one document is counted.
pub open spec fn first_seen(d: DocumentView) -> IndexedVideoView {
    IndexedVideoView {
        video_id: d.video_id,
        video_title: d.video_title,
        chunk_count: 1,
        total_duration_ms: d.end_ms,
        indexed_at: d.indexed_at,
    }
}

/// The media of the documents, in the order in which they first occur: each
/// with the title of its first document, the number of its documents, the
/// latest end and the latest instant of indexing among them.
pub open spec fn aggregated(docs: Seq<DocumentView>) -> Seq<IndexedVideoView>
    decreases docs.len(),
{
    if docs.len() == 0 {
        Seq::<IndexedVideoView>::empty()
    } else {
        let before = aggregated(docs.drop_last());
        match video_position(before, docs.last().video_id) {
            Some(i) => before.update(i, counted(before[i], docs.last())),
            None => before.push(first_seen(docs.last())),
        }
    }
}

/// Keys that rise as the instants of indexing fall.
pub open spec fn latest_first_keys(videos: Seq<IndexedVideoView>) -> Seq<i128> {
    Seq::new(videos.len(), |i: int| (-(videos[i].indexed_at as int)) as i128)
}

/// The media of the documents, the one indexed last first.
pub open spec fn listed(docs: Seq<DocumentView>) -> Seq<IndexedVideoView> {
    reorder(aggregated(docs), stable_order(latest_first_keys(aggregated(docs))))
}

/// The views of media, in order.
pub open spec fn video_views(videos: Seq<IndexedVideo>) -> Seq<IndexedVideoView> {
    Seq::new(videos.len(), |i: int| videos[i]@)
}

/// The candidates of a search: every document with its score, as far as
/// there are scores.
pub open spec fn scored(docs: Seq<Document>, scores: Seq<i32>) -> Seq<(DocumentView, i32)> {
    Seq::new(
        if scores.len() < docs.len() {
            scores.len()
        } else {
            docs.len()
        },
        |i: int| (docs[i]@, scores[i]),
    )
}

/// The views of search results, in order.
pub open spec fn result_views(results: Seq<SearchResult>) -> Seq<(DocumentView, i32)> {
    Seq::new(results.len(), |i: int| (results[i].document@, results[i].score))
}

proof fn lemma_id_position(docs: Seq<DocumentView>, id: u128)
    ensures
        id_position(docs, id) matches Some(i) ==> 0 <= i < docs.len() && docs[i].id == id
            && forall|j: int| 0 <= j < i ==> (#[trigger] docs[j]).id != id,
        id_position(docs, id) is None ==> forall|j: int|
            0 <= j < docs.len() ==> (#[trigger] docs[j]).id != id,
    decreases docs.len(),
{
    if docs.len() > 0 {
        lemma_id_position(docs.drop_last(), id);
        match id_position(docs.drop_last(), id) {
            Some(i) => {
                assert(docs.drop_last()[i] == docs[i]);
                assert forall|j: int| 0 <= j < i implies (#[trigger] docs[j]).id != id by {
                    assert(docs.drop_last()[j] == docs[j]);
                }
            },
            None => {
                assert forall|j: int| 0 <= j < docs.len() - 1 implies (#[trigger] docs[j]).id
                    != id by {
                    assert(docs.drop_last()[j] == docs[j]);
                }
            },
        }
    }
}

proof fn lemma_id_found(docs: Seq<DocumentView>, id: u128, i: int)
    requires
        0 <= i < docs.len(),
        docs[i].id == id,
        forall|j: int| 0 <= j < i ==> (#[trigger] docs[j]).id != id,
    ensures
        id_position(docs, id) == Some(i),
{
    lemma_id_position(docs, id);
}

proof fn lemma_video_position(videos: Seq<IndexedVideoView>, video_id: Seq<char>)
    ensures
        video_position(videos, video_id) matches Some(i) ==> 0 <= i < videos.len()
            && videos[i].video_id == video_id && forall|j: int|
            0 <= j < i ==> (#[trigger] videos[j]).video_id != video_id,
        video_position(videos, video_id) is None ==> forall|j: int|
            0 <= j < videos.len() ==> (#[trigger] videos[j]).video_id != video_id,
    decreases videos.len(),
{
    if videos.len() > 0 {
        lemma_video_position(videos.drop_last(), video_id);
        match video_position(videos.drop_last(), video_id) {
            Some(i) => {
                assert(videos.drop_last()[i] == videos[i]);
                assert forall|j: int| 0 <= j < i implies (#[trigger] videos[j]).video_id
                    != video_id by {
                    assert(videos.drop_last()[j] == videos[j]);
                }
            },
            None => {
                assert forall|j: int| 0 <= j < videos.len() - 1 implies (
                #[trigger] videos[j]).video_id != video_id by {
                    assert(videos.drop_last()[j] == videos[j]);
                }
            },
        }
    }
}

proof fn lemma_position_is(videos: Seq<IndexedVideoView>, video_id: Seq<char>, k: int)
    requires
        0 <= k < videos.len(),
        videos[k].video_id == video_id,
        forall|j: int| 0 <= j < k ==> (#[trigger] videos[j]).video_id != video_id,
    ensures
        video_position(videos, video_id) == Some(k),
{
    lemma_video_position(videos, video_id);
    let p = video_position(videos, video_id);
    if p is None {
        assert(videos[k].video_id != video_id);
    } else {
        let i = p->0;
        if i < k {
            assert(videos[i].video_id != video_id);
        } else if i > k {
            assert(videos[k].video_id != video_id);
        }
    }
}

/// Putting a document in keeps identifiers unique.
pub proof fn lemma_upserted_unique(docs: Seq<DocumentView>, doc: DocumentView)
    requires
        unique_ids(docs),
    ensures
        unique_ids(upserted(docs, doc)),
{
    lemma_id_position(docs, doc.id);
    let after = upserted(docs, doc);
    match id_position(docs, doc.id) {
        Some(i) => {
            assert forall|a: int, b: int| 0 <= a < b < after.len() implies (#[trigger] after[a]).id
                != (#[trigger] after[b]).id by {
                if a == i {
                    assert(after[b] == docs[b]);
                    assert(docs[i].id != docs[b].id);
                } else if b == i {
                    assert(after[a] == docs[a]);
                    assert(docs[a].id != docs[i].id);
                } else {
                    assert(after[a] == docs[a]);
                    assert(after[b] == docs[b]);
                }
            }
        },
        None => {
            assert forall|a: int, b: int| 0 <= a < b < after.len() implies (#[trigger] after[a]).id
                != (#[trigger] after[b]).id by {
                if b < docs.len() {
                    assert(after[a] == docs[a]);
                    assert(after[b] == docs[b]);
                } else {
                    assert(after[a] == docs[a]);
                }
            }
        },
    }
}

/// Putting in a document twice leaves one document with its identifier,
/// which holds what was put in last.
pub proof fn lemma_upsert_twice(docs: Seq<DocumentView>, first: DocumentView, second: DocumentView)
    requires
        unique_ids(docs),
        first.id == second.id,
    ensures
        upserted(upserted(docs, first), second).len() == upserted(docs, first).len(),
        id_position(upserted(upserted(docs, first), second), second.id) matches Some(i)
            && upserted(upserted(docs, first), second)[i] == second && forall|j: int|
            0 <= j < upserted(upserted(docs, first), second).len() && j != i ==> (
            #[trigger] upserted(upserted(docs, first), second)[j]).id != second.id,
{
    let once = upserted(docs, first);
    let twice = upserted(once, second);
    lemma_upserted_unique(docs, first);
    lemma_upserted_unique(once, second);
    lemma_id_position(docs, first.id);
    lemma_id_position(once, second.id);
    match id_position(docs, first.id) {
        Some(i) => {
            assert(once[i] == first);
        },
        None => {
            assert(once[once.len() - 1] == first);
        },
    }
    assert(id_position(once, second.id) is Some);
    let p = id_position(once, second.id)->0;
    assert(twice == once.update(p, second));
    assert(twice[p] == second);
    assert forall|j: int| 0 <= j < p implies (#[trigger] twice[j]).id != second.id by {
        assert(twice[j] == once[j]);
    }
    lemma_id_found(twice, second.id, p);
    assert forall|j: int| 0 <= j < twice.len() && j != p implies (#[trigger] twice[j]).id
        != second.id by {
        if j < p {
            assert(twice[j].id != twice[p].id);
        } else {
            assert(twice[p].id != twice[j].id);
        }
    }
}

impl MemoryVectorStore {
    /// The documents of the index, as they were put in.
    pub open spec fn view(&self) -> Seq<DocumentView> {
        document_views(self.documents@)
    }

    /// The transcripts that are kept, as they were put in.
    pub open spec fn kept(&self) -> Seq<StoredTranscriptView> {
        stored_views(self.transcripts@)
    }

    /// Whether the index is in order: no identifier occurs twice, and no
    /// media has two transcripts.
    pub open spec fn well_formed(&self) -> bool {
        unique_ids(self@) && one_each(self.kept())
    }

    /// An empty index.
    pub fn new() -> (s: MemoryVectorStore)
        ensures
            s@.len() == 0,
            s.transcripts@.len() == 0,
            s.well_formed(),
    {
        MemoryVectorStore { documents: Vec::new(), transcripts: Vec::new() }
    }

    /// How many documents the index holds.
    pub fn document_count(&self) -> (n: usize)
        ensures
            n == self@.len(),
    {
        self.documents.len()
    }

    /// Puts a document in: it takes the place of the document with its
    /// identifier, or is added where there is none.
    pub fn upsert(&mut self, doc: Document)
        requires
            old(self).well_formed(),
        ensures
            final(self)@ == upserted(old(self)@, doc@),
            final(self).well_formed(),
            final(self).transcripts == old(self).transcripts,
    {
        proof {
            lemma_upserted_unique(self@, doc@);
        }
        let mut i: usize = 0;
        while i < self.documents.len()
            invariant
                i <= self.documents.len(),
                self.documents == old(self).documents,
                self.transcripts == old(self).transcripts,
                unique_ids(upserted(old(self)@, doc@)),
                one_each(self.kept()),
                forall|j: int| 0 <= j < i ==> (#[trigger] self@[j]).id != doc.id,
            decreases self.documents.len() - i,
        {
            if self.documents[i].id == doc.id {
                proof {
                    lemma_id_found(self@, doc.id, i as int);
                }
                self.documents.set(i, doc);
                assert(self@ =~= old(self)@.update(i as int, doc@));
                assert(self@ == upserted(old(self)@, doc@));
                return ;
            }
            i = i + 1;
        }
        proof {
            lemma_id_position(self@, doc.id);
        }
        self.documents.push(doc);
        assert(self@ =~= old(self)@.push(doc@));
        assert(self@ == upserted(old(self)@, doc@));
    }

    /// Puts documents in, one after the other, and says how many were given.
    pub fn upsert_batch(&mut self, docs: Vec<Document>) -> (n: usize)
        requires
            old(self).well_formed(),
        ensures
            final(self)@ == upserted_all(old(self)@, document_views(docs@)),
            final(self).well_formed(),
            final(self).transcripts == old(self).transcripts,
            n == docs@.len(),
    {
        let n = docs.len();
        let ghost batch = document_views(docs@);
        let mut rest = docs;
        let mut i: usize = 0;
        assert(batch.take(0) == Seq::<DocumentView>::empty());
        while rest.len() > 0
            invariant
                self.well_formed(),
                self.transcripts == old(self).transcripts,
                i + rest.len() == n,
                n == batch.len(),
                document_views(rest@) == batch.skip(i as int),
                self@ == upserted_all(old(self)@, batch.take(i as int)),
            decreases rest.len(),
        {
            let ghost before = rest@;
            let doc = rest.remove(0);
            assert(rest@ =~= before.skip(1));
            assert(doc@ == document_views(before)[0]);
            assert(doc@ == batch.skip(i as int)[0]);
            assert(document_views(rest@) =~= document_views(before).skip(1));
            assert(batch.skip(i as int).skip(1) =~= batch.skip(i + 1));
            assert(batch.take(i + 1).drop_last() == batch.take(i as int));
            assert(batch.take(i + 1).last() == doc@);
            self.upsert(doc);
            i = i + 1;
        }
        assert(batch.take(n as int) == batch);
        n
    }

    /// Removes the documents of a media and says how many there were.
    pub fn delete_by_video_id(&mut self, video_id: &str) -> (n: usize)
        requires
            old(self).well_formed(),
        ensures
            final(self)@ == old(self)@.filter(not_of_video(video_id@)),
            final(self).well_formed(),
            final(self).transcripts == old(self).transcripts,
            n == old(self)@.len() - final(self)@.len(),
    {
        let ghost all = self@;
        let ghost keep = not_of_video(video_id@);
        let initial = self.documents.len();
        let mut i: usize = 0;
        let ghost mut seen: int = 0;
        proof {
            lemma_filter_empty(all.take(0), keep);
            assert(self@.take(0) == Seq::<DocumentView>::empty());
            assert(self@.skip(0) == all.skip(0));
        }
        while i < self.documents.len()
            invariant
                0 <= seen <= all.len(),
                i <= self.documents.len(),
                self.documents.len() <= initial,
                initial == all.len(),
                self.transcripts == old(self).transcripts,
                self@.len() - i == all.len() - seen,
                self@.take(i as int) == all.take(seen).filter(keep),
                self@.skip(i as int) == all.skip(seen),
                keep == not_of_video(video_id@),
            decreases self.documents.len() - i,
        {
            proof {
                lemma_filter_next(all, keep, seen);
                assert(self@[i as int] == self@.skip(i as int)[0]);
                assert(all[seen] == all.skip(seen)[0]);
                assert(self@.skip(i as int).skip(1) == self@.skip(i + 1));
                assert(all.skip(seen).skip(1) == all.skip(seen + 1));
            }
            let ghost before = self@;
            if !str_eq(self.documents[i].video_id.as_str(), video_id) {
                assert(before.take(i + 1) == before.take(i as int).push(before[i as int]));
                i = i + 1;
            } else {
                self.documents.remove(i);
                assert(self@ =~= before.remove(i as int));
                assert(self@.take(i as int) == before.take(i as int));
                assert(self@.skip(i as int) == before.skip(i + 1));
            }
            proof {
                seen = seen + 1;
            }
        }
        assert(self@.take(self.documents.len() as int) == self@);
        assert(all.take(all.len() as int) == all);
        proof {
            lemma_filter_keeps_unique(all, keep);
        }
        initial - self.documents.len()
    }

    /// Whether the index holds a document of the media.
    pub fn is_video_indexed(&self, video_id: &str) -> (b: bool)
        ensures
            b == (self@.filter(of_video(video_id@)).len() > 0),
            b == exists|i: int| 0 <= i < self@.len() && (#[trigger] self@[i]).video_id == video_id@,
    {
        let ghost keep = of_video(video_id@);
        let mut i: usize = 0;
        proof {
            lemma_filter_members(self@, keep);
        }
        while i < self.documents.len()
            invariant
                i <= self.documents.len(),
                keep == of_video(video_id@),
                forall|k: int|
                    0 <= k < self@.len() && keep(self@[k]) ==> self@.filter(keep).contains(
                        #[trigger] self@[k],
                    ),
                forall|j: int| 0 <= j < i ==> (#[trigger] self@[j]).video_id != video_id@,
            decreases self.documents.len() - i,
        {
            if str_eq(self.documents[i].video_id.as_str(), video_id) {
                assert(self@[i as int].video_id == video_id@);
                assert(keep(self@[i as int]));
                assert(self@.filter(keep).contains(self@[i as int]));
                return true;
            }
            i = i + 1;
        }
        proof {
            lemma_filter_members(self@, keep);
            if self@.filter(keep).len() > 0 {
                let d = self@.filter(keep)[0];
                assert(keep(d));
                assert(self@.contains(d));
                let k = choose|k: int| 0 <= k < self@.len() && self@[k] == d;
                assert(self@[k].video_id == video_id@);
            }
        }
        false
    }

    /// The documents of a media, in their order within it.
    pub fn get_by_video_id(&self, video_id: &str) -> (out: Vec<Document>)
        ensures
            document_views(out@) == media_documents(self@, video_id@),
    {
        let ghost keep = of_video(video_id@);
        let mut own: Vec<Document> = Vec::new();
        let mut i: usize = 0;
        proof {
            lemma_filter_empty(self@.take(0), keep);
            assert(document_views(own@) =~= Seq::<DocumentView>::empty());
        }
        while i < self.documents.len()
            invariant
                i <= self.documents.len(),
                keep == of_video(video_id@),
                document_views(own@) == self@.take(i as int).filter(keep),
            decreases self.documents.len() - i,
        {
            proof {
                lemma_filter_next(self@, keep, i as int);
            }
            if str_eq(self.documents[i].video_id.as_str(), video_id) {
                let ghost prior = own@;
                let d = self.documents[i].duplicate();
                own.push(d);
                assert(document_views(own@) =~= document_views(prior).push(d@));
            }
            i = i + 1;
        }
        assert(self@.take(self.documents.len() as int) == self@);
        let mut keys: Vec<i128> = Vec::new();
        let mut k: usize = 0;
        while k < own.len()
            invariant
                k <= own.len(),
                keys@ == order_keys(document_views(own@)).take(k as int),
            decreases own.len() - k,
        {
            keys.push(own[k].chunk_order as i128);
            assert(keys@ =~= order_keys(document_views(own@)).take(k + 1));
            k = k + 1;
        }
        assert(order_keys(document_views(own@)).take(own.len() as int) == order_keys(
            document_views(own@),
        ));
        let ghost unsorted = own@;
        sort_by_keys(&mut own, &mut keys);
        proof {
            let order = stable_order(order_keys(document_views(unsorted)));
            lemma_stable_order(order_keys(document_views(unsorted)));
            assert(document_views(reorder(unsorted, order)) =~= reorder(
                document_views(unsorted),
                order,
            ));
        }
        own
    }

    /// What the index knows of each media, the one indexed last first.
    pub fn list_videos(&self) -> (out: Vec<IndexedVideo>)
        ensures
            video_views(out@) == listed(self@),
    {
        let mut videos: Vec<IndexedVideo> = Vec::new();
        let mut i: usize = 0;
        assert(self@.take(0) == Seq::<DocumentView>::empty());
        assert(video_views(videos@) =~= Seq::<IndexedVideoView>::empty());
        while i < self.documents.len()
            invariant
                i <= self.documents.len(),
                video_views(videos@) == aggregated(self@.take(i as int)),
                forall|k: int|
                    0 <= k < videos@.len() ==> (#[trigger] videos@[k]).chunk_count <= i,
            decreases self.documents.len() - i,
        {
            let d = &self.documents[i];
            assert(self@.take(i + 1).drop_last() == self@.take(i as int));
            assert(self@.take(i + 1).last() == d@);
            let ghost before = video_views(videos@);
            proof {
                lemma_video_position(before, d@.video_id);
            }
            let mut k: usize = 0;
            let mut found: Option<usize> = None;
            while k < videos.len() && found.is_none()
                invariant
                    k <= videos.len(),
                    before == video_views(videos@),
                    found matches Some(f) ==> f == k && k < videos.len() && before[k as int].video_id
                        == d@.video_id,
                    forall|j: int| 0 <= j < k ==> (#[trigger] before[j]).video_id != d@.video_id,
                decreases videos.len() - k + (if found is None {
                    1int
                } else {
                    0int
                }),
            {
                if str_eq(videos[k].video_id.as_str(), d.video_id.as_str()) {
                    assert(before[k as int].video_id == d@.video_id);
                    found = Some(k);
                } else {
                    k = k + 1;
                }
            }
            match found {
                Some(k) => {
                    proof {
                        lemma_position_is(before, d@.video_id, k as int);
                    }
                    assert(video_position(before, d@.video_id) == Some(k as int));
                    let v = &videos[k];
                    let updated = IndexedVideo {
                        video_id: v.video_id.clone(),
                        video_title: v.video_title.clone(),
                        chunk_count: v.chunk_count + 1,
                        total_duration_ms: if d.end_ms > v.total_duration_ms {
                            d.end_ms
                        } else {
                            v.total_duration_ms
                        },
                        indexed_at: if d.indexed_at > v.indexed_at {
                            d.indexed_at
                        } else {
                            v.indexed_at
                        },
                    };
                    assert(updated@ == counted(before[k as int], d@));
                    videos.set(k, updated);
                    assert(video_views(videos@) =~= before.update(k as int, updated@));
                },
                None => {
                    assert(video_position(before, d@.video_id) is None);
                    let fresh = IndexedVideo {
                        video_id: d.video_id.clone(),
                        video_title: d.video_title.clone(),
                        chunk_count: 1,
                        total_duration_ms: d.end_ms,
                        indexed_at: d.indexed_at,
                    };
                    videos.push(fresh);
                    assert(video_views(videos@) =~= before.push(fresh@));
                },
            }
            i = i + 1;
        }
        assert(self@.take(self.documents.len() as int) == self@);
        let mut keys: Vec<i128> = Vec::new();
        let mut k: usize = 0;
        while k < videos.len()
            invariant
                k <= videos.len(),
                keys@ == latest_first_keys(video_views(videos@)).take(k as int),
            decreases videos.len() - k,
        {
            keys.push(-(videos[k].indexed_at as i128));
            assert(keys@ =~= latest_first_keys(video_views(videos@)).take(k + 1));
            k = k + 1;
        }
        assert(latest_first_keys(video_views(videos@)).take(videos.len() as int)
            == latest_first_keys(video_views(videos@)));
        let ghost unsorted = videos@;
        sort_by_keys(&mut videos, &mut keys);
        proof {
            let order = stable_order(latest_first_keys(video_views(unsorted)));
            lemma_stable_order(latest_first_keys(video_views(unsorted)));
            assert(video_views(reorder(unsorted, order)) =~= reorder(video_views(unsorted), order));
        }
        videos
    }

    /// What the index knows of one media, if it knows it.
    pub fn get_video(&self, video_id: &str) -> (out: Option<IndexedVideo>)
        ensures
            match video_position(listed(self@), video_id@) {
                Some(i) => out matches Some(v) && v@ == listed(self@)[i],
                None => out is None,
            },
    {
        let videos = self.list_videos();
        let ghost all = video_views(videos@);
        proof {
            lemma_video_position(all, video_id@);
        }
        let mut k: usize = 0;
        while k < videos.len()
            invariant
                k <= videos.len(),
                all == video_views(videos@),
                all == listed(self@),
                forall|j: int| 0 <= j < k ==> (#[trigger] all[j]).video_id != video_id@,
            decreases videos.len() - k,
        {
            if str_eq(videos[k].video_id.as_str(), video_id) {
                assert(all[k as int].video_id == video_id@);
                proof {
                    lemma_position_is(all, video_id@, k as int);
                }
                return Some(videos[k].duplicate());
            }
            k = k + 1;
        }
        None
    }

    /// Ranks the documents by the scores given for them, one score for each
    /// document in the order of the index: those below `min_score` are
    /// dropped, the best come first, and the list is cut at `limit`. A
    /// document for which no score is given is no candidate.
    pub fn search_with_threshold(&self, scores: &Vec<i32>, limit: usize, min_score: i32) -> (out:
        Vec<SearchResult>)
        ensures
            exists|candidates: Seq<SearchResult>|
                result_views(candidates) == scored(self.documents@, scores@) && #[trigger] ranked(
                    candidates,
                    limit as nat,
                    min_score,
                ) == out@,
    {
        let count: usize = if scores.len() < self.documents.len() {
            scores.len()
        } else {
            self.documents.len()
        };
        let mut candidates: Vec<SearchResult> = Vec::new();
        let mut i: usize = 0;
        while i < count
            invariant
                i <= count,
                count <= scores@.len(),
                count <= self.documents@.len(),
                count == scored(self.documents@, scores@).len(),
                result_views(candidates@) == scored(self.documents@, scores@).take(i as int),
            decreases count - i,
        {
            let r = SearchResult { document: self.documents[i].duplicate(), score: scores[i] };
            let ghost prior = candidates@;
            candidates.push(r);
            assert(result_views(candidates@) =~= result_views(prior).push((r.document@, r.score)));
            assert(scored(self.documents@, scores@).take(i + 1) =~= scored(
                self.documents@,
                scores@,
            ).take(i as int).push((r.document@, r.score)));
            i = i + 1;
        }
        assert(scored(self.documents@, scores@).take(count as int) == scored(
            self.documents@,
            scores@,
        ));
        rank_results(candidates, limit, min_score)
    }

    /// Ranks the documents by the scores given for them and returns the
    /// best, however low they score.
    pub fn search(&self, scores: &Vec<i32>, limit: usize) -> (out: Vec<SearchResult>)
        ensures
            exists|candidates: Seq<SearchResult>|
                result_views(candidates) == scored(self.documents@, scores@) && #[trigger] ranked(
                    candidates,
                    limit as nat,
                    i32::MIN,
                ) == out@,
    {
        self.search_with_threshold(scores, limit, i32::MIN)
    }
}

/// What passes a filter of documents with unique identifiers has unique
/// identifiers.
pub proof fn lemma_filter_keeps_unique(docs: Seq<DocumentView>, keep: spec_fn(DocumentView) -> bool)
    requires
        unique_ids(docs),
    ensures
        unique_ids(docs.filter(keep)),
    decreases docs.len(),
{
    reveal(Seq::filter);
    if docs.len() > 0 {
        let init = docs.drop_last();
        assert forall|i: int, j: int| 0 <= i < j < init.len() implies (#[trigger] init[i]).id != (
        #[trigger] init[j]).id by {
            assert(init[i] == docs[i]);
            assert(init[j] == docs[j]);
        }
        lemma_filter_keeps_unique(init, keep);
        lemma_filter_members(init, keep);
        let f = docs.filter(keep);
        assert forall|i: int, j: int| 0 <= i < j < f.len() implies (#[trigger] f[i]).id != (
        #[trigger] f[j]).id by {
            if j == init.filter(keep).len() {
                assert(f[j] == docs.last());
                assert(init.contains(init.filter(keep)[i]));
                let k = choose|k: int| 0 <= k < init.len() && init[k] == init.filter(keep)[i];
                assert(docs[k] == f[i]);
                assert(docs[k].id != docs[docs.len() - 1].id);
            }
        }
    }
}

impl MemoryVectorStore {
    fn place_of(&self, video_id: &str) -> (r: Option<usize>)
        ensures
            r matches Some(i) ==> is_place_of(self.kept(), video_id@, i as int),
            r is None ==> !keeps(self.kept(), video_id@),
    {
        let mut i: usize = 0;
        while i < self.transcripts.len()
            invariant
                i <= self.transcripts.len(),
                forall|j: int| 0 <= j < i ==> (#[trigger] self.kept()[j]).video_id != video_id@,
            decreases self.transcripts.len() - i,
        {
            if str_eq(self.transcripts[i].video_id.as_str(), video_id) {
                assert(self.kept()[i as int].video_id == video_id@);
                return Some(i);
            }
            i = i + 1;
        }
        None
    }

    /// Keeps the transcript of a media, in the place of the one that was kept
    /// for it before, if one was, with the instant at which it is kept.
    pub fn store_transcript(
        &mut self,
        video_id: &str,
        video_title: &str,
        transcript: &Transcript,
        at: i64,
    )
        requires
            old(self).well_formed(),
        ensures
            final(self).well_formed(),
            final(self).documents == old(self).documents,
            keeps(final(self).kept(), video_id@),
            forall|i: int|
                0 <= i < final(self).kept().len() && (#[trigger] final(self).kept()[i]).video_id
                    == video_id@ ==> final(self).kept()[i].video_title == video_title@
                    && final(self).kept()[i].transcript == transcript@
                    && final(self).kept()[i].duration_ms == transcript.duration_ms
                    && final(self).kept()[i].transcribed_at == at,
            forall|i: int|
                0 <= i < old(self).kept().len() && (#[trigger] old(self).kept()[i]).video_id
                    != video_id@ ==> final(self).kept()[i] == old(self).kept()[i],
            final(self).kept().len() == if keeps(old(self).kept(), video_id@) {
                old(self).kept().len()
            } else {
                old(self).kept().len() + 1
            },
    {
        let entry = StoredTranscript {
            video_id: string_of(video_id),
            video_title: string_of(video_title),
            transcript: transcript.duplicate(),
            duration_ms: transcript.duration_ms,
            transcribed_at: at,
        };
        let ghost before = self.kept();
        match self.place_of(video_id) {
            Some(i) => {
                self.transcripts.set(i, entry);
                assert(self.kept() =~= before.update(i as int, entry@));
                assert forall|a: int, b: int| 0 <= a < b < self.kept().len() implies (
                #[trigger] self.kept()[a]).video_id != (#[trigger] self.kept()[b]).video_id by {
                    assert(before[a].video_id != before[b].video_id);
                }
                assert(self.kept()[i as int].video_id == video_id@);
                assert forall|k: int|
                    0 <= k < self.kept().len() && (#[trigger] self.kept()[k]).video_id
                        == video_id@ implies k == i by {
                    if k < i {
                        assert(before[k].video_id != before[i as int].video_id);
                    } else if k > i {
                        assert(before[i as int].video_id != before[k].video_id);
                    }
                }
            },
            None => {
                self.transcripts.push(entry);
                assert(self.kept() =~= before.push(entry@));
                assert(self.kept()[before.len() as int].video_id == video_id@);
                assert forall|a: int, b: int| 0 <= a < b < self.kept().len() implies (
                #[trigger] self.kept()[a]).video_id != (#[trigger] self.kept()[b]).video_id by {
                    if b < before.len() {
                        assert(before[a].video_id != before[b].video_id);
                    } else {
                        assert(before[a].video_id != video_id@);
                    }
                }
            },
        }
    }

    /// The title and the transcript that are kept for a media, if any are.
    pub fn get_transcript(&self, video_id: &str) -> (r: Option<(String, Transcript)>)
        ensures
            r is Some <==> keeps(self.kept(), video_id@),
            r matches Some(found) ==> exists|i: int|
                #[trigger] is_place_of(self.kept(), video_id@, i) && found.0@
                    == self.kept()[i].video_title && found.1@ == self.kept()[i].transcript,
    {
        match self.place_of(video_id) {
            Some(i) => {
                let entry = &self.transcripts[i];
                Some((entry.video_title.clone(), entry.transcript.duplicate()))
            },
            None => None,
        }
    }

    /// Whether a transcript is kept for a media.
    pub fn has_transcript(&self, video_id: &str) -> (b: bool)
        ensures
            b == keeps(self.kept(), video_id@),
    {
        self.place_of(video_id).is_some()
    }

    /// Media, title and duration of the kept transcripts, the one kept last
    /// first.
    pub fn list_transcripts(&self) -> (out: Vec<(String, String, u64)>)
        ensures
            out@.len() == self.kept().len(),
            forall|i: int|
                0 <= i < out@.len() ==> ((#[trigger] out@[i]).0@, out@[i].1@, out@[i].2)
                    == listed_transcripts(self.kept())[i],
    {
        let mut rows: Vec<(String, String, u64)> = Vec::new();
        let mut keys: Vec<i128> = Vec::new();
        let mut i: usize = 0;
        while i < self.transcripts.len()
            invariant
                i <= self.transcripts.len(),
                rows@.len() == i,
                keys@ == newest_first_keys(self.kept()).take(i as int),
                forall|k: int|
                    0 <= k < i ==> ((#[trigger] rows@[k]).0@, rows@[k].1@, rows@[k].2) == (
                        self.kept()[k].video_id,
                        self.kept()[k].video_title,
                        self.kept()[k].duration_ms,
                    ),
            decreases self.transcripts.len() - i,
        {
            let t = &self.transcripts[i];
            rows.push((t.video_id.clone(), t.video_title.clone(), t.duration_ms));
            keys.push(-(t.transcribed_at as i128));
            assert(keys@ =~= newest_first_keys(self.kept()).take(i + 1));
            i = i + 1;
        }
        assert(newest_first_keys(self.kept()).take(self.transcripts.len() as int)
            == newest_first_keys(self.kept()));
        proof {
            lemma_stable_order(newest_first_keys(self.kept()));
        }
        sort_by_keys(&mut rows, &mut keys);
        rows
    }
}

proof fn lemma_filter_all<T>(s: Seq<T>, keep: spec_fn(T) -> bool)
    requires
        forall|i: int| 0 <= i < s.len() ==> keep(#[trigger] s[i]),
    ensures
        s.filter(keep) == s,
    decreases s.len(),
{
    reveal(Seq::filter);
    if s.len() > 0 {
        assert forall|i: int| 0 <= i < s.drop_last().len() implies keep(
            #[trigger] s.drop_last()[i],
        ) by {
            assert(s.drop_last()[i] == s[i]);
        }
        lemma_filter_all(s.drop_last(), keep);
        assert(keep(s[s.len() - 1]));
        assert(s.drop_last().push(s.last()) == s);
    }
}

proof fn lemma_filter_none<T>(s: Seq<T>, keep: spec_fn(T) -> bool)
    requires
        forall|i: int| 0 <= i < s.len() ==> !keep(#[trigger] s[i]),
    ensures
        s.filter(keep) == Seq::<T>::empty(),
    decreases s.len(),
{
    reveal(Seq::filter);
    if s.len() > 0 {
        assert forall|i: int| 0 <= i < s.drop_last().len() implies !keep(
            #[trigger] s.drop_last()[i],
        ) by {
            assert(s.drop_last()[i] == s[i]);
        }
        lemma_filter_none(s.drop_last(), keep);
        assert(!keep(s[s.len() - 1]));
    }
}

proof fn lemma_filter_concat<T>(a: Seq<T>, b: Seq<T>, keep: spec_fn(T) -> bool)
    ensures
        (a + b).filter(keep) == a.filter(keep) + b.filter(keep),
    decreases b.len(),
{
    reveal(Seq::filter);
    if b.len() == 0 {
        assert(a + b == a);
        assert(a.filter(keep) + b.filter(keep) == a.filter(keep));
    } else {
        assert((a + b).drop_last() == a + b.drop_last());
        assert((a + b).last() == b.last());
        lemma_filter_concat(a, b.drop_last(), keep);
        if keep(b.last()) {
            assert((a.filter(keep) + b.drop_last().filter(keep)).push(b.last()) == a.filter(keep)
                + b.drop_last().filter(keep).push(b.last()));
        }
    }
}

/// Documents with identifiers that the index has not seen are added at the
/// end, in order.
pub proof fn lemma_upserted_all_fresh(docs: Seq<DocumentView>, batch: Seq<DocumentView>)
    requires
        unique_ids(batch),
        forall|i: int, j: int|
            0 <= i < batch.len() && 0 <= j < docs.len() ==> (#[trigger] batch[i]).id != (
            #[trigger] docs[j]).id,
    ensures
        upserted_all(docs, batch) == docs + batch,
    decreases batch.len(),
{
    if batch.len() == 0 {
        assert(docs + batch == docs);
    } else {
        let init = batch.drop_last();
        assert forall|i: int, j: int| 0 <= i < j < init.len() implies (#[trigger] init[i]).id != (
        #[trigger] init[j]).id by {
            assert(init[i] == batch[i]);
            assert(init[j] == batch[j]);
        }
        assert forall|i: int, j: int| 0 <= i < init.len() && 0 <= j < docs.len() implies (
        #[trigger] init[i]).id != (#[trigger] docs[j]).id by {
            assert(init[i] == batch[i]);
        }
        lemma_upserted_all_fresh(docs, init);
        let sofar = docs + init;
        let last = batch.last();
        lemma_id_position(sofar, last.id);
        if id_position(sofar, last.id) is Some {
            let p = id_position(sofar, last.id)->0;
            if p < docs.len() {
                assert(sofar[p] == docs[p]);
                assert(batch[batch.len() - 1].id != docs[p].id);
            } else {
                assert(sofar[p] == init[p - docs.len()]);
                assert(init[p - docs.len()] == batch[p - docs.len()]);
                assert(batch[p - docs.len()].id != batch[batch.len() - 1].id);
            }
        }
        assert(sofar.push(last) == docs + batch);
    }
}

/// Replacing the documents of a media leaves exactly the new ones for it:
/// after the documents of the media are removed and new documents of the
/// media, with identifiers of their own, are put in, the documents of the
/// media are the new ones, and those of every other media are as before.
pub proof fn lemma_replace(docs: Seq<DocumentView>, video_id: Seq<char>, batch: Seq<DocumentView>)
    requires
        unique_ids(docs),
        unique_ids(batch),
        forall|i: int| 0 <= i < batch.len() ==> (#[trigger] batch[i]).video_id == video_id,
        forall|i: int, j: int|
            0 <= i < batch.len() && 0 <= j < docs.len() ==> (#[trigger] batch[i]).id != (
            #[trigger] docs[j]).id,
    ensures
        upserted_all(docs.filter(not_of_video(video_id)), batch).filter(of_video(video_id))
            == batch,
        upserted_all(docs.filter(not_of_video(video_id)), batch).filter(not_of_video(video_id))
            == docs.filter(not_of_video(video_id)),
        media_documents(upserted_all(docs.filter(not_of_video(video_id)), batch), video_id)
            == reorder(batch, stable_order(order_keys(batch))),
{
    let others = docs.filter(not_of_video(video_id));
    lemma_filter_members(docs, not_of_video(video_id));
    assert forall|i: int, j: int| 0 <= i < batch.len() && 0 <= j < others.len() implies (
    #[trigger] batch[i]).id != (#[trigger] others[j]).id by {
        assert(docs.contains(others[j]));
        let k = choose|k: int| 0 <= k < docs.len() && docs[k] == others[j];
        assert(batch[i].id != docs[k].id);
    }
    lemma_upserted_all_fresh(others, batch);
    lemma_filter_concat(others, batch, of_video(video_id));
    lemma_filter_concat(others, batch, not_of_video(video_id));
    assert forall|i: int| 0 <= i < others.len() implies !(of_video(video_id))(
        #[trigger] others[i],
    ) by {
        assert((not_of_video(video_id))(others[i]));
    }
    lemma_filter_none(others, of_video(video_id));
    lemma_filter_all(batch, of_video(video_id));
    assert forall|i: int| 0 <= i < others.len() implies (not_of_video(video_id))(
        #[trigger] others[i],
    ) by {}
    lemma_filter_all(others, not_of_video(video_id));
    assert forall|i: int| 0 <= i < batch.len() implies !(not_of_video(video_id))(
        #[trigger] batch[i],
    ) by {}
    lemma_filter_none(batch, not_of_video(video_id));
    assert(Seq::<DocumentView>::empty() + batch == batch);
    assert(others + Seq::<DocumentView>::empty() == others);
}

/// Every document's media is among the media that the index knows.
pub proof fn lemma_media_listed(docs: Seq<DocumentView>, i: int)
    requires
        0 <= i < docs.len(),
    ensures
        video_position(aggregated(docs), docs[i].video_id) is Some,
    decreases docs.len(),
{
    let before = aggregated(docs.drop_last());
    let last = docs.last();
    lemma_video_position(before, last.video_id);
    lemma_video_position(aggregated(docs), docs[i].video_id);
    if i < docs.len() - 1 {
        lemma_media_listed(docs.drop_last(), i);
        assert(docs.drop_last()[i] == docs[i]);
        lemma_video_position(before, docs[i].video_id);
        let p = video_position(before, docs[i].video_id)->0;
        assert(aggregated(docs)[p].video_id == docs[i].video_id) by {
            match video_position(before, last.video_id) {
                Some(q) => {
                    if q == p {
                        assert(aggregated(docs)[p] == counted(before[p], last));
                    } else {
                        assert(aggregated(docs)[p] == before[p]);
                    }
                },
                None => {
                    assert(aggregated(docs)[p] == before[p]);
                },
            }
        }
    } else {
        match video_position(before, last.video_id) {
            Some(q) => {
                assert(aggregated(docs)[q] == counted(before[q], last));
                assert(aggregated(docs)[q].video_id == last.video_id);
            },
            None => {
                assert(aggregated(docs)[aggregated(docs).len() - 1] == first_seen(last));
                assert(aggregated(docs)[aggregated(docs).len() - 1].video_id == last.video_id);
            },
        }
    }
}

} // verus!
