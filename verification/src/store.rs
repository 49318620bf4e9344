//! The job-record store: an ordered, newest-first, size-bounded collection
//! of completed jobs.
//!
//! Every mutating operation of the original design is a full
//! load-modify-store cycle over one persisted file. The loading and writing
//! of that file is the shell's work; the collection rules — newest first,
//! identifier generation, the retention cap with oldest-first eviction,
//! removal by identifier — live here and are verified. The shell must
//! serialize store operations (single-writer assumption); the store itself
//! takes `&mut self` and so is never shared.

use vstd::prelude::*;

verus! {

/// The settings one job ran with, kept with its record.
#[derive(PartialEq, Eq, Debug)]
pub struct GenerationSettings {
    pub resolution: String,
    pub fps: u32,
    pub quality: u32,
    pub audio_path: String,
    pub style_name: String,
}

impl Clone for GenerationSettings {
    fn clone(&self) -> (r: Self)
        ensures
            r == *self,
    {
        GenerationSettings {
            resolution: self.resolution.clone(),
            fps: self.fps,
            quality: self.quality,
            audio_path: self.audio_path.clone(),
            style_name: self.style_name.clone(),
        }
    }
}

/// One persisted record of a completed job.
#[derive(PartialEq, Eq, Debug)]
pub struct Generation {
    /// Unique identifier; generated at append time when left empty.
    /// Uniqueness is the generator's responsibility — the store does not
    /// deduplicate.
    pub id: String,
    /// Display filename of the produced video.
    pub filename: String,
    /// The source audio path.
    pub audio_path: String,
    /// The produced video path.
    pub video_path: String,
    /// The output path the job was asked for.
    pub output_path: String,
    /// The settings the job ran with.
    pub settings: GenerationSettings,
    /// Creation timestamp, in its serialized textual form.
    pub created_at: String,
    /// Duration of the produced video in milliseconds; zero when unknown.
    pub duration_ms: u64,
    /// Size of the produced file in bytes.
    pub file_size: u64,
    /// Optional thumbnail reference.
    pub thumbnail: Option<String>,
}

impl Clone for Generation {
    fn clone(&self) -> (r: Self)
        ensures
            r == *self,
    {
        Generation {
            id: self.id.clone(),
            filename: self.filename.clone(),
            audio_path: self.audio_path.clone(),
            video_path: self.video_path.clone(),
            output_path: self.output_path.clone(),
            settings: self.settings.clone(),
            created_at: self.created_at.clone(),
            duration_ms: self.duration_ms,
            file_size: self.file_size,
            thumbnail: match &self.thumbnail {
                Some(t) => Some(t.clone()),
                None => None,
            },
        }
    }
}

/// `a` and `b` agree in every field except possibly the identifier.
pub open spec fn same_but_id(a: Generation, b: Generation) -> bool {
    a.filename == b.filename && a.audio_path == b.audio_path && a.video_path == b.video_path
        && a.output_path == b.output_path && a.settings == b.settings && a.created_at
        == b.created_at && a.duration_ms == b.duration_ms && a.file_size == b.file_size
        && a.thumbnail == b.thumbnail
}

/// The number of characters in a generated identifier: a hyphenated UUID.
pub const GENERATED_ID_LEN: usize = 36;

/// Relies on `uuid::Uuid::new_v4` and the `Display` impl of `uuid::Uuid`:
/// a fresh random UUID rendered in the 36-character hyphenated form.
#[verifier::external_body]
fn fresh_id() -> (r: String)
    ensures
        r@.len() == GENERATED_ID_LEN,
{
    uuid::Uuid::new_v4().to_string()
}

/// The records `append` leaves in a store: the stored record in front of
/// the prior ones, truncated to the cap (so the oldest beyond the cap are
/// dropped).
pub open spec fn appended(stored: Generation, prior: Seq<Generation>, max: nat) -> Seq<Generation> {
    (seq![stored] + prior).take(
        if prior.len() + 1 <= max {
            prior.len() + 1 as int
        } else {
            max as int
        },
    )
}

/// The records of `s` whose identifier is not `id`, in order.
pub open spec fn without_id(s: Seq<Generation>, id: Seq<char>) -> Seq<Generation>
    decreases s.len(),
{
    if s.len() == 0 {
        Seq::<Generation>::empty()
    } else {
        let rest = without_id(s.drop_last(), id);
        if s.last().id@ == id {
            rest
        } else {
            rest.push(s.last())
        }
    }
}

/// The default retention cap of the history.
pub const MAX_STORED: usize = 100;

/// The job-record store, newest record first, bounded to `max` records.
pub struct RecordStore {
    records: Vec<Generation>,
    max: usize,
}

impl RecordStore {
    /// The retained records, newest first.
    pub closed spec fn records(&self) -> Seq<Generation> {
        self.records@
    }

    /// The retention cap.
    pub closed spec fn max(&self) -> nat {
        self.max as nat
    }

    /// A store over previously persisted records, newest first, bounded by
    /// `max`. The records are taken as they were persisted; the cap is
    /// enforced on every `append`.
    pub fn new(max: usize, records: Vec<Generation>) -> (r: RecordStore)
        ensures
            r.records() == records@,
            r.max() == max as nat,
    {
        RecordStore { records, max }
    }

    /// The full ordered collection, newest first.
    pub fn list(&self) -> (r: &Vec<Generation>)
        ensures
            r@ == self.records(),
    {
        &self.records
    }

    /// Give the records up for persisting.
    pub fn into_records(self) -> (r: Vec<Generation>)
        ensures
            r@ == self.records(),
    {
        self.records
    }

    /// Insert `record` at the front, newest first, generating an identifier
    /// when the given one is empty, and truncate to the cap (oldest entries
    /// dropped first). Returns the record exactly as stored.
    pub fn append(&mut self, record: Generation) -> (stored: Generation)
        ensures
            final(self).max() == old(self).max(),
            final(self).records() == appended(stored, old(self).records(), old(self).max()),
            same_but_id(stored, record),
            record.id@.len() > 0 ==> stored.id == record.id,
            record.id@.len() == 0 ==> stored.id@.len() == GENERATED_ID_LEN,
            stored.id@.len() > 0,
    {
        let mut record = record;
        if record.id.as_str().unicode_len() == 0 {
            record.id = fresh_id();
        }
        let stored = record.clone();
        let ghost prior = self.records@;
        self.records.insert(0, record);
        self.records.truncate(self.max);
        proof {
            assert(final(self).records() =~= appended(stored, prior, self.max as nat));
        }
        stored
    }

    /// Remove every record whose identifier is `id`; removing an absent
    /// identifier is a no-op, not an error.
    pub fn remove(&mut self, id: &String)
        ensures
            final(self).max() == old(self).max(),
            final(self).records() == without_id(old(self).records(), id@),
    {
        let mut kept: Vec<Generation> = Vec::new();
        let mut i: usize = 0;
        while i < self.records.len()
            invariant
                i <= self.records@.len(),
                self == old(self),
                kept@ == without_id(self.records@.take(i as int), id@),
            decreases self.records@.len() - i,
        {
            proof {
                assert(self.records@.take(i + 1).drop_last() =~= self.records@.take(i as int));
                assert(self.records@.take(i + 1).last() == self.records@[i as int]);
            }
            let r = &self.records[i];
            if !(r.id == *id) {
                kept.push(r.clone());
            }
            i = i + 1;
        }
        proof {
            assert(self.records@.take(self.records@.len() as int) =~= self.records@);
        }
        self.records = kept;
    }

    /// Replace the collection with an empty one, unconditionally.
    pub fn clear(&mut self)
        ensures
            final(self).max() == old(self).max(),
            final(self).records() == Seq::<Generation>::empty(),
    {
        self.records = Vec::new();
    }
}

/// Appending to an empty store leaves exactly the one stored record, for
/// any positive cap.
pub proof fn lemma_append_to_empty(stored: Generation, max: nat)
    requires
        max >= 1,
    ensures
        appended(stored, Seq::<Generation>::empty(), max) == seq![stored],
{
    assert(appended(stored, Seq::<Generation>::empty(), max) =~= seq![stored]);
}

/// `append` never leaves more than the cap, and when the prior records were
/// within the cap it leaves `min(prior + 1, cap)` records: the cap holds as
/// an invariant of the store, with appends beyond it evicting rather than
/// growing.
pub proof fn lemma_append_bounded(stored: Generation, prior: Seq<Generation>, max: nat)
    ensures
        appended(stored, prior, max).len() <= max || appended(stored, prior, max).len()
            == prior.len() + 1,
        appended(stored, prior, max).len() == if prior.len() + 1 <= max {
            prior.len() + 1 as int
        } else {
            max as int
        },
{
}

/// Appending to a store already at its cap keeps the length at the cap and
/// drops exactly the oldest record: the result is the stored record in
/// front of all prior records but the last.
pub proof fn lemma_append_evicts_oldest(stored: Generation, prior: Seq<Generation>, max: nat)
    requires
        prior.len() == max,
        max >= 1,
    ensures
        appended(stored, prior, max).len() == max,
        appended(stored, prior, max) == seq![stored] + prior.drop_last(),
{
    assert(appended(stored, prior, max) =~= seq![stored] + prior.drop_last());
}

/// The stored record stands in front after any append with a positive cap:
/// what `append` stores is exactly what the next `list` returns first.
pub proof fn lemma_append_front(stored: Generation, prior: Seq<Generation>, max: nat)
    requires
        max >= 1,
    ensures
        appended(stored, prior, max).len() >= 1,
        appended(stored, prior, max)[0] == stored,
{
    assert((seq![stored] + prior)[0] == stored);
}

/// Removing an identifier that no record carries leaves the records
/// unchanged.
pub proof fn lemma_remove_absent(s: Seq<Generation>, id: Seq<char>)
    requires
        forall|i: int| 0 <= i < s.len() ==> s[i].id@ != id,
    ensures
        without_id(s, id) == s,
    decreases s.len(),
{
    if s.len() > 0 {
        assert(forall|i: int| 0 <= i < s.len() - 1 ==> s.drop_last()[i] == s[i]);
        lemma_remove_absent(s.drop_last(), id);
        assert(without_id(s, id) =~= s);
    } else {
        assert(without_id(s, id) =~= s);
    }
}

/// Interpret what the shell found at the history file: no file yet is an
/// empty history (not an error); an unreadable file or unparsable data is
/// surfaced as an error rather than silently discarded. The outer result is
/// the file read, the inner one the parse of its content.
pub fn interpret_history_load(file_exists: bool, content: Result<Result<Vec<Generation>, String>, String>) -> (r: Result<Vec<Generation>, String>)
    ensures
        r is Ok <==> (!file_exists || (content is Ok && content->Ok_0 is Ok)),
        !file_exists ==> r is Ok && r->Ok_0@ == Seq::<Generation>::empty(),
        file_exists && content is Ok && content->Ok_0 is Ok ==> r == Ok::<Vec<Generation>, String>(
            content->Ok_0->Ok_0,
        ),
        r is Err ==> r->Err_0@ == (if content is Err {
            "Failed to read generations file: "@ + content->Err_0@
        } else {
            "Failed to parse generations: "@ + content->Ok_0->Err_0@
        }),
{
    if !file_exists {
        return Ok(Vec::new());
    }
    match content {
        Ok(parsed) => match parsed {
            Ok(records) => Ok(records),
            Err(e) => Err(String::from_str("Failed to parse generations: ").concat(e.as_str())),
        },
        Err(e) => Err(String::from_str("Failed to read generations file: ").concat(e.as_str())),
    }
}

/// The caller's text when the history file cannot be written.
pub fn write_failure_text(oserr: &str) -> (r: String)
    ensures
        r@ == "Failed to write generations file: "@ + oserr@,
{
    String::from_str("Failed to write generations file: ").concat(oserr)
}

/// The caller's text when the history cannot be serialized.
pub fn serialize_failure_text(err: &str) -> (r: String)
    ensures
        r@ == "Failed to serialize generations: "@ + err@,
{
    String::from_str("Failed to serialize generations: ").concat(err)
}

/// The caller's text when the history file cannot be cleared.
pub fn clear_failure_text(oserr: &str) -> (r: String)
    ensures
        r@ == "Failed to clear generations: "@ + oserr@,
{
    String::from_str("Failed to clear generations: ").concat(oserr)
}

} // verus!
