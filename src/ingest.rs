//! The polling worker that brings new images into the vector index.
//!
//! The worker is a state machine: the caller performs each [`Action`] (list
//! the directory, read a file, ask for an embedding, upsert a point, wait)
//! and hands the outcome back as an [`Event`]. A name is committed only after
//! its upsert succeeded; any failure leaves it to be tried on the next tick.
use vstd::prelude::*;
use vstd::utf8::encode_utf8;
use base64::Engine;
use crate::tracker::Tracker;

verus! {

/// The padded, standard-alphabet base64 text of a byte string.
pub uninterp spec fn b64_standard_of(b: Seq<u8>) -> Seq<char>;

/// The hyphenated lower-case text of the version-5 UUID of a byte string in
/// the URL namespace.
pub uninterp spec fn url_uuid_v5_of(name: Seq<u8>) -> Seq<char>;

/// Relies on base64's `STANDARD` engine `encode`: standard base64 with padding.
#[verifier::external_body]
fn standard_base64(b: &[u8]) -> (r: String)
    ensures
        r@ == b64_standard_of(b@),
{
    base64::engine::general_purpose::STANDARD.encode(b)
}

/// Relies on uuid's `Uuid::new_v5` over `Uuid::NAMESPACE_URL` and the UTF-8
/// bytes of the name, shown through its hyphenated `Display`.
#[verifier::external_body]
fn url_uuid_v5(name: &str) -> (r: String)
    ensures
        r@ == url_uuid_v5_of(encode_utf8(name@)),
{
    uuid::Uuid::new_v5(&uuid::Uuid::NAMESPACE_URL, name.as_bytes()).to_string()
}

/// The index point identifier of an image: a function of its file name alone.
pub open spec fn point_id_of(file_name: Seq<char>) -> Seq<char> {
    url_uuid_v5_of(encode_utf8(file_name))
}

/// The identifier under which the image named `file_name` is upserted.
pub fn point_id(file_name: &String) -> (r: String)
    ensures
        r@ == point_id_of(file_name@),
{
    url_uuid_v5(file_name.as_str())
}

/// The text sent to the embedding service for an image's bytes.
pub fn image_base64(bytes: &Vec<u8>) -> (r: String)
    ensures
        r@ == b64_standard_of(bytes@),
{
    standard_base64(bytes.as_slice())
}

/// The views of a list of names.
pub open spec fn names_view(v: Seq<String>) -> Seq<Seq<char>> {
    v.map_values(|s: String| s@)
}

/// Whether the collection `name` must be created, given the names of the
/// collections that exist.
pub fn needs_collection(existing: &Vec<String>, name: &String) -> (r: bool)
    ensures
        r == !names_view(existing@).contains(name@),
{
    let mut i: usize = 0;
    while i < existing.len()
        invariant
            i <= existing@.len(),
            forall|j: int| 0 <= j < i ==> existing@[j]@ != name@,
        decreases existing@.len() - i,
    {
        if existing[i] == *name {
            assert(names_view(existing@)[i as int] == name@);
            return false;
        }
        i = i + 1;
    }
    assert(!names_view(existing@).contains(name@)) by {
        if names_view(existing@).contains(name@) {
            let j = choose|j: int| 0 <= j < names_view(existing@).len() && names_view(existing@)[j] == name@;
            assert(existing@[j]@ == name@);
        }
    }
    true
}

/// Where the worker stands within a tick.
enum Stage {
    Idle,
    Listing,
    Reading(String),
    Embedding(String),
    Upserting(String),
    Stopped,
}

/// A stage over the views of the names it holds.
pub enum StageView {
    Idle,
    Listing,
    Reading(Seq<char>),
    Embedding(Seq<char>),
    Upserting(Seq<char>),
    Stopped,
}

impl View for Stage {
    type V = StageView;

    closed spec fn view(&self) -> StageView {
        match self {
            Stage::Idle => StageView::Idle,
            Stage::Listing => StageView::Listing,
            Stage::Reading(n) => StageView::Reading(n@),
            Stage::Embedding(n) => StageView::Embedding(n@),
            Stage::Upserting(n) => StageView::Upserting(n@),
            Stage::Stopped => StageView::Stopped,
        }
    }
}

/// What the caller reports back to the worker.
pub enum Event {
    /// The polling interval elapsed.
    TimerFired,
    /// A shutdown signal arrived.
    ShutdownRequested,
    /// The source directory lists these file names.
    Listed(Vec<String>),
    /// The source directory could not be listed.
    ListFailed,
    /// The file asked for was read.
    ReadDone(Vec<u8>),
    /// The file asked for could not be read.
    ReadFailed,
    /// The embedding service returned a vector, which the caller keeps.
    EmbedDone,
    /// The embedding service call failed or its answer held no vector.
    EmbedFailed,
    /// The index confirmed the upsert.
    UpsertDone,
    /// The upsert failed.
    UpsertFailed,
}

pub enum EventView {
    TimerFired,
    ShutdownRequested,
    Listed(Seq<Seq<char>>),
    ListFailed,
    ReadDone(Seq<u8>),
    ReadFailed,
    EmbedDone,
    EmbedFailed,
    UpsertDone,
    UpsertFailed,
}

impl View for Event {
    type V = EventView;

    open spec fn view(&self) -> EventView {
        match self {
            Event::TimerFired => EventView::TimerFired,
            Event::ShutdownRequested => EventView::ShutdownRequested,
            Event::Listed(names) => EventView::Listed(names_view(names@)),
            Event::ListFailed => EventView::ListFailed,
            Event::ReadDone(bytes) => EventView::ReadDone(bytes@),
            Event::ReadFailed => EventView::ReadFailed,
            Event::EmbedDone => EventView::EmbedDone,
            Event::EmbedFailed => EventView::EmbedFailed,
            Event::UpsertDone => EventView::UpsertDone,
            Event::UpsertFailed => EventView::UpsertFailed,
        }
    }
}

/// What the worker asks the caller to do next.
pub enum Action {
    /// Wait for the next tick or for a shutdown signal.
    Sleep,
    /// List the source directory.
    ListDirectory,
    /// Read the named file.
    ReadFile(String),
    /// Ask the embedding service for the vector of this base64 image.
    RequestEmbedding { file_name: String, image_base64: String },
    /// Upsert the vector just obtained under `point_id`, with the file name
    /// as payload, and wait until the index has stored it.
    Upsert { file_name: String, point_id: String },
    /// Leave the loop.
    Stop,
}

pub enum ActionView {
    Sleep,
    ListDirectory,
    ReadFile(Seq<char>),
    RequestEmbedding(Seq<char>, Seq<char>),
    Upsert(Seq<char>, Seq<char>),
    Stop,
}

impl View for Action {
    type V = ActionView;

    open spec fn view(&self) -> ActionView {
        match self {
            Action::Sleep => ActionView::Sleep,
            Action::ListDirectory => ActionView::ListDirectory,
            Action::ReadFile(n) => ActionView::ReadFile(n@),
            Action::RequestEmbedding { file_name, image_base64 } => ActionView::RequestEmbedding(
                file_name@,
                image_base64@,
            ),
            Action::Upsert { file_name, point_id } => ActionView::Upsert(file_name@, point_id@),
            Action::Stop => ActionView::Stop,
        }
    }
}

/// The worker's state: its stage, the names left for this tick, and the
/// names committed so far.
pub struct WorkerView {
    pub stage: StageView,
    pub queue: Seq<Seq<char>>,
    pub committed: Set<Seq<char>>,
}

/// The names of a listing that are not committed, in listing order.
pub open spec fn pending(committed: Set<Seq<char>>, listing: Seq<Seq<char>>) -> Seq<Seq<char>> {
    listing.filter(|n: Seq<char>| !committed.contains(n))
}

/// Takes the next queued name, or goes back to waiting when none is left.
pub open spec fn advance(committed: Set<Seq<char>>, queue: Seq<Seq<char>>) -> (WorkerView, ActionView) {
    if queue.len() > 0 {
        (
            WorkerView { stage: StageView::Reading(queue[0]), queue: queue.drop_first(), committed },
            ActionView::ReadFile(queue[0]),
        )
    } else {
        (WorkerView { stage: StageView::Idle, queue: queue, committed }, ActionView::Sleep)
    }
}

/// The worker's transitions; `None` where the event does not belong to the
/// current stage, which leaves the worker as it was.
pub open spec fn transition(w: WorkerView, e: EventView) -> Option<(WorkerView, ActionView)> {
    match e {
        EventView::ShutdownRequested => if w.stage is Stopped {
            None
        } else {
            Some((WorkerView { stage: StageView::Stopped, ..w }, ActionView::Stop))
        },
        EventView::TimerFired => if w.stage is Idle {
            Some((WorkerView { stage: StageView::Listing, ..w }, ActionView::ListDirectory))
        } else {
            None
        },
        EventView::Listed(names) => if w.stage is Listing {
            Some(advance(w.committed, pending(w.committed, names)))
        } else {
            None
        },
        EventView::ListFailed => if w.stage is Listing {
            Some(advance(w.committed, Seq::empty()))
        } else {
            None
        },
        EventView::ReadDone(bytes) => match w.stage {
            StageView::Reading(n) => Some(
                (
                    WorkerView { stage: StageView::Embedding(n), ..w },
                    ActionView::RequestEmbedding(n, b64_standard_of(bytes)),
                ),
            ),
            _ => None,
        },
        EventView::ReadFailed => if w.stage is Reading {
            Some(advance(w.committed, w.queue))
        } else {
            None
        },
        EventView::EmbedDone => match w.stage {
            StageView::Embedding(n) => Some(
                (
                    WorkerView { stage: StageView::Upserting(n), ..w },
                    ActionView::Upsert(n, point_id_of(n)),
                ),
            ),
            _ => None,
        },
        EventView::EmbedFailed => if w.stage is Embedding {
            Some(advance(w.committed, w.queue))
        } else {
            None
        },
        EventView::UpsertDone => match w.stage {
            StageView::Upserting(n) => Some(advance(w.committed.insert(n), w.queue)),
            _ => None,
        },
        EventView::UpsertFailed => if w.stage is Upserting {
            Some(advance(w.committed, w.queue))
        } else {
            None
        },
    }
}

/// The ingestion worker of one process.
pub struct Worker {
    stage: Stage,
    queue: Vec<String>,
    tracker: Tracker,
}

impl View for Worker {
    type V = WorkerView;

    closed spec fn view(&self) -> WorkerView {
        WorkerView {
            stage: self.stage@,
            queue: names_view(self.queue@),
            committed: self.tracker@,
        }
    }
}

impl Worker {
    /// A worker waiting for its first tick, with nothing committed.
    pub fn new() -> (r: Worker)
        ensures
            r@ == (WorkerView {
                stage: StageView::Idle,
                queue: Seq::empty(),
                committed: Set::empty(),
            }),
    {
        let r = Worker { stage: Stage::Idle, queue: Vec::new(), tracker: Tracker::new() };
        assert(r@.queue =~= Seq::empty());
        r
    }

    /// Whether `name` has been committed to the index.
    pub fn is_committed(&self, name: &String) -> (r: bool)
        ensures
            r == self@.committed.contains(name@),
    {
        self.tracker.is_committed(name)
    }

    /// Whether the worker has left its loop.
    pub fn is_stopped(&self) -> (r: bool)
        ensures
            r == (self@.stage is Stopped),
    {
        matches!(self.stage, Stage::Stopped)
    }

    /// The names of `listing` that are not committed, in order.
    fn pending_names(&self, listing: Vec<String>) -> (r: Vec<String>)
        ensures
            names_view(r@) == pending(self.tracker@, names_view(listing@)),
    {
        let ghost c = self.tracker@;
        let ghost lv = names_view(listing@);
        let mut out: Vec<String> = Vec::new();
        assert(pending(c, lv.take(0)) =~= Seq::empty()) by {
            reveal(Seq::filter);
        }
        assert(names_view(out@) =~= Seq::empty());
        let mut i: usize = 0;
        while i < listing.len()
            invariant
                i <= listing@.len(),
                c == self.tracker@,
                lv == names_view(listing@),
                names_view(out@) == pending(c, lv.take(i as int)),
            decreases listing@.len() - i,
        {
            assert(lv.take(i as int + 1).drop_last() =~= lv.take(i as int));
            assert(lv.take(i as int + 1).last() == listing@[i as int]@);
            let ghost x = listing@[i as int]@;
            assert(pending(c, lv.take(i as int + 1)) == if !c.contains(x) {
                pending(c, lv.take(i as int)).push(x)
            } else {
                pending(c, lv.take(i as int))
            }) by {
                reveal(Seq::filter);
            }
            if !self.tracker.is_committed(&listing[i]) {
                let ghost before = out@;
                out.push(listing[i].clone());
                assert(names_view(out@) =~= names_view(before).push(listing@[i as int]@));
            }
            i = i + 1;
        }
        assert(lv.take(listing@.len() as int) =~= lv);
        out
    }

    /// Moves to the next queued name, or back to waiting.
    fn advance(&mut self) -> (r: Action)
        ensures
            (final(self)@, r@) == advance(old(self)@.committed, old(self)@.queue),
    {
        if self.queue.len() > 0 {
            let ghost before = self.queue@;
            let n = self.queue.remove(0);
            assert(names_view(self.queue@) =~= names_view(before).drop_first());
            self.stage = Stage::Reading(n.clone());
            Action::ReadFile(n)
        } else {
            self.stage = Stage::Idle;
            Action::Sleep
        }
    }

    /// Takes the outcome of the last action and decides the next one.
    ///
    /// An event that does not belong to the current stage is refused with
    /// `None` and changes nothing.
    pub fn step(&mut self, event: Event) -> (r: Option<Action>)
        ensures
            match transition(old(self)@, event@) {
                Some((w, a)) => final(self)@ == w && r is Some && r->0@ == a,
                None => final(self)@ == old(self)@ && r is None,
            },
    {
        match event {
            Event::ShutdownRequested => {
                if matches!(self.stage, Stage::Stopped) {
                    None
                } else {
                    self.stage = Stage::Stopped;
                    Some(Action::Stop)
                }
            },
            Event::TimerFired => {
                if matches!(self.stage, Stage::Idle) {
                    self.stage = Stage::Listing;
                    Some(Action::ListDirectory)
                } else {
                    None
                }
            },
            Event::Listed(names) => {
                if matches!(self.stage, Stage::Listing) {
                    self.queue = self.pending_names(names);
                    Some(self.advance())
                } else {
                    None
                }
            },
            Event::ListFailed => {
                if matches!(self.stage, Stage::Listing) {
                    self.queue = Vec::new();
                    assert(names_view(self.queue@) =~= Seq::empty());
                    Some(self.advance())
                } else {
                    None
                }
            },
            Event::ReadDone(bytes) => {
                match &self.stage {
                    Stage::Reading(n) => {
                        let file_name = n.clone();
                        let image_base64 = image_base64(&bytes);
                        self.stage = Stage::Embedding(file_name.clone());
                        Some(Action::RequestEmbedding { file_name, image_base64 })
                    },
                    _ => None,
                }
            },
            Event::EmbedDone => {
                match &self.stage {
                    Stage::Embedding(n) => {
                        let file_name = n.clone();
                        let point_id = point_id(&file_name);
                        self.stage = Stage::Upserting(file_name.clone());
                        Some(Action::Upsert { file_name, point_id })
                    },
                    _ => None,
                }
            },
            Event::UpsertDone => {
                match &self.stage {
                    Stage::Upserting(n) => {
                        let file_name = n.clone();
                        self.tracker.mark_committed(file_name);
                        Some(self.advance())
                    },
                    _ => None,
                }
            },
            Event::ReadFailed => {
                if matches!(self.stage, Stage::Reading(_)) {
                    Some(self.advance())
                } else {
                    None
                }
            },
            Event::EmbedFailed => {
                if matches!(self.stage, Stage::Embedding(_)) {
                    Some(self.advance())
                } else {
                    None
                }
            },
            Event::UpsertFailed => {
                if matches!(self.stage, Stage::Upserting(_)) {
                    Some(self.advance())
                } else {
                    None
                }
            },
        }
    }
}

/// The name a stage is working on, if any.
pub open spec fn in_flight(s: StageView) -> Option<Seq<char>> {
    match s {
        StageView::Reading(n) => Some(n),
        StageView::Embedding(n) => Some(n),
        StageView::Upserting(n) => Some(n),
        _ => None,
    }
}

/// The name an action concerns, if any.
pub open spec fn action_name(a: ActionView) -> Option<Seq<char>> {
    match a {
        ActionView::ReadFile(n) => Some(n),
        ActionView::RequestEmbedding(n, _) => Some(n),
        ActionView::Upsert(n, _) => Some(n),
        _ => None,
    }
}

/// `n` is committed and neither queued nor in flight.
pub open spec fn settled(w: WorkerView, n: Seq<char>) -> bool {
    &&& w.committed.contains(n)
    &&& !w.queue.contains(n)
    &&& in_flight(w.stage) != Some(n)
}

proof fn pending_excludes_committed(committed: Set<Seq<char>>, names: Seq<Seq<char>>, n: Seq<char>)
    requires
        committed.contains(n),
    ensures
        !pending(committed, names).contains(n),
{
    let p = |m: Seq<char>| !committed.contains(m);
    if names.filter(p).contains(n) {
        names.lemma_filter_contains_rev(p, n);
    }
}

proof fn advance_keeps_settled(committed: Set<Seq<char>>, queue: Seq<Seq<char>>, n: Seq<char>)
    requires
        committed.contains(n),
        !queue.contains(n),
    ensures
        settled(advance(committed, queue).0, n),
        action_name(advance(committed, queue).1) != Some(n),
{
    if queue.len() > 0 {
        assert(queue[0] != n);
        if queue.drop_first().contains(n) {
            let j = choose|j: int| 0 <= j < queue.drop_first().len() && queue.drop_first()[j] == n;
            assert(queue[j + 1] == n);
        }
    }
}

/// Once a tick starts with a name committed, the worker never reads, embeds
/// or upserts that name again: the listing does not queue it, and no later
/// transition brings it back.
pub proof fn listing_settles_committed(w: WorkerView, names: Seq<Seq<char>>, n: Seq<char>)
    requires
        w.stage is Listing,
        w.committed.contains(n),
    ensures
        transition(w, EventView::Listed(names)) is Some,
        settled((transition(w, EventView::Listed(names))->0).0, n),
        action_name((transition(w, EventView::Listed(names))->0).1) != Some(n),
{
    pending_excludes_committed(w.committed, names, n);
    advance_keeps_settled(w.committed, pending(w.committed, names), n);
}

/// A settled name stays settled through every transition, and no action the
/// worker asks for concerns it.
pub proof fn settled_stays_settled(w: WorkerView, e: EventView, n: Seq<char>)
    requires
        settled(w, n),
        transition(w, e) is Some,
    ensures
        settled((transition(w, e)->0).0, n),
        action_name((transition(w, e)->0).1) != Some(n),
{
    match e {
        EventView::Listed(names) => listing_settles_committed(w, names, n),
        EventView::ListFailed => advance_keeps_settled(w.committed, Seq::empty(), n),
        EventView::ReadFailed => advance_keeps_settled(w.committed, w.queue, n),
        EventView::EmbedFailed => advance_keeps_settled(w.committed, w.queue, n),
        EventView::UpsertFailed => advance_keeps_settled(w.committed, w.queue, n),
        EventView::UpsertDone => {
            let m = in_flight(w.stage)->0;
            advance_keeps_settled(w.committed.insert(m), w.queue, n);
        },
        _ => {},
    }
}

/// A failed embedding commits nothing: the name stays uncommitted, and the
/// next listing that holds it queues it again.
pub proof fn failed_embedding_is_retried(w: WorkerView, n: Seq<char>, names: Seq<Seq<char>>)
    requires
        w.stage == StageView::Embedding(n),
        !w.committed.contains(n),
        names.contains(n),
    ensures
        transition(w, EventView::EmbedFailed) is Some,
        (transition(w, EventView::EmbedFailed)->0).0.committed == w.committed,
        pending((transition(w, EventView::EmbedFailed)->0).0.committed, names).contains(n),
{
    let p = |m: Seq<char>| !w.committed.contains(m);
    let i = choose|i: int| 0 <= i < names.len() && names[i] == n;
    names.lemma_filter_contains(p, i);
}

/// The index seen as a map from point identifier to the file name in the
/// point's payload.
pub open spec fn upserted(index: Map<Seq<char>, Seq<char>>, file_name: Seq<char>) -> Map<Seq<char>, Seq<char>> {
    index.insert(point_id_of(file_name), file_name)
}

/// Upserting an image's point twice leaves the same index as upserting it
/// once: one point under the image's identifier, holding the latest payload.
pub proof fn upsert_is_idempotent(index: Map<Seq<char>, Seq<char>>, file_name: Seq<char>)
    ensures
        upserted(upserted(index, file_name), file_name) == upserted(index, file_name),
        upserted(index, file_name).dom() == index.dom().insert(point_id_of(file_name)),
        upserted(index, file_name)[point_id_of(file_name)] == file_name,
{
    assert(upserted(upserted(index, file_name), file_name) =~= upserted(index, file_name));
    assert(upserted(index, file_name).dom() =~= index.dom().insert(point_id_of(file_name)));
}

} // verus!
