//! The terminal registry: terminal ids mapped to records that may hold an
//! attached duplex byte stream, with the notifications that each operation
//! produces for the presentation layer.
//!
//! Operations queue their notifications; the owner takes them with
//! `take_events` once it no longer holds the registry, so that observers are
//! never called under the registry's lock.
use crate::error::{prefixed, AppError};
use crate::keyed::{
    keyed_map, keys_unique, lemma_keyed_contains, lemma_keyed_index, lemma_keyed_push, lemma_keyed_remove,
    lemma_keyed_update,
};
use std::time::Instant;
use vstd::prelude::*;
use vstd::string::*;
use vstd::utf8::*;

verus! {

broadcast use vstd::string::to_string_from_display_ensures_for_str;

/// Age, in milliseconds, that a terminal must reach before it is destroyed at once.
pub const DESTROY_GRACE_MS: u64 = 1000;

/// Largest number of bytes that the read pump takes from a stream at a time.
pub const READ_CHUNK: usize = 1024;

/// A duplex byte stream that a terminal can be attached to: a remote shell
/// channel, a local pseudo-terminal, or an in-memory stand-in.
///
/// A stream may keep a record of what passed through it: the bytes that
/// writes accepted, how many of them a flush pushed out, the bytes that reads
/// returned, and the window size last asked for. The streams of this library
/// keep it (`records()` holds); one that does not promises nothing of it.
pub trait TerminalStream: Sized {
    /// Whether this stream keeps the record.
    open spec fn records(&self) -> bool {
        false
    }

    /// Every byte that writes have accepted, in order.
    open spec fn written(&self) -> Seq<u8> {
        Seq::empty()
    }

    /// How many of the written bytes have been flushed.
    open spec fn flushed(&self) -> nat {
        0
    }

    /// Every byte that reads have returned, in order.
    open spec fn received(&self) -> Seq<u8> {
        Seq::empty()
    }

    /// The window size last asked for, as (rows, columns).
    open spec fn window_asked(&self) -> Option<(u16, u16)> {
        None
    }

    /// Reads at most `max` bytes; an empty result means that the stream has ended.
    fn read_chunk(&mut self, max: usize) -> (r: Result<Vec<u8>, String>)
        ensures
            r matches Ok(v) ==> v@.len() <= max,
            final(self).records() == old(self).records(),
            old(self).records() ==> {
                &&& r matches Ok(v) ==> final(self).received() == old(self).received() + v@
                &&& r is Err ==> final(self).received() == old(self).received()
                &&& final(self).written() == old(self).written()
                &&& final(self).flushed() == old(self).flushed()
                &&& final(self).window_asked() == old(self).window_asked()
            },
    ;

    /// Writes all of `data`.
    fn write_all(&mut self, data: &[u8]) -> (r: Result<(), String>)
        ensures
            final(self).records() == old(self).records(),
            old(self).records() ==> {
                &&& r is Ok ==> final(self).written() == old(self).written() + data@
                &&& r is Ok ==> final(self).flushed() == old(self).flushed()
                &&& final(self).received() == old(self).received()
                &&& final(self).window_asked() == old(self).window_asked()
            },
    ;

    /// Pushes out what has been written.
    fn flush(&mut self) -> (r: Result<(), String>)
        ensures
            final(self).records() == old(self).records(),
            old(self).records() ==> {
                &&& final(self).written() == old(self).written()
                &&& r is Ok ==> final(self).flushed() == final(self).written().len()
                &&& final(self).received() == old(self).received()
                &&& final(self).window_asked() == old(self).window_asked()
            },
    ;

    /// Asks the other end for a new window size, in character cells.
    fn set_window_size(&mut self, rows: u16, cols: u16) -> (r: Result<(), String>)
        ensures
            final(self).records() == old(self).records(),
            old(self).records() ==> {
                &&& final(self).window_asked() == Some((rows, cols))
                &&& final(self).written() == old(self).written()
                &&& final(self).flushed() == old(self).flushed()
                &&& final(self).received() == old(self).received()
            },
    ;
}

#[verifier::external_type_specification]
#[verifier::external_body]
pub struct ExInstant(Instant);

/// Relies on `Instant::now`: a reading of the monotonic clock.
#[verifier::external_body]
fn clock_start() -> (r: Instant) {
    Instant::now()
}

/// Relies on `Instant::elapsed` and `Duration::as_millis`: the milliseconds
/// since `epoch`, which fit in a `u64` for over 500 million years.
#[verifier::external_body]
fn millis_since(epoch: &Instant) -> (r: u64) {
    epoch.elapsed().as_millis() as u64
}

/// Relies on `uuid::Uuid::new_v4` and the `Display` of `Uuid`: a random
/// identifier in its hyphenated text form (`Hyphenated::LENGTH`, 36 characters).
#[verifier::external_body]
pub(crate) fn random_uuid_text() -> (r: String)
    ensures
        r@.len() == 36,
{
    uuid::Uuid::new_v4().to_string()
}

/// What `String::from_utf8_lossy` makes of bytes that are not valid UTF-8.
pub uninterp spec fn lossy_utf8(b: Seq<u8>) -> Seq<char>;

/// Relies on `String::from_utf8_lossy`: valid UTF-8 is decoded as it is; in
/// other bytes each invalid sequence becomes a replacement character, which
/// depends on the bytes alone.
#[verifier::external_body]
fn decode_lossy(b: &[u8]) -> (r: String)
    ensures
        r@ == lossy_utf8(b@),
        valid_utf8(b@) ==> r@ == decode_utf8(b@),
{
    String::from_utf8_lossy(b).into_owned()
}

/// The text that the read pump forwards for a chunk of bytes.
pub open spec fn chunk_text(b: Seq<u8>) -> Seq<char> {
    if valid_utf8(b) {
        decode_utf8(b)
    } else {
        lossy_utf8(b)
    }
}

/// The id given to a terminal made with random part `uuid` for `session_id`.
pub open spec fn terminal_id_text(uuid: Seq<char>, session_id: Seq<char>) -> Seq<char> {
    "terminal-"@ + uuid + "-"@ + session_id
}

/// What the registry knows of one terminal.
pub struct TerminalState {
    pub created_at: u64,
    pub attached: bool,
}

/// Whether a terminal may be destroyed at time `now` (both in milliseconds of
/// the registry's clock).
pub open spec fn destroy_allowed(t: TerminalState, now: u64) -> bool {
    now >= t.created_at && now - t.created_at >= DESTROY_GRACE_MS
}

/// The registry after a terminal `id` is made at time `now`.
pub open spec fn after_create(m: Map<Seq<char>, TerminalState>, id: Seq<char>, now: u64) -> Map<
    Seq<char>,
    TerminalState,
> {
    m.insert(id, TerminalState { created_at: now, attached: false })
}

/// Whether a stream can be attached to `id`: it exists and has none yet.
pub open spec fn attach_accepted(m: Map<Seq<char>, TerminalState>, id: Seq<char>) -> bool {
    m.contains_key(id) && !m[id].attached
}

/// The registry after a stream is offered to `id`.
pub open spec fn after_attach(m: Map<Seq<char>, TerminalState>, id: Seq<char>) -> Map<
    Seq<char>,
    TerminalState,
> {
    if attach_accepted(m, id) {
        m.insert(id, TerminalState { created_at: m[id].created_at, attached: true })
    } else {
        m
    }
}

/// Whether `id` exists and has a stream to write to.
pub open spec fn stream_ready(m: Map<Seq<char>, TerminalState>, id: Seq<char>) -> bool {
    m.contains_key(id) && m[id].attached
}

/// Whether `id` is destroyed when asked at time `now`.
pub open spec fn destroy_accepted(m: Map<Seq<char>, TerminalState>, id: Seq<char>, now: u64) -> bool {
    m.contains_key(id) && destroy_allowed(m[id], now)
}

/// The registry after `id` is asked to be destroyed at time `now`.
pub open spec fn after_destroy(m: Map<Seq<char>, TerminalState>, id: Seq<char>, now: u64) -> Map<
    Seq<char>,
    TerminalState,
> {
    if destroy_accepted(m, id, now) {
        m.remove(id)
    } else {
        m
    }
}

/// A notification for the presentation layer.
pub enum TerminalEvent {
    Created { terminal_id: String, session_id: String },
    Data { terminal_id: String, data: String },
    Error { terminal_id: String, error: String },
    Destroyed { terminal_id: String },
    StreamClosed { terminal_id: String },
}

/// A notification, with its texts as sequences of characters.
pub enum EventView {
    Created(Seq<char>, Seq<char>),
    Data(Seq<char>, Seq<char>),
    Error(Seq<char>, Seq<char>),
    Destroyed(Seq<char>),
    StreamClosed(Seq<char>),
}

impl View for TerminalEvent {
    type V = EventView;

    open spec fn view(&self) -> EventView {
        match self {
            TerminalEvent::Created { terminal_id, session_id } => EventView::Created(
                terminal_id@,
                session_id@,
            ),
            TerminalEvent::Data { terminal_id, data } => EventView::Data(terminal_id@, data@),
            TerminalEvent::Error { terminal_id, error } => EventView::Error(terminal_id@, error@),
            TerminalEvent::Destroyed { terminal_id } => EventView::Destroyed(terminal_id@),
            TerminalEvent::StreamClosed { terminal_id } => EventView::StreamClosed(terminal_id@),
        }
    }
}

impl TerminalEvent {
    /// The channel that the notification is published on.
    pub fn channel(&self) -> (r: &'static str)
        ensures
            r@ == match self@ {
                EventView::Created(_, _) => "terminal:created"@,
                EventView::Data(_, _) => "terminal:send:data"@,
                EventView::Error(_, _) => "terminal:error"@,
                EventView::Destroyed(_) => "terminal:destroyed"@,
                EventView::StreamClosed(_) => "terminal:stream:closed"@,
            },
    {
        match self {
            TerminalEvent::Created { .. } => "terminal:created",
            TerminalEvent::Data { .. } => "terminal:send:data",
            TerminalEvent::Error { .. } => "terminal:error",
            TerminalEvent::Destroyed { .. } => "terminal:destroyed",
            TerminalEvent::StreamClosed { .. } => "terminal:stream:closed",
        }
    }
}

/// One terminal: its id, when it was made, and the stream once attached.
pub struct Terminal<S> {
    id: String,
    created_at: u64,
    stream: Option<S>,
}

impl<S> Terminal<S> {
    pub closed spec fn entry(&self) -> (Seq<char>, TerminalState) {
        (self.id@, TerminalState { created_at: self.created_at, attached: self.stream is Some })
    }

    pub closed spec fn slot(&self) -> (Seq<char>, Option<S>) {
        (self.id@, self.stream)
    }
}

/// The registry of terminals.
pub struct TerminalManager<S> {
    terminals: Vec<Terminal<S>>,
    events: Vec<TerminalEvent>,
    epoch: Instant,
}

pub open spec fn event_views(s: Seq<TerminalEvent>) -> Seq<EventView> {
    s.map_values(|e: TerminalEvent| e@)
}

/// The stream in a slot that holds one.
pub open spec fn held<S>(slot: Option<S>) -> S {
    slot->Some_0
}

/// `s1` is `s0` after `bytes` were written and then flushed.
pub open spec fn sent_and_flushed<S: TerminalStream>(s0: S, s1: S, bytes: Seq<u8>) -> bool {
    &&& s1.written() == s0.written() + bytes
    &&& s1.flushed() == s1.written().len()
    &&& s1.received() == s0.received()
    &&& s1.window_asked() == s0.window_asked()
}

/// `s1` is `s0` with nothing more read and the same window asked.
pub open spec fn input_kept<S: TerminalStream>(s0: S, s1: S) -> bool {
    s1.received() == s0.received() && s1.window_asked() == s0.window_asked()
}

/// `s1` is `s0` after a window of `rows` by `cols` cells was asked for.
pub open spec fn window_resized<S: TerminalStream>(s0: S, s1: S, rows: u16, cols: u16) -> bool {
    &&& s1.window_asked() == Some((rows, cols))
    &&& s1.written() == s0.written()
    &&& s1.flushed() == s0.flushed()
    &&& s1.received() == s0.received()
}

/// `s1` is `s0` after a read with this outcome.
pub open spec fn after_read<S: TerminalStream>(s0: S, s1: S, read: Result<Vec<u8>, String>) -> bool {
    &&& match read {
        Ok(b) => s1.received() == s0.received() + b@,
        Err(_) => s1.received() == s0.received(),
    }
    &&& s1.written() == s0.written()
    &&& s1.flushed() == s0.flushed()
    &&& s1.window_asked() == s0.window_asked()
}

impl<S> View for TerminalManager<S> {
    type V = Map<Seq<char>, TerminalState>;

    closed spec fn view(&self) -> Map<Seq<char>, TerminalState> {
        keyed_map(self.entries())
    }
}

impl<S> TerminalManager<S> {
    pub closed spec fn entries(&self) -> Seq<(Seq<char>, TerminalState)> {
        self.terminals@.map_values(|t: Terminal<S>| t.entry())
    }

    pub closed spec fn slots(&self) -> Seq<(Seq<char>, Option<S>)> {
        self.terminals@.map_values(|t: Terminal<S>| t.slot())
    }

    /// The stream of each terminal, `None` until one is attached.
    pub closed spec fn streams(&self) -> Map<Seq<char>, Option<S>> {
        keyed_map(self.slots())
    }

    /// The registry is well formed: no id occurs twice.
    pub closed spec fn wf(&self) -> bool {
        keys_unique(self.entries())
    }

    /// The notifications queued and not yet taken, oldest first.
    pub closed spec fn log(&self) -> Seq<EventView> {
        event_views(self.events@)
    }

    /// The streams are known for exactly the terminals of the registry, and
    /// a terminal has one exactly when it is attached.
    pub proof fn lemma_streams(&self)
        requires
            self.wf(),
        ensures
            keys_unique(self.slots()),
            self.streams().dom() == self@.dom(),
            forall|k: Seq<char>| #[trigger]
                self@.contains_key(k) ==> (self.streams()[k] is Some) == self@[k].attached,
    {
        let e = self.entries();
        let t = self.slots();
        assert forall|i: int, j: int|
            0 <= i < t.len() && 0 <= j < t.len() && i != j implies #[trigger] t[i].0
            != #[trigger] t[j].0 by {
            assert(t[i].0 == e[i].0 && t[j].0 == e[j].0);
        }
        assert forall|k: Seq<char>| self.streams().contains_key(k) <==> self@.contains_key(k) by {
            lemma_keyed_contains(e, k);
            lemma_keyed_contains(t, k);
            if self@.contains_key(k) {
                let i = choose|i: int| 0 <= i < e.len() && #[trigger] e[i].0 == k;
                assert(t[i].0 == k);
            }
            if self.streams().contains_key(k) {
                let i = choose|i: int| 0 <= i < t.len() && #[trigger] t[i].0 == k;
                assert(e[i].0 == k);
            }
        }
        assert(self.streams().dom() =~= self@.dom());
        assert forall|k: Seq<char>| #[trigger]
            self@.contains_key(k) implies (self.streams()[k] is Some) == self@[k].attached by {
            lemma_keyed_contains(e, k);
            let i = choose|i: int| 0 <= i < e.len() && #[trigger] e[i].0 == k;
            lemma_keyed_index(e, i);
            lemma_keyed_index(t, i);
        }
    }
}

impl<S: TerminalStream> TerminalManager<S> {
    /// An empty registry whose clock starts now.
    pub fn new() -> (r: Self)
        ensures
            r.wf(),
            r@ == Map::<Seq<char>, TerminalState>::empty(),
            r.streams() == Map::<Seq<char>, Option<S>>::empty(),
            r.log() == Seq::<EventView>::empty(),
    {
        let r = TerminalManager { terminals: Vec::new(), events: Vec::new(), epoch: clock_start() };
        assert(r.entries() =~= Seq::empty());
        assert(r.slots() =~= Seq::empty());
        assert(r.log() =~= Seq::empty());
        r
    }

    /// Milliseconds on the registry's clock, which starts when the registry
    /// is made.
    pub fn clock_ms(&self) -> (r: u64) {
        millis_since(&self.epoch)
    }

    fn find(&self, id: &String) -> (r: Option<usize>)
        requires
            self.wf(),
        ensures
            match r {
                Some(i) => {
                    &&& i < self.terminals@.len()
                    &&& self.terminals@[i as int].id@ == id@
                    &&& self@.contains_key(id@)
                    &&& self@[id@] == self.terminals@[i as int].entry().1
                    &&& self.streams()[id@] == self.terminals@[i as int].stream
                },
                None => !self@.contains_key(id@),
            },
    {
        let mut i: usize = 0;
        while i < self.terminals.len()
            invariant
                self.wf(),
                i <= self.terminals@.len(),
                forall|j: int| 0 <= j < i ==> self.terminals@[j].id@ != id@,
            decreases self.terminals@.len() - i,
        {
            if self.terminals[i].id == *id {
                proof {
                    self.lemma_streams();
                    lemma_keyed_index(self.entries(), i as int);
                    lemma_keyed_index(self.slots(), i as int);
                }
                return Some(i);
            }
            i = i + 1;
        }
        proof {
            lemma_keyed_contains(self.entries(), id@);
            if self@.contains_key(id@) {
                let j = choose|j: int| 0 <= j < self.entries().len() && #[trigger] self.entries()[j].0 == id@;
                assert(self.terminals@[j].id@ == id@);
            }
        }
        None
    }

    /// Puts `stream` in the slot of the terminal at `i`, and returns what
    /// the slot held.
    fn set_slot(&mut self, i: usize, stream: Option<S>) -> (prev: Option<S>)
        requires
            old(self).wf(),
            i < old(self).terminals@.len(),
        ensures
            final(self).wf(),
            prev == old(self).terminals@[i as int].stream,
            final(self).terminals@.len() == old(self).terminals@.len(),
            final(self).terminals@[i as int].id == old(self).terminals@[i as int].id,
            final(self).terminals@[i as int].created_at == old(self).terminals@[i as int].created_at,
            final(self)@ == old(self)@.insert(
                old(self).terminals@[i as int].id@,
                TerminalState {
                    created_at: old(self).terminals@[i as int].created_at,
                    attached: stream is Some,
                },
            ),
            final(self).streams() == old(self).streams().insert(
                old(self).terminals@[i as int].id@,
                stream,
            ),
            final(self).log() == old(self).log(),
    {
        let ghost id = self.terminals@[i as int].id@;
        let ghost st = TerminalState {
            created_at: self.terminals@[i as int].created_at,
            attached: stream is Some,
        };
        proof {
            self.lemma_streams();
            lemma_keyed_update(self.entries(), i as int, st);
            lemma_keyed_update(self.slots(), i as int, stream);
        }
        let mut s = stream;
        std::mem::swap(&mut self.terminals[i].stream, &mut s);
        assert(self.entries() =~= old(self).entries().update(i as int, (id, st)));
        assert(self.slots() =~= old(self).slots().update(i as int, (id, stream)));
        s
    }

    fn emit(&mut self, e: TerminalEvent)
        ensures
            final(self).log() == old(self).log().push(e@),
            final(self).terminals == old(self).terminals,
            final(self).epoch == old(self).epoch,
    {
        self.events.push(e);
        assert(self.log() =~= old(self).log().push(e@));
    }

    /// Whether `terminal_id` names a terminal of the registry.
    pub fn has_terminal(&self, terminal_id: &str) -> (r: bool)
        requires
            self.wf(),
        ensures
            r == self@.contains_key(terminal_id@),
    {
        let id = terminal_id.to_string();
        self.find(&id).is_some()
    }

    /// The stream attached to a terminal, if it has one. A caller that can
    /// share the stream (a handle to it) may write through it without holding
    /// the registry, then report the outcome with `record_write`.
    pub fn stream_of(&self, terminal_id: &str) -> (r: Option<&S>)
        requires
            self.wf(),
        ensures
            r is Some <==> stream_ready(self@, terminal_id@),
            r matches Some(s) ==> *s == held(self.streams()[terminal_id@]),
    {
        let id = terminal_id.to_string();
        match self.find(&id) {
            Some(i) => self.terminals[i].stream.as_ref(),
            None => None,
        }
    }

    /// Hands over the queued notifications, oldest first.
    pub fn take_events(&mut self) -> (r: Vec<TerminalEvent>)
        requires
            old(self).wf(),
        ensures
            final(self).wf(),
            final(self)@ == old(self)@,
            final(self).streams() == old(self).streams(),
            event_views(r@) == old(self).log(),
            final(self).log() == Seq::<EventView>::empty(),
    {
        let mut r = Vec::new();
        std::mem::swap(&mut r, &mut self.events);
        assert(self.log() =~= Seq::empty());
        r
    }

    /// Makes a terminal for `session_id` with a fresh random id, queues its
    /// creation notice and returns the id.
    pub fn create_terminal(&mut self, session_id: &str) -> (r: String)
        requires
            old(self).wf(),
        ensures
            final(self).wf(),
            exists|u: Seq<char>| r@ == terminal_id_text(u, session_id@),
            final(self)@.dom() == old(self)@.dom().insert(r@),
            !final(self)@[r@].attached,
            forall|k: Seq<char>| k != r@ && old(self)@.contains_key(k) ==> final(self)@[k] == old(
                self,
            )@[k],
            final(self).streams() == old(self).streams().insert(r@, None),
            final(self).log() == old(self).log().push(EventView::Created(r@, session_id@)),
    {
        let uuid = random_uuid_text();
        let now = self.clock_ms();
        let r = self.create_terminal_at(session_id, uuid.as_str(), now);
        assert(final(self)@.dom() =~= old(self)@.dom().insert(r@));
        r
    }

    /// Makes the terminal `terminal-<uuid>-<session_id>`, created at `now`
    /// with no stream, queues its creation notice and returns its id. A
    /// terminal of that id that was already there is replaced.
    pub fn create_terminal_at(&mut self, session_id: &str, uuid: &str, now: u64) -> (r: String)
        requires
            old(self).wf(),
        ensures
            final(self).wf(),
            r@ == terminal_id_text(uuid@, session_id@),
            final(self)@ == after_create(old(self)@, r@, now),
            final(self).streams() == old(self).streams().insert(r@, None),
            final(self).log() == old(self).log().push(EventView::Created(r@, session_id@)),
    {
        let id = prefixed("terminal-", uuid).concat("-").concat(session_id);
        let terminal = Terminal { id: id.clone(), created_at: now, stream: None };
        let st = TerminalState { created_at: now, attached: false };
        proof {
            assert(terminal.entry() == (id@, st));
            assert(terminal.slot() == (id@, None::<S>));
            self.lemma_streams();
        }
        match self.find(&id) {
            Some(i) => {
                proof {
                    lemma_keyed_update(self.entries(), i as int, st);
                    lemma_keyed_update(self.slots(), i as int, None::<S>);
                }
                self.terminals.set(i, terminal);
                assert(self.entries() =~= old(self).entries().update(i as int, (id@, st)));
                assert(self.slots() =~= old(self).slots().update(i as int, (id@, None::<S>)));
            },
            None => {
                proof {
                    lemma_keyed_push(self.entries(), id@, st);
                    lemma_keyed_push(self.slots(), id@, None::<S>);
                }
                self.terminals.push(terminal);
                assert(self.entries() =~= old(self).entries().push((id@, st)));
                assert(self.slots() =~= old(self).slots().push((id@, None::<S>)));
            },
        }
        self.emit(TerminalEvent::Created { terminal_id: id.clone(), session_id: session_id.to_string() });
        id
    }

    /// Attaches `stream` to a terminal that has none yet. A second stream for
    /// the same terminal is refused: that is a mistake of the caller.
    pub fn attach_stream(&mut self, terminal_id: &str, stream: S) -> (r: Result<(), AppError>)
        requires
            old(self).wf(),
        ensures
            final(self).wf(),
            final(self).log() == old(self).log(),
            final(self)@ == after_attach(old(self)@, terminal_id@),
            final(self).streams() == if attach_accepted(old(self)@, terminal_id@) {
                old(self).streams().insert(terminal_id@, Some(stream))
            } else {
                old(self).streams()
            },
            r is Ok <==> attach_accepted(old(self)@, terminal_id@),
            !old(self)@.contains_key(terminal_id@) ==> {
                &&& r matches Err(AppError::NotFoundError(m)) && m@ == "Terminal not found with ID: "@
                    + terminal_id@
                &&& final(self)@ == old(self)@
            },
            old(self)@.contains_key(terminal_id@) && old(self)@[terminal_id@].attached ==> {
                &&& r matches Err(AppError::TerminalError(m)) && m@
                    == "Stream already attached to terminal: "@ + terminal_id@
                &&& final(self)@ == old(self)@
            },
            old(self)@.contains_key(terminal_id@) && !old(self)@[terminal_id@].attached ==> {
                &&& r is Ok
                &&& final(self)@ == old(self)@.insert(
                    terminal_id@,
                    TerminalState { created_at: old(self)@[terminal_id@].created_at, attached: true },
                )
            },
    {
        let id = terminal_id.to_string();
        match self.find(&id) {
            None => Err(AppError::NotFoundError(prefixed("Terminal not found with ID: ", terminal_id))),
            Some(i) => {
                if self.terminals[i].stream.is_some() {
                    Err(
                        AppError::TerminalError(
                            prefixed("Stream already attached to terminal: ", terminal_id),
                        ),
                    )
                } else {
                    let _none = self.set_slot(i, Some(stream));
                    Ok(())
                }
            },
        }
    }

    /// Writes the UTF-8 bytes of `data` to the terminal's stream and flushes
    /// it. The text is echoed as a data notice on success; each failure is
    /// reported by an error notice as well as by the result.
    pub fn send_data(&mut self, terminal_id: &str, data: &str) -> (r: Result<(), AppError>)
        requires
            old(self).wf(),
        ensures
            final(self).wf(),
            final(self)@ == old(self)@,
            !stream_ready(old(self)@, terminal_id@) ==> r matches Err(AppError::NotFoundError(_)),
            !stream_ready(old(self)@, terminal_id@) ==> final(self).streams() == old(self).streams(),
            !old(self)@.contains_key(terminal_id@) ==> {
                &&& r matches Err(AppError::NotFoundError(m)) && m@ == "Terminal not found with ID: "@
                    + terminal_id@
                &&& final(self).log() == old(self).log().push(
                    EventView::Error(terminal_id@, "Terminal not found with ID: "@ + terminal_id@),
                )
            },
            old(self)@.contains_key(terminal_id@) && !old(self)@[terminal_id@].attached ==> {
                &&& r matches Err(AppError::NotFoundError(m)) && m@
                    == "Terminal stream not initialized for terminal ID: "@ + terminal_id@
                &&& final(self).log() == old(self).log().push(
                    EventView::Error(terminal_id@, "Terminal stream not initialized"@),
                )
            },
            stream_ready(old(self)@, terminal_id@) ==> {
                let s0 = held(old(self).streams()[terminal_id@]);
                let s1 = held(final(self).streams()[terminal_id@]);
                &&& final(self).streams() == old(self).streams().insert(terminal_id@, Some(s1))
                &&& s1.records() == s0.records()
                &&& s0.records() ==> input_kept(s0, s1)
                &&& s0.records() && r is Ok ==> sent_and_flushed(s0, s1, encode_utf8(data@))
                &&& exists|outcome: Result<(), String>|
                    {
                        &&& r == write_reply(outcome)
                        &&& final(self).log() == old(self).log() + write_events(
                            terminal_id@,
                            data@,
                            outcome,
                        )
                    }
            },
    {
        let id = terminal_id.to_string();
        match self.find(&id) {
            None => {
                let msg = prefixed("Terminal not found with ID: ", terminal_id);
                self.emit(TerminalEvent::Error { terminal_id: id, error: msg.clone() });
                Err(AppError::NotFoundError(msg))
            },
            Some(i) => {
                if self.terminals[i].stream.is_none() {
                    self.emit(
                        TerminalEvent::Error {
                            terminal_id: id,
                            error: "Terminal stream not initialized".to_string(),
                        },
                    );
                    return Err(
                        AppError::NotFoundError(
                            prefixed("Terminal stream not initialized for terminal ID: ", terminal_id),
                        ),
                    );
                }
                let ghost mid_view = self@;
                let taken = self.set_slot(i, None);
                match taken {
                    None => {
                        assert(false);
                        Err(AppError::NotFoundError(id))
                    },
                    Some(mut stream) => {
                        let ghost s0 = stream;
                        let bytes = data.as_bytes();
                        let written = stream.write_all(bytes);
                        let outcome = match written {
                            Ok(()) => stream.flush(),
                            Err(e) => Err(e),
                        };
                        let ghost s1 = stream;
                        let _none = self.set_slot(i, Some(stream));
                        assert(self@ =~= old(self)@);
                        assert(self.streams() =~= old(self).streams().insert(id@, Some(s1)));
                        let ghost g = outcome;
                        let r = self.record_write(terminal_id, data, outcome);
                        assert(r == write_reply(g));
                        r
                    },
                }
            },
        }
    }

    /// Records the outcome of writing `data` to the terminal's stream: on
    /// success the text is echoed as a data notice; a failure is reported by
    /// an error notice and returned as an I/O error.
    pub fn record_write(&mut self, terminal_id: &str, data: &str, outcome: Result<(), String>) -> (r:
        Result<(), AppError>)
        requires
            old(self).wf(),
        ensures
            final(self).wf(),
            final(self)@ == old(self)@,
            final(self).streams() == old(self).streams(),
            r == write_reply(outcome),
            final(self).log() == old(self).log() + write_events(terminal_id@, data@, outcome),
    {
        let id = terminal_id.to_string();
        match outcome {
            Ok(()) => {
                self.emit(TerminalEvent::Data { terminal_id: id, data: data.to_string() });
                assert(self.log() =~= old(self).log() + write_events(terminal_id@, data@, outcome));
                Ok(())
            },
            Err(e) => {
                self.emit(
                    TerminalEvent::Error {
                        terminal_id: id,
                        error: prefixed("Error writing to stream: ", e.as_str()),
                    },
                );
                assert(self.log() =~= old(self).log() + write_events(terminal_id@, data@, outcome));
                Err(AppError::IOError(e))
            },
        }
    }

    /// Asks the terminal's stream for a window of `rows` by `cols` cells and
    /// returns its answer. A terminal with no stream yet accepts the request
    /// and does nothing.
    pub fn resize_terminal(&mut self, terminal_id: &str, rows: u16, cols: u16) -> (r: Result<(), AppError>)
        requires
            old(self).wf(),
        ensures
            final(self).wf(),
            final(self)@ == old(self)@,
            final(self).log() == old(self).log(),
            !old(self)@.contains_key(terminal_id@) ==> (r matches Err(AppError::NotFoundError(m))
                && m@ == "Terminal not found"@),
            !stream_ready(old(self)@, terminal_id@) ==> final(self).streams() == old(self).streams(),
            old(self)@.contains_key(terminal_id@) && !old(self)@[terminal_id@].attached ==> r is Ok,
            stream_ready(old(self)@, terminal_id@) ==> {
                let s0 = held(old(self).streams()[terminal_id@]);
                let s1 = held(final(self).streams()[terminal_id@]);
                &&& final(self).streams() == old(self).streams().insert(terminal_id@, Some(s1))
                &&& s1.records() == s0.records()
                &&& s0.records() ==> window_resized(s0, s1, rows, cols)
                &&& exists|answer: Result<(), String>| r == stream_reply(answer)
            },
    {
        let id = terminal_id.to_string();
        match self.find(&id) {
            None => Err(AppError::NotFoundError("Terminal not found".to_string())),
            Some(i) => {
                if self.terminals[i].stream.is_none() {
                    return Ok(());
                }
                let taken = self.set_slot(i, None);
                match taken {
                    None => {
                        assert(false);
                        Ok(())
                    },
                    Some(mut stream) => {
                        let answer = stream.set_window_size(rows, cols);
                        let ghost s1 = stream;
                        let _none = self.set_slot(i, Some(stream));
                        assert(self@ =~= old(self)@);
                        assert(self.streams() =~= old(self).streams().insert(id@, Some(s1)));
                        let ghost g = answer;
                        let r = match answer {
                            Ok(()) => Ok(()),
                            Err(e) => Err(AppError::IOError(e)),
                        };
                        assert(r == stream_reply(g));
                        r
                    },
                }
            },
        }
    }

    /// Destroys the terminal if it is old enough, reading the registry's
    /// clock; returns whether it was destroyed in this call. A terminal that
    /// is too young stays, and `false` tells the caller to try again once
    /// `DESTROY_GRACE_MS` have passed.
    pub fn destroy_terminal(&mut self, terminal_id: &str) -> (r: bool)
        requires
            old(self).wf(),
        ensures
            final(self).wf(),
            exists|now: u64|
                {
                    &&& r == destroy_accepted(old(self)@, terminal_id@, now)
                    &&& final(self)@ == after_destroy(old(self)@, terminal_id@, now)
                },
            r ==> {
                &&& old(self)@.contains_key(terminal_id@)
                &&& final(self)@ == old(self)@.remove(terminal_id@)
                &&& final(self).streams() == old(self).streams().remove(terminal_id@)
                &&& final(self).log() == old(self).log().push(EventView::Destroyed(terminal_id@))
            },
            !r ==> final(self)@ == old(self)@ && final(self).streams() == old(self).streams()
                && final(self).log() == old(self).log(),
    {
        let now = self.clock_ms();
        self.destroy_terminal_at(terminal_id, now)
    }

    /// Destroys the terminal at time `now` if it was made at least
    /// `DESTROY_GRACE_MS` earlier, dropping its stream and queueing a
    /// destruction notice; returns whether it did.
    pub fn destroy_terminal_at(&mut self, terminal_id: &str, now: u64) -> (r: bool)
        requires
            old(self).wf(),
        ensures
            final(self).wf(),
            r == destroy_accepted(old(self)@, terminal_id@, now),
            final(self)@ == after_destroy(old(self)@, terminal_id@, now),
            r ==> {
                &&& final(self)@ == old(self)@.remove(terminal_id@)
                &&& final(self).streams() == old(self).streams().remove(terminal_id@)
                &&& final(self).log() == old(self).log().push(EventView::Destroyed(terminal_id@))
            },
            !r ==> final(self)@ == old(self)@ && final(self).streams() == old(self).streams()
                && final(self).log() == old(self).log(),
    {
        let id = terminal_id.to_string();
        match self.find(&id) {
            None => false,
            Some(i) => {
                let created_at = self.terminals[i].created_at;
                if now < created_at || now - created_at < DESTROY_GRACE_MS {
                    false
                } else {
                    proof {
                        self.lemma_streams();
                        lemma_keyed_remove(self.entries(), i as int);
                        lemma_keyed_remove(self.slots(), i as int);
                    }
                    let _gone = self.terminals.remove(i);
                    assert(self.entries() =~= old(self).entries().remove(i as int));
                    assert(self.slots() =~= old(self).slots().remove(i as int));
                    self.emit(TerminalEvent::Destroyed { terminal_id: id });
                    true
                }
            },
        }
    }

    /// Records the outcome of one read from the terminal's stream: forwards
    /// the text of a non-empty chunk, or reports the end of the stream (after
    /// an error notice when the read failed). A terminal that is gone ends
    /// the pump. Returns whether reading goes on.
    pub fn record_read(&mut self, terminal_id: &str, read: Result<Vec<u8>, String>) -> (r: bool)
        requires
            old(self).wf(),
        ensures
            final(self).wf(),
            final(self)@ == old(self)@,
            final(self).streams() == old(self).streams(),
            r == (old(self)@.contains_key(terminal_id@) && read_goes_on(read)),
            final(self).log() == old(self).log() + if old(self)@.contains_key(terminal_id@) {
                read_events(terminal_id@, read)
            } else {
                seq![EventView::StreamClosed(terminal_id@)]
            },
    {
        let id = terminal_id.to_string();
        if self.find(&id).is_none() {
            self.emit(TerminalEvent::StreamClosed { terminal_id: id });
            assert(self.log() =~= old(self).log() + seq![EventView::StreamClosed(terminal_id@)]);
            return false;
        }
        match read {
            Ok(bytes) => {
                if bytes.len() == 0 {
                    self.emit(TerminalEvent::StreamClosed { terminal_id: id });
                    assert(self.log() =~= old(self).log() + read_events(terminal_id@, read));
                    false
                } else {
                    let text = decode_lossy(bytes.as_slice());
                    self.emit(TerminalEvent::Data { terminal_id: id, data: text });
                    assert(self.log() =~= old(self).log() + read_events(terminal_id@, read));
                    true
                }
            },
            Err(e) => {
                self.emit(
                    TerminalEvent::Error {
                        terminal_id: id.clone(),
                        error: prefixed("Error reading from stream: ", e.as_str()),
                    },
                );
                self.emit(TerminalEvent::StreamClosed { terminal_id: id });
                assert(self.log() =~= old(self).log() + read_events(terminal_id@, read));
                false
            },
        }
    }

    /// One turn of the read pump: reads a chunk of at most `READ_CHUNK` bytes
    /// from the terminal's stream and records it. A terminal that is gone, or
    /// has no stream, ends the pump. Returns whether the pump goes on.
    pub fn pump_once(&mut self, terminal_id: &str) -> (r: bool)
        requires
            old(self).wf(),
        ensures
            final(self).wf(),
            final(self)@ == old(self)@,
            !stream_ready(old(self)@, terminal_id@) ==> {
                &&& !r
                &&& final(self).streams() == old(self).streams()
                &&& final(self).log() == old(self).log().push(EventView::StreamClosed(terminal_id@))
            },
            stream_ready(old(self)@, terminal_id@) ==> {
                let s0 = held(old(self).streams()[terminal_id@]);
                let s1 = held(final(self).streams()[terminal_id@]);
                &&& final(self).streams() == old(self).streams().insert(terminal_id@, Some(s1))
                &&& s1.records() == s0.records()
                &&& exists|read: Result<Vec<u8>, String>|
                    {
                        &&& r == read_goes_on(read)
                        &&& final(self).log() == old(self).log() + read_events(terminal_id@, read)
                        &&& read matches Ok(b) ==> b@.len() <= READ_CHUNK
                        &&& s0.records() ==> after_read(s0, s1, read)
                    }
            },
    {
        let id = terminal_id.to_string();
        match self.find(&id) {
            None => {
                self.emit(TerminalEvent::StreamClosed { terminal_id: id });
                false
            },
            Some(i) => {
                if self.terminals[i].stream.is_none() {
                    self.emit(TerminalEvent::StreamClosed { terminal_id: id });
                    return false;
                }
                let taken = self.set_slot(i, None);
                match taken {
                    None => {
                        assert(false);
                        false
                    },
                    Some(mut stream) => {
                        let read = stream.read_chunk(READ_CHUNK);
                        let ghost s1 = stream;
                        let _none = self.set_slot(i, Some(stream));
                        assert(self@ =~= old(self)@);
                        assert(self.streams() =~= old(self).streams().insert(id@, Some(s1)));
                        let ghost g = read;
                        let r = self.record_read(terminal_id, read);
                        assert(r == read_goes_on(g));
                        r
                    },
                }
            },
        }
    }
}

/// What a stream operation with this answer gives back.
pub open spec fn stream_reply(answer: Result<(), String>) -> Result<(), AppError> {
    match answer {
        Ok(()) => Ok(()),
        Err(e) => Err(AppError::IOError(e)),
    }
}

/// What writing gives back for a write with this outcome.
pub open spec fn write_reply(outcome: Result<(), String>) -> Result<(), AppError> {
    match outcome {
        Ok(()) => Ok(()),
        Err(e) => Err(AppError::IOError(e)),
    }
}

/// The notices that a write of `data` with this outcome gives.
pub open spec fn write_events(id: Seq<char>, data: Seq<char>, outcome: Result<(), String>) -> Seq<
    EventView,
> {
    match outcome {
        Ok(()) => seq![EventView::Data(id, data)],
        Err(e) => seq![EventView::Error(id, "Error writing to stream: "@ + e@)],
    }
}

/// Whether the read pump goes on after a read with this outcome.
pub open spec fn read_goes_on(read: Result<Vec<u8>, String>) -> bool {
    read matches Ok(b) && b@.len() > 0
}

/// The notices that a read with this outcome gives.
pub open spec fn read_events(id: Seq<char>, read: Result<Vec<u8>, String>) -> Seq<EventView> {
    match read {
        Ok(b) => if b@.len() == 0 {
            seq![EventView::StreamClosed(id)]
        } else {
            seq![EventView::Data(id, chunk_text(b@))]
        },
        Err(e) => seq![
            EventView::Error(id, "Error reading from stream: "@ + e@),
            EventView::StreamClosed(id),
        ],
    }
}

/// A terminal just made takes a stream at the first offer and refuses a
/// second one.
pub proof fn lemma_attach_once(
    m: Map<Seq<char>, TerminalState>,
    uuid: Seq<char>,
    session_id: Seq<char>,
    now: u64,
)
    ensures
        ({
            let id = terminal_id_text(uuid, session_id);
            let made = after_create(m, id, now);
            &&& attach_accepted(made, id)
            &&& !attach_accepted(after_attach(made, id), id)
            &&& after_attach(after_attach(made, id), id) == after_attach(made, id)
        }),
{
}

/// Writing to a terminal that has no stream always fails with a not-found
/// error, whether the terminal was never made, is not attached yet, or is gone.
pub proof fn lemma_send_needs_stream(m: Map<Seq<char>, TerminalState>, id: Seq<char>, now: u64)
    ensures
        !stream_ready(after_create(m, id, now), id),
        !stream_ready(m.remove(id), id),
{
}

/// Within the grace period after its making a terminal is not destroyed and
/// stays in the registry; asked again once the period has passed, it is
/// destroyed and leaves the registry.
pub proof fn lemma_grace_period(
    m: Map<Seq<char>, TerminalState>,
    id: Seq<char>,
    made_at: u64,
    early: u64,
    late: u64,
    attached: bool,
)
    requires
        early < made_at + DESTROY_GRACE_MS,
        late >= made_at + DESTROY_GRACE_MS,
    ensures
        ({
            let made = after_create(m, id, made_at);
            let wired = if attached {
                after_attach(made, id)
            } else {
                made
            };
            &&& !destroy_accepted(wired, id, early)
            &&& after_destroy(wired, id, early) == wired
            &&& after_destroy(wired, id, early).contains_key(id)
            &&& destroy_accepted(after_destroy(wired, id, early), id, late)
            &&& !after_destroy(after_destroy(wired, id, early), id, late).contains_key(id)
        }),
{
}

/// Once a terminal has been destroyed it is gone: writes and resizes on its
/// id find no terminal.
pub proof fn lemma_destroyed_is_gone(m: Map<Seq<char>, TerminalState>, id: Seq<char>, now: u64)
    requires
        destroy_accepted(m, id, now),
    ensures
        !after_destroy(m, id, now).contains_key(id),
        !stream_ready(after_destroy(m, id, now), id),
        !attach_accepted(after_destroy(m, id, now), id),
{
}

/// The text of a chunk that holds the UTF-8 encoding of some text is that
/// text: a round trip through a stream that echoes its input gives back what
/// was sent.
pub proof fn lemma_chunk_round_trip(text: Seq<char>)
    ensures
        chunk_text(encode_utf8(text)) == text,
{
    encode_utf8_valid_utf8(text);
    encode_utf8_decode_utf8(text);
}

/// Bytes that are not valid UTF-8 still give a text, the lossy decoding, and
/// the pump goes on after them.
pub proof fn lemma_invalid_chunk(id: Seq<char>, b: Vec<u8>)
    requires
        !valid_utf8(b@),
        b@.len() > 0,
    ensures
        read_goes_on(Ok(b)),
        read_events(id, Ok(b)) == seq![EventView::Data(id, lossy_utf8(b@))],
{
}


/// Round trip through a terminal whose stream echoes its input: when the
/// stream had nothing left to read, `send_data` wrote and flushed the UTF-8
/// bytes of a text, and the pump's next read took exactly what had been
/// written, then the read is those bytes and the pump forwards the same text.
pub proof fn lemma_echo_round_trip<S: TerminalStream>(
    id: Seq<char>,
    text: Seq<char>,
    s0: S,
    s1: S,
    s2: S,
    b: Vec<u8>,
)
    requires
        encode_utf8(text).len() > 0,
        s0.received() == s0.written(),
        sent_and_flushed(s0, s1, encode_utf8(text)),
        after_read(s1, s2, Ok(b)),
        s2.received() == s1.written(),
    ensures
        b@ == encode_utf8(text),
        read_goes_on(Ok(b)),
        read_events(id, Ok(b)) == seq![EventView::Data(id, text)],
{
    let w = s0.written();
    assert((w + b@).skip(w.len() as int) =~= b@);
    assert((w + encode_utf8(text)).skip(w.len() as int) =~= encode_utf8(text));
    lemma_chunk_round_trip(text);
}

} // verus!
