//! Registry of filesystem watches.
//!
//! Each watch owns an OS-level subscription whose background delivery thread
//! forwards raw notifications over a channel.  The registry drains that
//! channel into an ordered per-watch buffer on the host's thread, normalizes
//! every notification into a small closed taxonomy, and hands events out
//! exactly once, oldest first.

use vstd::prelude::*;
use std::collections::HashMap;
use std::sync::mpsc::Receiver;
use crate::text::{push_char, spec_dec, spec_dec_pad, u64_dec_pad_string, u64_dec_string};

verus! {

broadcast use vstd::std_specs::hash::group_hash_axioms;

#[verifier::external_type_specification]
#[verifier::external_body]
pub struct ExWatcher(notify::RecommendedWatcher);

#[verifier::external_type_specification]
#[verifier::external_body]
pub struct ExEvent(notify::Event);

#[verifier::external_type_specification]
#[verifier::external_body]
pub struct ExNotifyError(notify::Error);

#[verifier::external_type_specification]
#[verifier::external_body]
pub struct ExEventKind(notify::EventKind);

#[verifier::external_type_specification]
#[verifier::external_body]
pub struct ExModifyKind(notify::event::ModifyKind);

#[verifier::external_type_specification]
#[verifier::external_body]
#[verifier::reject_recursive_types(T)]
pub struct ExReceiver<T>(Receiver<T>);

/// Mirror of the OS notification kind, as far as the taxonomy reads it.
pub enum OsKind {
    Any,
    Access,
    Create,
    Modify(OsModify),
    Remove,
    Other,
}

/// Mirror of the OS "modify" sub-kind.
pub enum OsModify {
    Any,
    Data,
    Metadata,
    Name,
    Other,
}

/// One message taken off a watch's delivery channel, reduced to plain values.
pub enum WatchNote {
    /// A filesystem notification: its kind and the affected paths.
    Happened { kind: OsKind, paths: Vec<String> },
    /// The backend reported a delivery failure; only a diagnostic remains.
    Broken { message: String },
}

/// Relies on `notify::RecommendedWatcher::new` and `Watcher::watch`, wired to
/// an `std::sync::mpsc` channel: the watcher's callback only forwards each
/// raw result over the channel, and the receiving half is returned beside the
/// watcher.  `None` when the watcher could not be built or the path could not
/// be registered.
#[verifier::external_body]
fn open_watch(path: &str, recursive: bool) -> (r: Option<
    (notify::RecommendedWatcher, Receiver<Result<notify::Event, notify::Error>>),
>) {
    let (tx, rx) = std::sync::mpsc::channel();
    let handler = move |res: Result<notify::Event, notify::Error>| { let _ = tx.send(res); };
    let config = notify::Config::default();
    let mut watcher = match <notify::RecommendedWatcher as notify::Watcher>::new(handler, config) {
        Ok(w) => w,
        Err(_) => return None,
    };
    let mode = if recursive { notify::RecursiveMode::Recursive } else { notify::RecursiveMode::NonRecursive };
    if notify::Watcher::watch(&mut watcher, std::path::Path::new(path), mode).is_err() {
        return None;
    }
    Some((watcher, rx))
}

/// Relies on the shape of `notify::Event` (its `kind` and `paths` fields,
/// mirrored one variant to one variant) and on `notify::Error`'s `Display`:
/// reduces one delivered result to plain values, moving data only.
#[verifier::external_body]
fn note_of(res: Result<notify::Event, notify::Error>) -> (note: WatchNote) {
    match res {
        Ok(ev) => WatchNote::Happened {
            kind: mirror_kind(&ev.kind),
            paths: ev.paths.iter().map(|p| p.to_string_lossy().to_string()).collect(),
        },
        Err(e) => WatchNote::Broken { message: e.to_string() },
    }
}

/// Relies on the variant list of `notify::EventKind`: one arm per variant.
#[verifier::external_body]
fn mirror_kind(kind: &notify::EventKind) -> (k: OsKind) {
    match kind {
        notify::EventKind::Any => OsKind::Any,
        notify::EventKind::Access(_) => OsKind::Access,
        notify::EventKind::Create(_) => OsKind::Create,
        notify::EventKind::Modify(m) => OsKind::Modify(mirror_modify(m)),
        notify::EventKind::Remove(_) => OsKind::Remove,
        notify::EventKind::Other => OsKind::Other,
    }
}

/// Relies on the variant list of `notify::event::ModifyKind`: one arm per
/// variant.
#[verifier::external_body]
fn mirror_modify(kind: &notify::event::ModifyKind) -> (m: OsModify) {
    match kind {
        notify::event::ModifyKind::Any => OsModify::Any,
        notify::event::ModifyKind::Data(_) => OsModify::Data,
        notify::event::ModifyKind::Metadata(_) => OsModify::Metadata,
        notify::event::ModifyKind::Name(_) => OsModify::Name,
        notify::event::ModifyKind::Other => OsModify::Other,
    }
}

/// Relies on `std::sync::mpsc::Receiver::try_recv`: a message when one is
/// ready, `None` when the channel is empty or disconnected.
#[verifier::external_body]
fn chan_try_recv(rx: &Receiver<Result<notify::Event, notify::Error>>) -> (r: Option<WatchNote>) {
    match rx.try_recv() {
        Ok(res) => Some(note_of(res)),
        Err(_) => None,
    }
}

/// Relies on `std::sync::mpsc::Receiver::recv`: blocks until a message
/// arrives; `None` only when the channel has disconnected.
#[verifier::external_body]
fn chan_recv_block(rx: &Receiver<Result<notify::Event, notify::Error>>) -> (r: Option<WatchNote>) {
    match rx.recv() {
        Ok(res) => Some(note_of(res)),
        Err(_) => None,
    }
}

/// Relies on `std::sync::mpsc::Receiver::recv_timeout`: blocks up to the
/// given bound; `None` on timeout or disconnection.
#[verifier::external_body]
fn chan_recv_timeout(
    rx: &Receiver<Result<notify::Event, notify::Error>>,
    millis: u64,
) -> (r: Option<WatchNote>) {
    match rx.recv_timeout(std::time::Duration::from_millis(millis)) {
        Ok(res) => Some(note_of(res)),
        Err(_) => None,
    }
}

/// Relies on `std::time::SystemTime::now` and `duration_since` against the
/// epoch: the current wall clock as whole microseconds, `0` before the epoch.
#[verifier::external_body]
fn now_unix_micros() -> (r: u64) {
    match std::time::SystemTime::now().duration_since(std::time::UNIX_EPOCH) {
        Ok(d) => d.as_micros() as u64,
        Err(_) => 0,
    }
}

/// The closed taxonomy a raw notification is normalized into.
pub enum EventClass {
    Created,
    Modified,
    Renamed,
    Deleted,
    Accessed,
    Failure,
    Other,
}

/// A normalized event: its class, its arrival time in whole microseconds
/// since the epoch, and the affected paths (for `Failure`, the single
/// diagnostic message).
pub struct NativeEvent {
    pub class: EventClass,
    pub micros: u64,
    pub paths: Vec<String>,
}

/// The taxonomy: creations, removals and accesses map directly, a modify of
/// the name is a rename, any other modify is a modification, and everything
/// else is `Other`.
pub open spec fn spec_classify(k: OsKind) -> EventClass {
    match k {
        OsKind::Create => EventClass::Created,
        OsKind::Modify(m) => match m {
            OsModify::Name => EventClass::Renamed,
            _ => EventClass::Modified,
        },
        OsKind::Remove => EventClass::Deleted,
        OsKind::Access => EventClass::Accessed,
        _ => EventClass::Other,
    }
}

/// Maps a mirrored OS kind into the taxonomy.
pub fn classify(k: &OsKind) -> (c: EventClass)
    ensures
        c == spec_classify(*k),
{
    match k {
        OsKind::Create => EventClass::Created,
        OsKind::Modify(m) => match m {
            OsModify::Name => EventClass::Renamed,
            _ => EventClass::Modified,
        },
        OsKind::Remove => EventClass::Deleted,
        OsKind::Access => EventClass::Accessed,
        _ => EventClass::Other,
    }
}

/// The label each class carries in the encoded event.
pub open spec fn spec_class_label(c: EventClass) -> Seq<char> {
    match c {
        EventClass::Created => "created"@,
        EventClass::Modified => "modified"@,
        EventClass::Renamed => "renamed"@,
        EventClass::Deleted => "deleted"@,
        EventClass::Accessed => "accessed"@,
        EventClass::Failure => "error"@,
        EventClass::Other => "other"@,
    }
}

/// Renders the class label.
pub fn class_label(c: &EventClass) -> (s: String)
    ensures
        s@ == spec_class_label(*c),
{
    match c {
        EventClass::Created => String::from_str("created"),
        EventClass::Modified => String::from_str("modified"),
        EventClass::Renamed => String::from_str("renamed"),
        EventClass::Deleted => String::from_str("deleted"),
        EventClass::Accessed => String::from_str("accessed"),
        EventClass::Failure => String::from_str("error"),
        EventClass::Other => String::from_str("other"),
    }
}

/// The timestamp rendering: whole seconds, a dot, then exactly six digits of
/// microseconds.
pub open spec fn spec_timestamp(micros: u64) -> Seq<char> {
    spec_dec((micros / 1000000) as nat) + seq!['.'] + spec_dec_pad((micros % 1000000) as nat, 6)
}

/// Renders a microsecond timestamp as seconds with six decimal places.
pub fn timestamp_string(micros: u64) -> (s: String)
    ensures
        s@ == spec_timestamp(micros),
{
    let mut s = u64_dec_string(micros / 1000000);
    push_char(&mut s, '.');
    let frac = u64_dec_pad_string(micros % 1000000, 6);
    s.append(frac.as_str());
    proof {
        assert(s@ =~= spec_timestamp(micros));
    }
    s
}

/// Normalizes one delivered message, stamping it with the current clock: a
/// notification keeps its classified kind and paths; a delivery failure
/// becomes a `Failure` event carrying the diagnostic as its only path.
pub fn normalize(note: WatchNote) -> (e: NativeEvent)
    ensures
        match note {
            WatchNote::Happened { kind, paths } => e.class == spec_classify(kind) && e.paths
                == paths,
            WatchNote::Broken { message } => e.class is Failure && e.paths@ == seq![message],
        },
{
    match note {
        WatchNote::Happened { kind, paths } => NativeEvent {
            class: classify(&kind),
            micros: now_unix_micros(),
            paths,
        },
        WatchNote::Broken { message } => {
            let mut paths: Vec<String> = Vec::new();
            paths.push(message);
            NativeEvent { class: EventClass::Failure, micros: now_unix_micros(), paths }
        },
    }
}

/// The encoded form of a normalized event: its class label, its timestamp,
/// then every affected path, in order.
pub open spec fn spec_encode(e: NativeEvent) -> Seq<Seq<char>> {
    seq![spec_class_label(e.class), spec_timestamp(e.micros)] + e.paths.deep_view()
}

/// Encodes a normalized event as the flat string sequence the host consumes.
pub fn encode_event(e: &NativeEvent) -> (r: Vec<String>)
    ensures
        r.deep_view() == spec_encode(*e),
{
    let mut r: Vec<String> = Vec::new();
    r.push(class_label(&e.class));
    r.push(timestamp_string(e.micros));
    let mut i: usize = 0;
    while i < e.paths.len()
        invariant
            i <= e.paths@.len(),
            r@.len() == 2 + i,
            r@[0]@ == spec_class_label(e.class),
            r@[1]@ == spec_timestamp(e.micros),
            forall|j: int| 0 <= j < i ==> #[trigger] r@[2 + j]@ == e.paths@[j]@,
        decreases e.paths@.len() - i,
    {
        r.push(e.paths[i].clone());
        i = i + 1;
    }
    proof {
        assert forall|j: int| 0 <= j < r.deep_view().len() implies r.deep_view()[j]
            == spec_encode(*e)[j] by {
            if j >= 2 {
                let jj = j - 2;
                assert(r@[2 + jj]@ == e.paths@[jj]@);
            }
        }
        assert(r.deep_view() =~= spec_encode(*e));
    }
    r
}

/// `p` is an initial segment of `q`.
pub open spec fn seq_prefix<T>(p: Seq<T>, q: Seq<T>) -> bool {
    p.len() <= q.len() && p == q.subrange(0, p.len() as int)
}

/// One registered watch: the OS subscription, the receiving half of its
/// delivery channel, and the ordered buffer of normalized events not yet
/// consumed.
struct WatchEntry {
    watcher: notify::RecommendedWatcher,
    rx: Receiver<Result<notify::Event, notify::Error>>,
    queue: Vec<NativeEvent>,
}

/// Registry of filesystem watches, keyed by opaque handles that are never
/// reused.
pub struct NativeWatch {
    next_handle: u64,
    watches: HashMap<u64, WatchEntry>,
}

/// Moves every message currently sitting in the channel into the buffer, in
/// arrival order; nothing already buffered moves or disappears.
fn drain_entry(e: &mut WatchEntry)
    ensures
        seq_prefix(old(e).queue@, final(e).queue@),
{
    proof {
        assert(old(e).queue@ =~= e.queue@.subrange(0, old(e).queue@.len() as int));
    }
    // Each buffered message occupies memory, so the channel can never hold
    // anywhere near `usize::MAX` of them: the fuel only proves termination.
    let mut fuel: usize = usize::MAX;
    loop
        invariant
            seq_prefix(old(e).queue@, e.queue@),
        decreases fuel,
    {
        if fuel == 0 {
            break ;
        }
        fuel = fuel - 1;
        match chan_try_recv(&e.rx) {
            Some(note) => {
                let ev = normalize(note);
                e.queue.push(ev);
                proof {
                    assert(e.queue@.subrange(0, old(e).queue@.len() as int) =~= old(e).queue@);
                    assert(seq_prefix(old(e).queue@, e.queue@));
                }
            },
            None => {
                break ;
            },
        }
    }
}

impl NativeWatch {
    /// The per-handle buffers of not-yet-consumed events.
    pub closed spec fn queues(&self) -> Map<u64, Seq<NativeEvent>> {
        self.watches@.map_values(|e: WatchEntry| e.queue@)
    }

    /// The next handle to be issued.
    pub closed spec fn spec_next(&self) -> u64 {
        self.next_handle
    }

    /// Handles are positive and below the allocation counter, so no live
    /// handle can ever be issued again.
    pub open spec fn wf(&self) -> bool {
        &&& 1 <= self.spec_next()
        &&& forall|h: u64| #[trigger]
            self.queues().dom().contains(h) ==> 1 <= h < self.spec_next()
    }

    pub fn new() -> (w: NativeWatch)
        ensures
            w.wf(),
            w.spec_next() == 1,
            w.queues() == Map::<u64, Seq<NativeEvent>>::empty(),
    {
        let w = NativeWatch { next_handle: 1, watches: HashMap::new() };
        proof {
            assert(w.queues() =~= Map::<u64, Seq<NativeEvent>>::empty());
        }
        w
    }

    /// Relation between the registry before and after `watch`: either the OS
    /// refused and nothing changed (sentinel handle `0`), or a fresh handle
    /// was issued with an empty buffer.
    pub open spec fn watch_post(pre: NativeWatch, post: NativeWatch, h: u64) -> bool {
        ||| (h == 0 && post == pre)
        ||| {
            &&& h == pre.spec_next()
            &&& post.spec_next() == pre.spec_next() + 1
            &&& post.queues() == pre.queues().insert(h, Seq::<NativeEvent>::empty())
        }
    }

    /// Creates an OS watch on `path`.  On success a fresh handle is issued
    /// and an entry with an empty buffer inserted; when the watcher cannot
    /// be built or the path cannot be registered, `0` is returned and
    /// nothing changes.
    pub fn watch(&mut self, path: &str, recursive: bool) -> (h: u64)
        requires
            old(self).wf(),
            old(self).spec_next() < u64::MAX,
        ensures
            final(self).wf(),
            Self::watch_post(*old(self), *final(self), h),
    {
        match open_watch(path, recursive) {
            None => 0,
            Some((watcher, rx)) => {
                let h = self.next_handle;
                self.next_handle = self.next_handle + 1;
                self.watches.insert(h, WatchEntry { watcher, rx, queue: Vec::new() });
                proof {
                    assert(self.queues() =~= old(self).queues().insert(
                        h,
                        Seq::<NativeEvent>::empty(),
                    ));
                    assert forall|h0: u64| #[trigger]
                        self.queues().dom().contains(h0) implies 1 <= h0 < self.spec_next() by {
                        if h0 != h {
                            assert(old(self).queues().dom().contains(h0));
                        }
                    }
                }
                h
            },
        }
    }

    /// Existence check only: whether `handle` names a live watch.
    pub fn has(&self, handle: u64) -> (r: bool)
        ensures
            r == self.queues().dom().contains(handle),
    {
        let r = self.watches.contains_key(&handle);
        proof {
            assert(self.watches@.dom().contains(handle) == self.queues().dom().contains(handle));
        }
        r
    }

    /// Relation between the registry before and after `close`.
    pub open spec fn close_post(pre: NativeWatch, post: NativeWatch, h: u64, removed: bool) -> bool {
        &&& removed == pre.queues().dom().contains(h)
        &&& post.queues() == pre.queues().remove(h)
        &&& post.spec_next() == pre.spec_next()
    }

    /// Stops one watch, dropping its OS subscription; `true` iff it existed.
    /// The handle is never issued again.
    pub fn close(&mut self, handle: u64) -> (removed: bool)
        requires
            old(self).wf(),
        ensures
            final(self).wf(),
            Self::close_post(*old(self), *final(self), handle, removed),
    {
        let r = self.watches.remove(&handle).is_some();
        proof {
            assert(self.queues() =~= old(self).queues().remove(handle));
        }
        r
    }

    /// Stops every watch and answers exactly how many there were.
    #[allow(non_snake_case)]
    pub fn closeAll(&mut self) -> (count: usize)
        requires
            old(self).wf(),
        ensures
            final(self).wf(),
            count == old(self).queues().len(),
            final(self).queues() == Map::<u64, Seq<NativeEvent>>::empty(),
            final(self).spec_next() == old(self).spec_next(),
    {
        let count = self.watches.len();
        self.watches.clear();
        proof {
            assert(old(self).watches@.dom() =~= old(self).queues().dom());
            assert(self.queues() =~= Map::<u64, Seq<NativeEvent>>::empty());
        }
        count
    }

    /// Relation of one buffered read: some drained buffer `q` extends the old
    /// buffer in order; the oldest event of `q` (if any) is popped and
    /// encoded, and the rest stays.
    pub open spec fn read_post(
        pre_q: Seq<NativeEvent>,
        post_q: Seq<NativeEvent>,
        r: Seq<Seq<char>>,
    ) -> bool {
        exists|q: Seq<NativeEvent>|
            #![auto]
            {
                &&& seq_prefix(pre_q, q)
                &&& if q.len() == 0 {
                    r =~= Seq::<Seq<char>>::empty() && post_q =~= q
                } else {
                    r == spec_encode(q[0]) && post_q =~= q.drop_first()
                }
            }
    }

    /// Drains the channel, then answers how many events sit in the buffer;
    /// `None` for an unknown handle.
    pub fn pending(&mut self, handle: u64) -> (r: Option<usize>)
        requires
            old(self).wf(),
        ensures
            final(self).wf(),
            final(self).spec_next() == old(self).spec_next(),
            match r {
                None => !old(self).queues().dom().contains(handle) && final(self).queues() == old(self).queues(),
                Some(n) => {
                    &&& old(self).queues().dom().contains(handle)
                    &&& final(self).queues().dom() == old(self).queues().dom()
                    &&& seq_prefix(
                        old(self).queues()[handle],
                        final(self).queues()[handle],
                    )
                    &&& n == final(self).queues()[handle].len()
                    &&& forall|h0: u64| #[trigger]
                        final(self).queues().dom().contains(h0) && h0 != handle ==> final(self).queues()[h0] == old(self).queues()[h0]
                },
            },
    {
        let mut entry = match self.watches.remove(&handle) {
            None => {
                proof {
                    assert(self.queues() =~= old(self).queues());
                }
                return None;
            },
            Some(e) => e,
        };
        drain_entry(&mut entry);
        let n = entry.queue.len();
        self.watches.insert(handle, entry);
        proof {
            assert(final(self).queues().dom() =~= old(self).queues().dom());
        }
        Some(n)
    }

    /// Drains the channel, then pops and encodes the oldest buffered event;
    /// the empty sequence when none is available or the handle is unknown.
    #[allow(non_snake_case)]
    pub fn takeEvent(&mut self, handle: u64) -> (r: Vec<String>)
        requires
            old(self).wf(),
        ensures
            final(self).wf(),
            final(self).spec_next() == old(self).spec_next(),
            if old(self).queues().dom().contains(handle) {
                &&& final(self).queues().dom() == old(self).queues().dom()
                &&& Self::read_post(
                    old(self).queues()[handle],
                    final(self).queues()[handle],
                    r.deep_view(),
                )
                &&& forall|h0: u64| #[trigger]
                    final(self).queues().dom().contains(h0) && h0 != handle ==> final(self).queues()[h0] == old(self).queues()[h0]
            } else {
                r.deep_view() =~= Seq::<Seq<char>>::empty() && final(self).queues() == old(self).queues()
            },
    {
        let mut entry = match self.watches.remove(&handle) {
            None => {
                proof {
                    assert(self.queues() =~= old(self).queues());
                }
                return Vec::new();
            },
            Some(e) => e,
        };
        drain_entry(&mut entry);
        let ghost q = entry.queue@;
        let r = if entry.queue.len() > 0 {
            let ev = entry.queue.remove(0);
            proof {
                assert(entry.queue@ =~= q.drop_first());
            }
            encode_event(&ev)
        } else {
            Vec::new()
        };
        self.watches.insert(handle, entry);
        proof {
            assert(final(self).queues().dom() =~= old(self).queues().dom());
        }
        r
    }

    /// Drains and answers the oldest buffered event at once if there is one.
    /// Otherwise makes exactly one further receive attempt: blocking when
    /// `timeout_ms` is negative, bounded when it is positive, a single
    /// non-blocking check when it is zero.  Whatever arrived (an event or a
    /// delivery failure) is buffered, and the oldest event, if any, is popped
    /// and encoded; the empty sequence otherwise, indistinguishable from an
    /// unknown handle.
    #[allow(non_snake_case)]
    pub fn waitEvent(&mut self, handle: u64, timeout_ms: i64) -> (r: Vec<String>)
        requires
            old(self).wf(),
        ensures
            final(self).wf(),
            final(self).spec_next() == old(self).spec_next(),
            if old(self).queues().dom().contains(handle) {
                &&& final(self).queues().dom() == old(self).queues().dom()
                &&& Self::read_post(
                    old(self).queues()[handle],
                    final(self).queues()[handle],
                    r.deep_view(),
                )
                &&& forall|h0: u64| #[trigger]
                    final(self).queues().dom().contains(h0) && h0 != handle ==> final(self).queues()[h0] == old(self).queues()[h0]
            } else {
                r.deep_view() =~= Seq::<Seq<char>>::empty() && final(self).queues() == old(self).queues()
            },
    {
        let mut entry = match self.watches.remove(&handle) {
            None => {
                proof {
                    assert(self.queues() =~= old(self).queues());
                }
                return Vec::new();
            },
            Some(e) => e,
        };
        let ghost pre_q = entry.queue@;
        drain_entry(&mut entry);
        if entry.queue.len() == 0 {
            proof {
                assert(pre_q.len() == 0);
            }
            let received: Option<WatchNote> = if timeout_ms < 0 {
                chan_recv_block(&entry.rx)
            } else if timeout_ms > 0 {
                chan_recv_timeout(&entry.rx, timeout_ms as u64)
            } else {
                chan_try_recv(&entry.rx)
            };
            if let Some(note) = received {
                let ev = normalize(note);
                entry.queue.push(ev);
                drain_entry(&mut entry);
            }
            proof {
                assert(pre_q =~= entry.queue@.subrange(0, 0));
                assert(seq_prefix(pre_q, entry.queue@));
            }
        }
        let ghost q = entry.queue@;
        proof {
            assert(seq_prefix(pre_q, q));
        }
        let r = if entry.queue.len() > 0 {
            let ev = entry.queue.remove(0);
            proof {
                assert(entry.queue@ =~= q.drop_first());
            }
            encode_event(&ev)
        } else {
            Vec::new()
        };
        self.watches.insert(handle, entry);
        proof {
            assert(final(self).queues().dom() =~= old(self).queues().dom());
        }
        r
    }

    /// Two successful `watch` calls issue strictly increasing handles,
    /// however the registry evolved in between, as long as each step kept
    /// the allocation counter from shrinking — which every operation does.
    pub proof fn lemma_watch_handles_strictly_increase(
        s0: NativeWatch,
        s1: NativeWatch,
        h1: u64,
        s2: NativeWatch,
        s3: NativeWatch,
        h2: u64,
    )
        requires
            Self::watch_post(s0, s1, h1),
            h1 != 0,
            s2.spec_next() >= s1.spec_next(),
            Self::watch_post(s2, s3, h2),
            h2 != 0,
        ensures
            h2 > h1,
    {
    }

    /// A handle that is (or ever was) live is never issued again: any later
    /// successful `watch`, after any counter-preserving evolution, returns a
    /// strictly larger handle.
    pub proof fn lemma_watch_no_reissue(
        s: NativeWatch,
        h: u64,
        s2: NativeWatch,
        s3: NativeWatch,
        h2: u64,
    )
        requires
            s.wf(),
            s.queues().dom().contains(h),
            s2.spec_next() >= s.spec_next(),
            Self::watch_post(s2, s3, h2),
            h2 != 0,
        ensures
            h2 > h,
    {
    }

    /// After `closeAll` no handle names a watch any more, so every read
    /// operation on a former handle takes its unknown-handle branch.
    pub proof fn lemma_close_all_forgets(post: NativeWatch, h: u64)
        requires
            post.queues() == Map::<u64, Seq<NativeEvent>>::empty(),
        ensures
            !post.queues().dom().contains(h),
    {
    }

    /// Events are handed out oldest first and exactly once: while the buffer
    /// is non-empty, a read pops precisely its oldest event, and the rest
    /// stays buffered in order.
    pub proof fn lemma_fifo_order(pre_q: Seq<NativeEvent>, post_q: Seq<NativeEvent>, r: Seq<Seq<char>>)
        requires
            pre_q.len() > 0,
            Self::read_post(pre_q, post_q, r),
        ensures
            r == spec_encode(pre_q[0]),
            seq_prefix(pre_q.drop_first(), post_q),
    {
        let q = choose|q: Seq<NativeEvent>|
            #![auto]
            {
                &&& seq_prefix(pre_q, q)
                &&& if q.len() == 0 {
                    r =~= Seq::<Seq<char>>::empty() && post_q =~= q
                } else {
                    r == spec_encode(q[0]) && post_q =~= q.drop_first()
                }
            };
        assert(pre_q[0] == q[0]);
        assert(pre_q.drop_first() =~= q.drop_first().subrange(0, pre_q.len() - 1));
    }
}

} // verus!
