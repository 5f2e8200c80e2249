use vstd::prelude::*;

verus! {

/// How many recently-touched paths the sample stream buffers.
pub const RECENT_STREAM_CAPACITY: usize = 1000;

/// How many recent errors the sample stream buffers.
pub const ERROR_STREAM_CAPACITY: usize = 100;

/// How many drained items the readers keep for display.
pub const DISPLAY_WINDOW: usize = 50;

/// Both halves of the bounded crossbeam channel that carries recently
/// deleted paths to the display. Senders drop on a full channel: the stream
/// is lossy so that observing progress never slows the pipeline.
pub struct PathChannel {
    sender: crossbeam_channel::Sender<String>,
    receiver: crossbeam_channel::Receiver<String>,
}

/// The paths the stream holds, oldest first.
pub uninterp spec fn path_stream_items(c: PathChannel) -> Seq<String>;

/// The capacity the stream was created with.
pub uninterp spec fn path_stream_capacity(c: PathChannel) -> nat;

/// Relies on crossbeam_channel::bounded: a fresh bounded channel is empty and
/// holds at most `capacity` messages. `bounded` panics on capacity zero and
/// on capacities near the index type's limit; the requires keeps both out.
#[verifier::external_body]
fn path_channel_new(capacity: usize) -> (c: PathChannel)
    requires
        1 <= capacity <= 0x1000_0000,
    ensures
        path_stream_items(c) == Seq::<String>::empty(),
        path_stream_capacity(c) == capacity,
{
    let (sender, receiver) = crossbeam_channel::bounded(capacity);
    PathChannel { sender, receiver }
}

/// Relies on crossbeam_channel::Sender::try_send: it appends the message when
/// the channel has room and otherwise returns it with a Full error at once.
#[verifier::external_body]
fn path_channel_try_send(c: &mut PathChannel, item: String) -> (accepted: bool)
    ensures
        path_stream_capacity(*final(c)) == path_stream_capacity(*old(c)),
        path_stream_items(*old(c)).len() < path_stream_capacity(*old(c)) ==> accepted
            && path_stream_items(*final(c)) == path_stream_items(*old(c)).push(item),
        path_stream_items(*old(c)).len() >= path_stream_capacity(*old(c)) ==> !accepted
            && path_stream_items(*final(c)) == path_stream_items(*old(c)),
{
    c.sender.try_send(item).is_ok()
}

/// Relies on crossbeam_channel::Receiver::try_recv: it returns the oldest
/// message, or an Empty error at once when there is none.
#[verifier::external_body]
fn path_channel_try_recv(c: &mut PathChannel) -> (r: Option<String>)
    ensures
        path_stream_capacity(*final(c)) == path_stream_capacity(*old(c)),
        path_stream_items(*old(c)).len() == 0 ==> r is None && path_stream_items(*final(c))
            == path_stream_items(*old(c)),
        path_stream_items(*old(c)).len() > 0 ==> r == Some(path_stream_items(*old(c))[0])
            && path_stream_items(*final(c)) == path_stream_items(*old(c)).drop_first(),
{
    c.receiver.try_recv().ok()
}

/// Both halves of the bounded crossbeam channel that carries recent
/// `(path, error text)` pairs to the display; lossy like the path stream.
pub struct ErrorChannel {
    sender: crossbeam_channel::Sender<(String, String)>,
    receiver: crossbeam_channel::Receiver<(String, String)>,
}

/// The pairs the stream holds, oldest first.
pub uninterp spec fn error_stream_items(c: ErrorChannel) -> Seq<(String, String)>;

/// The capacity the stream was created with.
pub uninterp spec fn error_stream_capacity(c: ErrorChannel) -> nat;

/// Relies on crossbeam_channel::bounded, as the path stream does.
#[verifier::external_body]
fn error_channel_new(capacity: usize) -> (c: ErrorChannel)
    requires
        1 <= capacity <= 0x1000_0000,
    ensures
        error_stream_items(c) == Seq::<(String, String)>::empty(),
        error_stream_capacity(c) == capacity,
{
    let (sender, receiver) = crossbeam_channel::bounded(capacity);
    ErrorChannel { sender, receiver }
}

/// Relies on crossbeam_channel::Sender::try_send, as the path stream does.
#[verifier::external_body]
fn error_channel_try_send(c: &mut ErrorChannel, item: (String, String)) -> (accepted: bool)
    ensures
        error_stream_capacity(*final(c)) == error_stream_capacity(*old(c)),
        error_stream_items(*old(c)).len() < error_stream_capacity(*old(c)) ==> accepted
            && error_stream_items(*final(c)) == error_stream_items(*old(c)).push(item),
        error_stream_items(*old(c)).len() >= error_stream_capacity(*old(c)) ==> !accepted
            && error_stream_items(*final(c)) == error_stream_items(*old(c)),
{
    c.sender.try_send(item).is_ok()
}

/// Relies on crossbeam_channel::Receiver::try_recv, as the path stream does.
#[verifier::external_body]
fn error_channel_try_recv(c: &mut ErrorChannel) -> (r: Option<(String, String)>)
    ensures
        error_stream_capacity(*final(c)) == error_stream_capacity(*old(c)),
        error_stream_items(*old(c)).len() == 0 ==> r is None && error_stream_items(*final(c))
            == error_stream_items(*old(c)),
        error_stream_items(*old(c)).len() > 0 ==> r == Some(error_stream_items(*old(c))[0])
            && error_stream_items(*final(c)) == error_stream_items(*old(c)).drop_first(),
{
    c.receiver.try_recv().ok()
}

/// Progress of one run: three monotonically increasing counters and two
/// bounded, lossy sample streams that a display may drain.
pub struct RemoveProgress {
    scanned: u64,
    deleted: u64,
    errors: u64,
    recent: PathChannel,
    failed: ErrorChannel,
}

impl RemoveProgress {
    /// How many filesystem objects were classified.
    pub closed spec fn scanned_count(self) -> u64 {
        self.scanned
    }

    /// How many objects were removed, or acknowledged in a dry run.
    pub closed spec fn deleted_count(self) -> u64 {
        self.deleted
    }

    /// How many errors were recorded.
    pub closed spec fn errors_count(self) -> u64 {
        self.errors
    }

    /// The recently deleted paths not yet drained by a reader.
    pub closed spec fn recent_items(self) -> Seq<String> {
        path_stream_items(self.recent)
    }

    /// The recent errors not yet drained by a reader.
    pub closed spec fn error_items(self) -> Seq<(String, String)> {
        error_stream_items(self.failed)
    }

    /// The streams never hold more than the capacities they were created with.
    pub closed spec fn wf(self) -> bool {
        &&& path_stream_capacity(self.recent) == RECENT_STREAM_CAPACITY as nat
        &&& error_stream_capacity(self.failed) == ERROR_STREAM_CAPACITY as nat
        &&& self.recent_items().len() <= RECENT_STREAM_CAPACITY
        &&& self.error_items().len() <= ERROR_STREAM_CAPACITY
    }

    /// Fresh progress: all counters zero, both streams empty.
    pub fn new() -> (p: RemoveProgress)
        ensures
            p.wf(),
            p.scanned_count() == 0,
            p.deleted_count() == 0,
            p.errors_count() == 0,
            p.recent_items() == Seq::<String>::empty(),
            p.error_items() == Seq::<(String, String)>::empty(),
    {
        RemoveProgress {
            scanned: 0,
            deleted: 0,
            errors: 0,
            recent: path_channel_new(RECENT_STREAM_CAPACITY),
            failed: error_channel_new(ERROR_STREAM_CAPACITY),
        }
    }

    /// Counts one classified object. The counter never decreases.
    pub fn inc_scanned(&mut self)
        requires
            old(self).wf(),
            old(self).scanned_count() < u64::MAX,
        ensures
            final(self).wf(),
            final(self).scanned_count() == old(self).scanned_count() + 1,
            final(self).deleted_count() == old(self).deleted_count(),
            final(self).errors_count() == old(self).errors_count(),
            final(self).recent_items() == old(self).recent_items(),
            final(self).error_items() == old(self).error_items(),
    {
        self.scanned = self.scanned + 1;
    }

    /// Counts one removed (or acknowledged) object and offers its path to the
    /// lossy sample stream, which drops it when full. The counter never
    /// decreases.
    pub fn inc_deleted(&mut self, path: &String)
        requires
            old(self).wf(),
            old(self).deleted_count() < u64::MAX,
        ensures
            final(self).wf(),
            final(self).deleted_count() == old(self).deleted_count() + 1,
            final(self).scanned_count() == old(self).scanned_count(),
            final(self).errors_count() == old(self).errors_count(),
            final(self).error_items() == old(self).error_items(),
            old(self).recent_items().len() < RECENT_STREAM_CAPACITY ==> final(self).recent_items()
                == old(self).recent_items().push(*path),
            old(self).recent_items().len() >= RECENT_STREAM_CAPACITY ==> final(self).recent_items() == old(self).recent_items(),
    {
        self.deleted = self.deleted + 1;
        let _ = path_channel_try_send(&mut self.recent, path.clone());
    }

    /// Counts one error and offers the pair of path and error text to the
    /// lossy sample stream, which drops it when full. The counter never
    /// decreases.
    pub fn inc_error(&mut self, path: &String, error: String)
        requires
            old(self).wf(),
            old(self).errors_count() < u64::MAX,
        ensures
            final(self).wf(),
            final(self).errors_count() == old(self).errors_count() + 1,
            final(self).scanned_count() == old(self).scanned_count(),
            final(self).deleted_count() == old(self).deleted_count(),
            final(self).recent_items() == old(self).recent_items(),
            old(self).error_items().len() < ERROR_STREAM_CAPACITY ==> final(self).error_items()
                == old(self).error_items().push((*path, error)),
            old(self).error_items().len() >= ERROR_STREAM_CAPACITY ==> final(self).error_items()
                == old(self).error_items(),
    {
        self.errors = self.errors + 1;
        let _ = error_channel_try_send(&mut self.failed, (path.clone(), error));
    }

    /// The three counters: scanned, deleted, errors.
    pub fn get_stats(&self) -> (stats: (u64, u64, u64))
        ensures
            stats.0 == self.scanned_count(),
            stats.1 == self.deleted_count(),
            stats.2 == self.errors_count(),
    {
        (self.scanned, self.deleted, self.errors)
    }

    /// Drains the recent-path stream and returns the newest entries, at most
    /// the display window's worth, oldest first.
    pub fn get_recent_files(&mut self) -> (files: Vec<String>)
        requires
            old(self).wf(),
        ensures
            final(self).wf(),
            final(self).recent_items() == Seq::<String>::empty(),
            final(self).error_items() == old(self).error_items(),
            final(self).scanned_count() == old(self).scanned_count(),
            final(self).deleted_count() == old(self).deleted_count(),
            final(self).errors_count() == old(self).errors_count(),
            ({
                let n = old(self).recent_items().len() as int;
                let start = if n <= DISPLAY_WINDOW {
                    0
                } else {
                    n - DISPLAY_WINDOW
                };
                files@ == old(self).recent_items().subrange(start, n)
            }),
    {
        let ghost items = self.recent_items();
        let mut files: Vec<String> = Vec::new();
        let ghost mut k: int = 0;
        loop
            invariant
                self.wf(),
                0 <= k <= items.len(),
                self.recent_items() == items.subrange(k, items.len() as int),
                self.error_items() == old(self).error_items(),
                self.scanned_count() == old(self).scanned_count(),
                self.deleted_count() == old(self).deleted_count(),
                self.errors_count() == old(self).errors_count(),
                items == old(self).recent_items(),
                files@ == items.subrange(
                    if k <= DISPLAY_WINDOW {
                        0
                    } else {
                        k - DISPLAY_WINDOW
                    },
                    k,
                ),
            ensures
                k == items.len(),
                self.recent_items() == Seq::<String>::empty(),
            decreases items.len() - k,
        {
            let next = path_channel_try_recv(&mut self.recent);
            match next {
                None => {
                    proof {
                        assert(items.subrange(k, items.len() as int) =~= Seq::<String>::empty());
                    }
                    break ;
                },
                Some(path) => {
                    proof {
                        assert(items.subrange(k, items.len() as int)[0] == items[k]);
                        assert(items.subrange(k, items.len() as int).drop_first()
                            =~= items.subrange(k + 1, items.len() as int));
                    }
                    files.push(path);
                    if files.len() > DISPLAY_WINDOW {
                        let _ = files.remove(0);
                    }
                    proof {
                        let start_old = if k <= DISPLAY_WINDOW {
                            0int
                        } else {
                            k - DISPLAY_WINDOW
                        };
                        let start_new = if k + 1 <= DISPLAY_WINDOW {
                            0int
                        } else {
                            k + 1 - DISPLAY_WINDOW
                        };
                        assert(files@ =~= items.subrange(start_new, k + 1));
                        k = k + 1;
                    }
                },
            }
        }
        files
    }

    /// Drains the recent-error stream and returns the newest entries, at most
    /// the display window's worth, oldest first.
    pub fn get_error_files(&mut self) -> (errors: Vec<(String, String)>)
        requires
            old(self).wf(),
        ensures
            final(self).wf(),
            final(self).error_items() == Seq::<(String, String)>::empty(),
            final(self).recent_items() == old(self).recent_items(),
            final(self).scanned_count() == old(self).scanned_count(),
            final(self).deleted_count() == old(self).deleted_count(),
            final(self).errors_count() == old(self).errors_count(),
            ({
                let n = old(self).error_items().len() as int;
                let start = if n <= DISPLAY_WINDOW {
                    0
                } else {
                    n - DISPLAY_WINDOW
                };
                errors@ == old(self).error_items().subrange(start, n)
            }),
    {
        let ghost items = self.error_items();
        let mut errors: Vec<(String, String)> = Vec::new();
        let ghost mut k: int = 0;
        loop
            invariant
                self.wf(),
                0 <= k <= items.len(),
                self.error_items() == items.subrange(k, items.len() as int),
                self.recent_items() == old(self).recent_items(),
                self.scanned_count() == old(self).scanned_count(),
                self.deleted_count() == old(self).deleted_count(),
                self.errors_count() == old(self).errors_count(),
                items == old(self).error_items(),
                errors@ == items.subrange(
                    if k <= DISPLAY_WINDOW {
                        0
                    } else {
                        k - DISPLAY_WINDOW
                    },
                    k,
                ),
            ensures
                k == items.len(),
                self.error_items() == Seq::<(String, String)>::empty(),
            decreases items.len() - k,
        {
            let next = error_channel_try_recv(&mut self.failed);
            match next {
                None => {
                    proof {
                        assert(items.subrange(k, items.len() as int) =~= Seq::<
                            (String, String),
                        >::empty());
                    }
                    break ;
                },
                Some(pair) => {
                    proof {
                        assert(items.subrange(k, items.len() as int)[0] == items[k]);
                        assert(items.subrange(k, items.len() as int).drop_first()
                            =~= items.subrange(k + 1, items.len() as int));
                    }
                    errors.push(pair);
                    if errors.len() > DISPLAY_WINDOW {
                        let _ = errors.remove(0);
                    }
                    proof {
                        let start_new = if k + 1 <= DISPLAY_WINDOW {
                            0int
                        } else {
                            k + 1 - DISPLAY_WINDOW
                        };
                        assert(errors@ =~= items.subrange(start_new, k + 1));
                        k = k + 1;
                    }
                },
            }
        }
        errors
    }
}

/// The one-shot flag the orchestrator raises when every scanner has
/// returned; deleters exit once it is set and the queue has drained.
pub struct TuiHandle {
    done: bool,
}

impl TuiHandle {
    /// Whether the flag has been raised.
    pub closed spec fn done_spec(self) -> bool {
        self.done
    }

    /// A fresh, unraised flag.
    pub fn new() -> (h: TuiHandle)
        ensures
            !h.done_spec(),
    {
        TuiHandle { done: false }
    }

    /// Raises the flag; it never goes back down.
    pub fn set_done(&mut self)
        ensures
            final(self).done_spec(),
    {
        self.done = true;
    }

    /// Reads the flag.
    pub fn is_done(&self) -> (r: bool)
        ensures
            r == self.done_spec(),
    {
        self.done
    }
}

} // verus!
