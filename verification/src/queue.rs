use vstd::prelude::*;

verus! {

/// One unit of delete work, tagged by the kind of filesystem object it
/// names. An `EmptyDir` job is enqueued only after every job for the
/// directory's descendants, so its consumer may remove the directory itself.
#[derive(Debug, Clone)]
pub enum FileJob {
    /// A regular file to unlink.
    File(String),
    /// A symbolic link to unlink, never followed.
    Symlink(String),
    /// A directory whose whole subtree has already been enqueued.
    EmptyDir(String),
}

impl FileJob {
    /// The path this job names.
    pub open spec fn path_view(self) -> Seq<char> {
        match self {
            FileJob::File(p) => p@,
            FileJob::Symlink(p) => p@,
            FileJob::EmptyDir(p) => p@,
        }
    }

    /// The path this job names.
    pub fn path(&self) -> (p: &String)
        ensures
            p@ == self.path_view(),
    {
        match self {
            FileJob::File(p) => p,
            FileJob::Symlink(p) => p,
            FileJob::EmptyDir(p) => p,
        }
    }
}

/// Both halves of the bounded crossbeam channel that carries jobs from the
/// scanners to the deleters. Holding sender and receiver together keeps the
/// channel alive and never disconnected for as long as the queue lives.
pub struct JobChannel {
    sender: crossbeam_channel::Sender<FileJob>,
    receiver: crossbeam_channel::Receiver<FileJob>,
}

/// The jobs the channel holds, oldest first.
pub uninterp spec fn channel_jobs(c: JobChannel) -> Seq<FileJob>;

/// The capacity the channel was created with.
pub uninterp spec fn channel_capacity(c: JobChannel) -> nat;

/// Relies on crossbeam_channel::bounded: a fresh bounded channel is an empty
/// FIFO ring that holds at most `capacity` messages. `bounded` panics on
/// capacity zero and on capacities near the index type's limit; the requires
/// keeps both out.
#[verifier::external_body]
fn channel_new(capacity: usize) -> (c: JobChannel)
    requires
        1 <= capacity <= 0x1000_0000,
    ensures
        channel_jobs(c) == Seq::<FileJob>::empty(),
        channel_capacity(c) == capacity,
{
    let (sender, receiver) = crossbeam_channel::bounded(capacity);
    JobChannel { sender, receiver }
}

/// Relies on crossbeam_channel::Sender::send: on a channel that is not full,
/// with both halves held by this struct alone, it appends the message and
/// returns at once. The requires keeps out the full channel, on which send
/// would block with no other consumer to make room.
#[verifier::external_body]
fn channel_send(c: &mut JobChannel, job: FileJob)
    requires
        channel_jobs(*old(c)).len() < channel_capacity(*old(c)),
    ensures
        channel_jobs(*final(c)) == channel_jobs(*old(c)).push(job),
        channel_capacity(*final(c)) == channel_capacity(*old(c)),
{
    let _ = c.sender.send(job);
}

/// Relies on crossbeam_channel::Sender::try_send: it appends the message when
/// the channel has room and otherwise returns it with a Full error at once.
#[verifier::external_body]
fn channel_try_send(c: &mut JobChannel, job: FileJob) -> (accepted: bool)
    ensures
        channel_capacity(*final(c)) == channel_capacity(*old(c)),
        channel_jobs(*old(c)).len() < channel_capacity(*old(c)) ==> accepted && channel_jobs(
            *final(c),
        ) == channel_jobs(*old(c)).push(job),
        channel_jobs(*old(c)).len() >= channel_capacity(*old(c)) ==> !accepted && channel_jobs(
            *final(c),
        ) == channel_jobs(*old(c)),
{
    c.sender.try_send(job).is_ok()
}

/// Relies on crossbeam_channel::Receiver::recv: on a non-empty channel it
/// returns the oldest message. The requires keeps out the empty channel, on
/// which recv would block with no other producer left.
#[verifier::external_body]
fn channel_recv(c: &mut JobChannel) -> (job: FileJob)
    requires
        channel_jobs(*old(c)).len() > 0,
    ensures
        job == channel_jobs(*old(c))[0],
        channel_jobs(*final(c)) == channel_jobs(*old(c)).drop_first(),
        channel_capacity(*final(c)) == channel_capacity(*old(c)),
{
    c.receiver.recv().unwrap()
}

/// Relies on crossbeam_channel::Receiver::try_recv: it returns the oldest
/// message, or an Empty error at once when there is none.
#[verifier::external_body]
fn channel_try_recv(c: &mut JobChannel) -> (r: Option<FileJob>)
    ensures
        channel_capacity(*final(c)) == channel_capacity(*old(c)),
        channel_jobs(*old(c)).len() == 0 ==> r is None && channel_jobs(*final(c)) == channel_jobs(
            *old(c),
        ),
        channel_jobs(*old(c)).len() > 0 ==> r == Some(channel_jobs(*old(c))[0]) && channel_jobs(
            *final(c),
        ) == channel_jobs(*old(c)).drop_first(),
{
    c.receiver.try_recv().ok()
}

/// Relies on crossbeam_channel::Receiver::recv_timeout: it returns the oldest
/// message when there is one; with both halves held by this struct alone an
/// empty channel stays empty, so the call times out and reports that.
#[verifier::external_body]
fn channel_recv_timeout(c: &mut JobChannel, timeout_ms: u64) -> (r: Option<FileJob>)
    ensures
        channel_capacity(*final(c)) == channel_capacity(*old(c)),
        channel_jobs(*old(c)).len() == 0 ==> r is None && channel_jobs(*final(c)) == channel_jobs(
            *old(c),
        ),
        channel_jobs(*old(c)).len() > 0 ==> r == Some(channel_jobs(*old(c))[0]) && channel_jobs(
            *final(c),
        ) == channel_jobs(*old(c)).drop_first(),
{
    match c.receiver.recv_timeout(std::time::Duration::from_millis(timeout_ms)) {
        Ok(job) => Some(job),
        Err(_) => None,
    }
}

/// The bounded hand-off queue between the scanner pool and the deleter pool:
/// a FIFO of jobs plus two monotonic counters, `enqueued` and `dequeued`,
/// whose difference is the queue's depth.
pub struct AdaptiveQueue {
    channel: JobChannel,
    capacity: usize,
    enqueued: u64,
    dequeued: u64,
}

impl AdaptiveQueue {
    /// The jobs now in the queue, oldest first.
    pub closed spec fn jobs(self) -> Seq<FileJob> {
        channel_jobs(self.channel)
    }

    /// How many jobs were ever accepted.
    pub closed spec fn enqueued_total(self) -> u64 {
        self.enqueued
    }

    /// How many jobs were ever handed out.
    pub closed spec fn dequeued_total(self) -> u64 {
        self.dequeued
    }

    /// The capacity the queue was created with.
    pub closed spec fn capacity_spec(self) -> nat {
        self.capacity as nat
    }

    /// The queue's current depth: accepted minus handed out.
    pub open spec fn depth_spec(self) -> int {
        self.enqueued_total() - self.dequeued_total()
    }

    /// The queue's internal consistency: the counters' difference is exactly
    /// the number of jobs held, which never exceeds the capacity.
    pub closed spec fn wf(self) -> bool {
        &&& channel_capacity(self.channel) == self.capacity as nat
        &&& 1 <= self.capacity
        &&& self.dequeued <= self.enqueued
        &&& self.enqueued - self.dequeued == self.jobs().len()
        &&& self.jobs().len() <= self.capacity
    }

    /// Creates an empty queue of the given capacity.
    pub fn new(initial_capacity: usize) -> (q: AdaptiveQueue)
        requires
            1 <= initial_capacity <= 0x1000_0000,
        ensures
            q.wf(),
            q.jobs() == Seq::<FileJob>::empty(),
            q.enqueued_total() == 0,
            q.dequeued_total() == 0,
            q.capacity_spec() == initial_capacity,
    {
        AdaptiveQueue {
            channel: channel_new(initial_capacity),
            capacity: initial_capacity,
            enqueued: 0,
            dequeued: 0,
        }
    }

    /// Appends a job. The queue must have room: a full queue would block the
    /// producer until a consumer runs, and no consumer runs here.
    pub fn send(&mut self, job: FileJob)
        requires
            old(self).wf(),
            old(self).jobs().len() < old(self).capacity_spec(),
            old(self).enqueued_total() < u64::MAX,
        ensures
            final(self).wf(),
            final(self).jobs() == old(self).jobs().push(job),
            final(self).enqueued_total() == old(self).enqueued_total() + 1,
            final(self).dequeued_total() == old(self).dequeued_total(),
            final(self).capacity_spec() == old(self).capacity_spec(),
    {
        channel_send(&mut self.channel, job);
        self.enqueued = self.enqueued + 1;
    }

    /// Appends a job if the queue has room, reporting whether it did.
    pub fn try_send(&mut self, job: FileJob) -> (accepted: bool)
        requires
            old(self).wf(),
            old(self).enqueued_total() < u64::MAX,
        ensures
            final(self).wf(),
            final(self).dequeued_total() == old(self).dequeued_total(),
            final(self).capacity_spec() == old(self).capacity_spec(),
            accepted == (old(self).jobs().len() < old(self).capacity_spec()),
            accepted ==> final(self).jobs() == old(self).jobs().push(job),
            accepted ==> final(self).enqueued_total() == old(self).enqueued_total() + 1,
            !accepted ==> final(self).jobs() == old(self).jobs() && final(self).enqueued_total()
                == old(self).enqueued_total(),
    {
        let accepted = channel_try_send(&mut self.channel, job);
        if accepted {
            self.enqueued = self.enqueued + 1;
        }
        accepted
    }

    /// Removes and returns the oldest job. The queue must be non-empty: an
    /// empty queue would block the consumer, and no producer runs here.
    pub fn recv(&mut self) -> (job: FileJob)
        requires
            old(self).wf(),
            old(self).jobs().len() > 0,
        ensures
            final(self).wf(),
            job == old(self).jobs()[0],
            final(self).jobs() == old(self).jobs().drop_first(),
            final(self).dequeued_total() == old(self).dequeued_total() + 1,
            final(self).enqueued_total() == old(self).enqueued_total(),
            final(self).capacity_spec() == old(self).capacity_spec(),
    {
        let job = channel_recv(&mut self.channel);
        self.dequeued = self.dequeued + 1;
        job
    }

    /// Removes and returns the oldest job, or reports an empty queue at once.
    pub fn try_recv(&mut self) -> (r: Option<FileJob>)
        requires
            old(self).wf(),
        ensures
            final(self).wf(),
            final(self).enqueued_total() == old(self).enqueued_total(),
            final(self).capacity_spec() == old(self).capacity_spec(),
            old(self).jobs().len() == 0 ==> r is None && final(self).jobs() == old(self).jobs()
                && final(self).dequeued_total() == old(self).dequeued_total(),
            old(self).jobs().len() > 0 ==> r == Some(old(self).jobs()[0]),
            old(self).jobs().len() > 0 ==> final(self).jobs() == old(self).jobs().drop_first(),
            old(self).jobs().len() > 0 ==> final(self).dequeued_total() == old(self).dequeued_total() + 1,
    {
        let r = channel_try_recv(&mut self.channel);
        if r.is_some() {
            self.dequeued = self.dequeued + 1;
        }
        r
    }

    /// Removes and returns the oldest job; on an empty queue it waits out the
    /// timeout and reports the queue empty.
    pub fn recv_timeout(&mut self, timeout_ms: u64) -> (r: Option<FileJob>)
        requires
            old(self).wf(),
        ensures
            final(self).wf(),
            final(self).enqueued_total() == old(self).enqueued_total(),
            final(self).capacity_spec() == old(self).capacity_spec(),
            old(self).jobs().len() == 0 ==> r is None && final(self).jobs() == old(self).jobs()
                && final(self).dequeued_total() == old(self).dequeued_total(),
            old(self).jobs().len() > 0 ==> r == Some(old(self).jobs()[0]),
            old(self).jobs().len() > 0 ==> final(self).jobs() == old(self).jobs().drop_first(),
            old(self).jobs().len() > 0 ==> final(self).dequeued_total() == old(self).dequeued_total() + 1,
    {
        let r = channel_recv_timeout(&mut self.channel, timeout_ms);
        if r.is_some() {
            self.dequeued = self.dequeued + 1;
        }
        r
    }

    /// The queue's depth: jobs accepted and not yet handed out.
    pub fn depth(&self) -> (d: usize)
        requires
            self.wf(),
        ensures
            d == self.depth_spec(),
            d == self.jobs().len(),
    {
        let d = self.enqueued - self.dequeued;
        d as usize
    }

    /// The capacity the queue was created with.
    pub fn capacity(&self) -> (c: usize)
        ensures
            c == self.capacity_spec(),
    {
        self.capacity
    }

    /// The count of jobs ever accepted, for progress tracking.
    pub fn enqueued_counter(&self) -> (n: u64)
        ensures
            n == self.enqueued_total(),
    {
        self.enqueued
    }

    /// Whether the queue holds no job.
    pub fn is_empty(&self) -> (r: bool)
        requires
            self.wf(),
        ensures
            r == (self.jobs().len() == 0),
    {
        self.depth() == 0
    }
}

} // verus!
