//! The reactor and the loop that drives one computation.
//!
//! The reactor keeps the books of a kernel event queue that somebody else
//! owns. It says which request is to be made of the queue next, and takes in
//! what the queue answered.
use crate::future::{Future, Interest, IntoFuture, RawFd, Waitable};
use crate::os::{into_io_error, io_error_of};
use crate::tcp::{CloseFuture, CloseView};
use vstd::prelude::*;
use vstd::seq_lib::lemma_seq_contains_after_push;

verus! {

/// The user data that the reactor attaches to every interest it registers.
pub const USER_DATA: isize = 7;

/// How many events one wait may deliver.
pub const EVENT_ROOM: usize = 1;

/// The condition that an event of the queue reports.
#[derive(Debug, Clone, Copy, PartialEq, Eq, Structural)]
pub enum EventFilter {
    /// The descriptor has data to read.
    Read(RawFd),
    /// Any other condition; the reactor never asks for one.
    Other,
}

/// An event that the queue delivered.
#[derive(Debug, Clone, Copy, PartialEq, Eq, Structural)]
pub struct Event {
    /// The condition that fired.
    pub filter: EventFilter,
    /// The user data of the interest that fired.
    pub udata: isize,
}

/// What a change does to the interest set of the queue.
#[derive(Debug, Clone, Copy, PartialEq, Eq, Structural)]
pub enum EventFlags {
    /// Add the interest.
    Add,
    /// Delete the interest.
    Delete,
}

/// A change of the read interest in one descriptor.
#[derive(Debug, Clone, Copy, PartialEq, Eq, Structural)]
pub struct Change {
    /// The descriptor.
    pub fd: RawFd,
    /// Whether the interest is added or deleted.
    pub flags: EventFlags,
    /// The user data that goes with the interest.
    pub udata: isize,
}

/// One call of the queue.
#[derive(Debug, Clone, Copy, PartialEq, Eq, Structural)]
pub enum Request {
    /// Apply the change and return at once, without collecting events.
    Change(Change),
    /// Block, without a timeout, until at least one registered interest is
    /// ready, and deliver at most `room` events.
    Wait { room: usize },
}

/// What the queue answered to a request: the events it delivered, or its
/// refusal.
pub type Reply = Result<Vec<Event>, std::io::Error>;

/// The request that grants what a computation asked for: a read interest is
/// added to the queue, and an interest in a descriptor that is about to be
/// closed is deleted from it.
pub open spec fn request_for(waitable: Waitable) -> Request {
    match waitable {
        Waitable::Fd(fd, Interest::Read) => Request::Change(
            Change { fd, flags: EventFlags::Add, udata: USER_DATA },
        ),
        Waitable::Fd(fd, Interest::Close) => Request::Change(
            Change { fd, flags: EventFlags::Delete, udata: USER_DATA },
        ),
    }
}

/// Whether one of the conditions asks for a descriptor to become readable,
/// so that the loop has to block.
pub open spec fn must_wait(wanted: Seq<Waitable>) -> bool {
    exists|i: int|
        0 <= i < wanted.len() && (#[trigger] wanted[i]).interest() == Interest::Read
}

/// The descriptors that the events report as readable.
pub open spec fn reported(events: Seq<Event>) -> Set<RawFd> {
    Set::new(
        |fd: RawFd|
            exists|i: int|
                0 <= i < events.len() && (#[trigger] events[i]).filter == EventFilter::Read(fd),
    )
}

/// Whether every event reports that a descriptor is readable.
pub open spec fn all_read(events: Seq<Event>) -> bool {
    forall|i: int| 0 <= i < events.len() ==> (#[trigger] events[i]).filter is Read
}

/// The condition that an event reports, for a computation to consume.
pub open spec fn waitable_of(event: Event) -> Waitable {
    match event.filter {
        EventFilter::Read(fd) => Waitable::Fd(fd, Interest::Read),
        EventFilter::Other => arbitrary(),
    }
}

/// Turns the outcome of a call of the queue into a reply: the events stay as
/// they are, and an error of the queue becomes an I/O error.
pub fn reply_of(outcome: Result<Vec<Event>, rustix::io::Errno>) -> (reply: Reply)
    ensures
        outcome matches Ok(events) ==> reply == Ok::<Vec<Event>, std::io::Error>(events),
        outcome matches Err(errno) ==> reply == Err::<Vec<Event>, std::io::Error>(io_error_of(errno)),
{
    match outcome {
        Ok(events) => Ok(events),
        Err(errno) => Err(into_io_error(errno)),
    }
}

/// The books of a reactor as plain values.
pub struct PollerView {
    /// The events that were delivered and not yet consumed.
    pub events: Seq<Event>,
    /// The descriptors with a read interest that is registered and has not
    /// been reported ready since.
    pub registered: Set<RawFd>,
}

impl PollerView {
    /// The books of a reactor that has just been opened.
    pub open spec fn empty() -> PollerView {
        PollerView { events: Seq::empty(), registered: Set::empty() }
    }

    /// The delivered events as the conditions that a computation is told
    /// of.
    pub open spec fn ready(self) -> Seq<Waitable> {
        self.events.map_values(|event: Event| waitable_of(event))
    }

    /// The books without the delivered events.
    pub open spec fn cleared(self) -> PollerView {
        PollerView { events: Seq::empty(), ..self }
    }

    /// The books after the queue has carried out `request` and delivered
    /// `events`.
    ///
    /// An added interest is registered, a deleted one is not. A wait replaces
    /// the delivered events, and a read interest that one of them reports
    /// ready is used up.
    pub open spec fn completed(self, request: Request, events: Seq<Event>) -> PollerView {
        match request {
            Request::Change(change) => match change.flags {
                EventFlags::Add => PollerView {
                    registered: self.registered.insert(change.fd),
                    ..self
                },
                EventFlags::Delete => PollerView {
                    registered: self.registered.remove(change.fd),
                    ..self
                },
            },
            Request::Wait { room } => PollerView {
                events,
                registered: self.registered.difference(reported(events)),
            },
        }
    }
}

/// The reactor: the delivered events and the registered interests of one
/// kernel event queue.
pub struct Poller {
    events: Vec<Event>,
    registered: Vec<RawFd>,
}

impl View for Poller {
    type V = PollerView;

    closed spec fn view(&self) -> PollerView {
        PollerView { events: self.events@, registered: self.registered@.to_set() }
    }
}

impl Poller {
    /// The books for a queue that has just been created.
    pub fn open() -> (poller: Poller)
        ensures
            poller@ == PollerView::empty(),
    {
        let poller = Poller { events: Vec::with_capacity(EVENT_ROOM), registered: Vec::new() };
        assert(poller@.registered =~= Set::empty());
        poller
    }

    /// The request that registers interest in reading from `fd`.
    pub fn register_read(&self, fd: RawFd) -> (request: Request)
        ensures
            request == request_for(Waitable::Fd(fd, Interest::Read)),
    {
        Request::Change(Change { fd, flags: EventFlags::Add, udata: USER_DATA })
    }

    /// The request that waits for some registered interest to become ready.
    pub fn wait(&self) -> (request: Request)
        ensures
            request == (Request::Wait { room: EVENT_ROOM }),
    {
        Request::Wait { room: EVENT_ROOM }
    }

    /// The request that gives up the interest in reading from `fd`.
    pub fn unregister_read(&self, fd: RawFd) -> (request: Request)
        ensures
            request == request_for(Waitable::Fd(fd, Interest::Close)),
    {
        Request::Change(Change { fd, flags: EventFlags::Delete, udata: USER_DATA })
    }

    /// Whether a read interest in `fd` is outstanding.
    pub fn is_registered(&self, fd: RawFd) -> (registered: bool)
        ensures
            registered == self@.registered.contains(fd),
    {
        let mut i: usize = 0;
        while i < self.registered.len()
            invariant
                i <= self.registered@.len(),
                forall|j: int| 0 <= j < i ==> self.registered@[j] != fd,
            decreases self.registered@.len() - i,
        {
            if self.registered[i] == fd {
                return true;
            }
            i += 1;
        }
        false
    }

    /// The delivered events that have not been consumed yet.
    pub fn delivered(&self) -> (events: &Vec<Event>)
        ensures
            events@ == self@.events,
    {
        &self.events
    }

    /// The delivered events as the conditions that a computation is told
    /// of; `None` if one of them reports anything but a readable descriptor.
    pub fn events(&self) -> (ready: Option<Vec<Waitable>>)
        ensures
            ready.is_some() == all_read(self@.events),
            ready matches Some(ready) ==> ready@ == self@.ready(),
    {
        let mut ready: Vec<Waitable> = Vec::new();
        let mut i: usize = 0;
        while i < self.events.len()
            invariant
                i <= self.events@.len(),
                ready@.len() == i,
                forall|j: int| 0 <= j < i ==> (#[trigger] self.events@[j]).filter is Read,
                forall|j: int| 0 <= j < i ==> ready@[j] == waitable_of(#[trigger] self.events@[j]),
            decreases self.events@.len() - i,
        {
            match self.events[i].filter {
                EventFilter::Read(fd) => ready.push(Waitable::Fd(fd, Interest::Read)),
                EventFilter::Other => {
                    return None;
                },
            }
            i += 1;
        }
        assert(ready@ =~= self@.ready());
        Some(ready)
    }

    /// Hands the delivered events out as conditions and forgets them. If one
    /// of them reports anything but a readable descriptor, nothing is handed
    /// out and nothing forgotten.
    pub fn drain_as_waitables(&mut self) -> (ready: Option<Vec<Waitable>>)
        ensures
            ready.is_some() == all_read(old(self)@.events),
            ready matches Some(ready) ==> ready@ == old(self)@.ready(),
            ready.is_some() ==> final(self)@ == old(self)@.cleared(),
            ready.is_none() ==> final(self)@ == old(self)@,
    {
        let ready = self.events();
        if ready.is_some() {
            self.clear();
        }
        ready
    }

    /// Forgets the delivered events, so that none is consumed twice.
    pub fn clear(&mut self)
        ensures
            final(self)@ == old(self)@.cleared(),
    {
        self.events.clear();
    }

    /// Takes in what the queue answered to `request`, and returns the number
    /// of events it delivered. A refusal changes nothing and is returned as
    /// it is.
    pub fn complete(&mut self, request: Request, reply: Reply) -> (count: std::io::Result<usize>)
        ensures
            reply matches Err(error) ==> count == Err::<usize, std::io::Error>(error),
            reply matches Err(_) ==> final(self)@ == old(self)@,
            reply matches Ok(events) ==> count == Ok::<usize, std::io::Error>(events.len()),
            reply matches Ok(events) ==> final(self)@ == old(self)@.completed(request, events@),
    {
        match reply {
            Err(error) => Err(error),
            Ok(events) => {
                let count = events.len();
                match request {
                    Request::Change(change) => match change.flags {
                        EventFlags::Add => self.insert(change.fd),
                        EventFlags::Delete => self.remove(change.fd),
                    },
                    Request::Wait { room } => {
                        let mut i: usize = 0;
                        while i < events.len()
                            invariant
                                i <= events@.len(),
                                self.events@ == old(self).events@,
                                self@.registered == old(self)@.registered.difference(
                                    reported(events@.take(i as int)),
                                ),
                            decreases events@.len() - i,
                        {
                            proof {
                                lemma_reported_take(events@, i as int);
                            }
                            match events[i].filter {
                                EventFilter::Read(fd) => self.remove(fd),
                                EventFilter::Other => {},
                            }
                            i += 1;
                            assert(self@.registered =~= old(self)@.registered.difference(
                                reported(events@.take(i as int)),
                            ));
                        }
                        assert(events@.take(i as int) =~= events@);
                        self.events = events;
                    },
                }
                Ok(count)
            },
        }
    }

    fn insert(&mut self, fd: RawFd)
        ensures
            final(self)@.registered == old(self)@.registered.insert(fd),
            final(self)@.events == old(self)@.events,
    {
        if !self.is_registered(fd) {
            self.registered.push(fd);
        }
        assert(self@.registered =~= old(self)@.registered.insert(fd)) by {
            assert forall|x: RawFd|
                self.registered@.contains(x) <==> old(self).registered@.contains(x) || x == fd by {
                lemma_seq_contains_after_push(old(self).registered@, fd, x);
            }
        }
    }

    fn remove(&mut self, fd: RawFd)
        ensures
            final(self)@.registered == old(self)@.registered.remove(fd),
            final(self)@.events == old(self)@.events,
    {
        let mut kept: Vec<RawFd> = Vec::new();
        let mut i: usize = 0;
        while i < self.registered.len()
            invariant
                i <= self.registered@.len(),
                self.registered@ == old(self).registered@,
                self.events@ == old(self).events@,
                forall|x: RawFd| #[trigger]
                    kept@.contains(x) <==> x != fd && self.registered@.take(i as int).contains(x),
            decreases self.registered@.len() - i,
        {
            let x = self.registered[i];
            let ghost before = self.registered@.take(i as int);
            let ghost old_kept = kept@;
            if x != fd {
                kept.push(x);
            }
            i += 1;
            proof {
                let now = self.registered@.take(i as int);
                assert(now =~= before.push(x));
                assert forall|y: RawFd| #[trigger]
                    kept@.contains(y) <==> y != fd && now.contains(y) by {
                    lemma_seq_contains_after_push(before, x, y);
                    lemma_seq_contains_after_push(old_kept, x, y);
                    assert(old_kept.contains(y) <==> y != fd && before.contains(y));
                }
            }
        }
        assert(self.registered@.take(i as int) =~= self.registered@);
        self.registered = kept;
        assert(self@.registered =~= old(self)@.registered.remove(fd));
    }

    /// Begins to drive `future` to its result: polls it with the events that
    /// were delivered, and goes on as far as can be done without the queue.
    ///
    /// The turn says what comes next. To go on after a request, see
    /// [`Drive::resume`].
    pub fn block_on<Fut: IntoFuture>(&mut self, future: Fut) -> (turn: Turn<Fut::IntoFuture>)
        ensures
            all_read(old(self)@.events) ==> begun(future, old(self)@, final(self)@, turn),
            !all_read(old(self)@.events) ==> turn is Foreign && final(self)@ == old(self)@,
    {
        let converted = future.into_future();
        let ghost begun_with = converted;
        let turn = Drive::poll_round(converted, self);
        assert(future.becomes(&begun_with));
        turn
    }
}

/// Where the drive loop stands after one of its turns.
pub enum Turn<F: Future> {
    /// The queue is to carry out the request of the drive; the loop goes on
    /// with its reply.
    Submit(Drive<F>),
    /// The computation has completed with this result.
    Ready(F::Output),
    /// The queue refused a request, which ends the loop.
    Failed(std::io::Error),
    /// The computation asked for nothing to wait for and yet had no result:
    /// its implementation is broken.
    Stalled,
    /// The queue delivered an event that reports anything but a readable
    /// descriptor.
    Foreign,
}

/// How the loop ends once `take` has been called: with the result if there
/// is one.
pub open spec fn concluded<F: Future>(taken: Option<F::Output>) -> Turn<F> {
    match taken {
        Some(output) => Turn::Ready(output),
        None => Turn::Stalled,
    }
}

/// Ends the loop with what `take` returned.
pub fn conclude<F: Future>(taken: Option<F::Output>) -> (turn: Turn<F>)
    ensures
        turn == concluded::<F>(taken),
{
    match taken {
        Some(output) => Turn::Ready(output),
        None => Turn::Stalled,
    }
}

/// Whether the loop may end with `turn` by calling `take` on `future`: with
/// the result that `take` hands out, and as stalled if it hands out none.
pub open spec fn finished<F: Future>(future: F, turn: Turn<F>) -> bool {
    exists|end: F, taken: Option<F::Output>| #[trigger]
        future.takes(&end, taken) && turn == concluded::<F>(taken)
}

/// What the loop does when the first `applied` of the conditions `wanted`,
/// which the last `poll` returned, have been seen to.
///
/// The next condition is granted by a request of its own. When none is left
/// the delivered events are forgotten. Then the loop waits if one of the
/// conditions was a read interest; if none was, it calls `take` and ends.
pub open spec fn advanced<F: Future>(
    future: F,
    wanted: Seq<Waitable>,
    applied: nat,
    before: PollerView,
    after: PollerView,
    turn: Turn<F>,
) -> bool {
    if applied < wanted.len() {
        &&& after == before
        &&& turn matches Turn::Submit(drive)
        &&& drive.future() == future
        &&& drive.wanted() == wanted
        &&& drive.applied() == applied + 1
        &&& drive.request() == request_for(wanted[applied as int])
    } else if must_wait(wanted) {
        &&& after == before.cleared()
        &&& turn matches Turn::Submit(drive)
        &&& drive.future() == future
        &&& drive.wanted() == wanted
        &&& drive.applied() == applied
        &&& drive.request() == (Request::Wait { room: EVENT_ROOM })
    } else {
        &&& after == before.cleared()
        &&& finished(future, turn)
    }
}

/// What the loop does in a round that begins with `poll`: the computation is
/// told of the delivered events, and the loop goes on from the first of the
/// conditions that `poll` returns.
pub open spec fn polled<F: Future>(
    future: F,
    before: PollerView,
    after: PollerView,
    turn: Turn<F>,
) -> bool {
    exists|next: F, wanted: Seq<Waitable>| #[trigger]
        future.polls(before.ready(), &next, wanted)
            && advanced(next, wanted, 0, before, after, turn)
}

/// What the loop does from its beginning: `future` is converted into a
/// computation, with which the first round is made.
pub open spec fn begun<Fut: IntoFuture>(
    future: Fut,
    before: PollerView,
    after: PollerView,
    turn: Turn<Fut::IntoFuture>,
) -> bool {
    exists|converted: Fut::IntoFuture| #[trigger]
        future.becomes(&converted) && polled(converted, before, after, turn)
}

/// A computation in the drive loop, at a point where the queue has been
/// asked for something.
pub struct Drive<F: Future> {
    future: F,
    wanted: Vec<Waitable>,
    applied: usize,
    should_wait: bool,
    request: Request,
}

impl<F: Future> Drive<F> {
    #[verifier::type_invariant]
    spec fn inv(self) -> bool {
        &&& self.applied <= self.wanted@.len()
        &&& self.should_wait == must_wait(self.wanted@.take(self.applied as int))
    }

    /// The computation that is driven.
    pub closed spec fn future(&self) -> F {
        self.future
    }

    /// The conditions that the last `poll` returned.
    pub closed spec fn wanted(&self) -> Seq<Waitable> {
        self.wanted@
    }

    /// How many of the conditions have been seen to.
    pub closed spec fn applied(&self) -> nat {
        self.applied as nat
    }

    /// The request that the queue is to carry out.
    pub closed spec fn spec_request(&self) -> Request {
        self.request
    }

    /// The request that the queue is to carry out.
    #[verifier::when_used_as_spec(spec_request)]
    pub fn request(&self) -> (request: Request)
        ensures
            request == self.request(),
    {
        self.request
    }

    /// Goes on with the reply of the queue to the request of the drive.
    ///
    /// A refusal ends the loop and leaves the reactor as it was. Else the
    /// reactor takes the reply in. After a change the loop goes on with the
    /// conditions that are left. After a wait the computation is polled with
    /// the delivered events, unless one of them is foreign.
    pub fn resume(self, poller: &mut Poller, reply: Reply) -> (turn: Turn<F>)
        ensures
            reply matches Err(error) ==> turn == Turn::<F>::Failed(error),
            reply matches Err(_) ==> final(poller)@ == old(poller)@,
            reply matches Ok(events) ==> {
                let taken_in = old(poller)@.completed(self.request(), events@);
                match self.request() {
                    Request::Change(_) => advanced(
                        self.future(),
                        self.wanted(),
                        self.applied(),
                        taken_in,
                        final(poller)@,
                        turn,
                    ),
                    Request::Wait { .. } => if all_read(events@) {
                        polled(self.future(), taken_in, final(poller)@, turn)
                    } else {
                        turn is Foreign && final(poller)@ == taken_in
                    },
                }
            },
    {
        proof {
            use_type_invariant(&self);
        }
        let Drive { future, wanted, applied, should_wait, request } = self;
        match poller.complete(request, reply) {
            Err(error) => Turn::Failed(error),
            Ok(_) => match request {
                Request::Change(_) => Drive::advance(future, wanted, applied, should_wait, poller),
                Request::Wait { .. } => Drive::poll_round(future, poller),
            },
        }
    }

    /// One round of the loop from its beginning.
    fn poll_round(future: F, poller: &mut Poller) -> (turn: Turn<F>)
        ensures
            all_read(old(poller)@.events) ==> polled(future, old(poller)@, final(poller)@, turn),
            !all_read(old(poller)@.events) ==> turn is Foreign && final(poller)@ == old(poller)@,
    {
        match poller.events() {
            None => Turn::Foreign,
            Some(ready) => {
                let mut next = future;
                let wanted = next.poll(ready.as_slice());
                let ghost polled_future = next;
                let ghost polled_wanted = wanted@;
                assert(!must_wait(wanted@.take(0)));
                let turn = Drive::advance(next, wanted, 0, false, poller);
                assert(future.polls(old(poller)@.ready(), &polled_future, polled_wanted));
                turn
            },
        }
    }

    /// The rest of a round, after `poll` and after `applied` of its
    /// conditions have been seen to.
    fn advance(
        future: F,
        wanted: Vec<Waitable>,
        applied: usize,
        should_wait: bool,
        poller: &mut Poller,
    ) -> (turn: Turn<F>)
        requires
            applied <= wanted@.len(),
            should_wait == must_wait(wanted@.take(applied as int)),
        ensures
            advanced(future, wanted@, applied as nat, old(poller)@, final(poller)@, turn),
    {
        if applied < wanted.len() {
            let mut should_wait = should_wait;
            let request = match wanted[applied] {
                Waitable::Fd(fd, Interest::Read) => {
                    should_wait = true;
                    poller.register_read(fd)
                },
                Waitable::Fd(fd, Interest::Close) => poller.unregister_read(fd),
            };
            proof {
                lemma_must_wait_take(wanted@, applied as int);
            }
            Turn::Submit(Drive { future, wanted, applied: applied + 1, should_wait, request })
        } else {
            assert(wanted@.take(applied as int) =~= wanted@);
            poller.clear();
            if should_wait {
                let request = poller.wait();
                Turn::Submit(Drive { future, wanted, applied, should_wait, request })
            } else {
                let mut end = future;
                let taken = end.take();
                assert(future.takes(&end, taken));
                conclude(taken)
            }
        }
    }
}

/// Whether the first `i + 1` conditions make the loop wait: if the first `i`
/// do, or condition `i` is a read interest.
proof fn lemma_must_wait_take(wanted: Seq<Waitable>, i: int)
    requires
        0 <= i < wanted.len(),
    ensures
        must_wait(wanted.take(i + 1)) == (must_wait(wanted.take(i))
            || wanted[i].interest() == Interest::Read),
{
    let before = wanted.take(i);
    let now = wanted.take(i + 1);
    if must_wait(before) {
        let k = choose|k: int|
            0 <= k < before.len() && (#[trigger] before[k]).interest() == Interest::Read;
        assert(now[k].interest() == Interest::Read);
    }
    if wanted[i].interest() == Interest::Read {
        assert(now[i].interest() == Interest::Read);
    }
    if must_wait(now) {
        let k = choose|k: int|
            0 <= k < now.len() && (#[trigger] now[k]).interest() == Interest::Read;
        if k < i {
            assert(before[k].interest() == Interest::Read);
        }
    }
}

/// The descriptors reported by the first `i + 1` events are those reported
/// by the first `i` and the one that event `i` reports, if any.
proof fn lemma_reported_take(events: Seq<Event>, i: int)
    requires
        0 <= i < events.len(),
    ensures
        events[i].filter matches EventFilter::Read(fd) ==> reported(events.take(i + 1))
            == reported(events.take(i)).insert(fd),
        events[i].filter is Other ==> reported(events.take(i + 1)) == reported(events.take(i)),
{
    let before = events.take(i);
    let now = events.take(i + 1);
    assert forall|fd: RawFd| reported(now).contains(fd) <==> reported(before).contains(fd)
        || events[i].filter == EventFilter::Read(fd) by {
        if reported(before).contains(fd) {
            let k = choose|k: int|
                0 <= k < before.len() && (#[trigger] before[k]).filter == EventFilter::Read(fd);
            assert(now[k].filter == EventFilter::Read(fd));
        }
        if events[i].filter == EventFilter::Read(fd) {
            assert(now[i].filter == EventFilter::Read(fd));
        }
        if reported(now).contains(fd) {
            let k = choose|k: int|
                0 <= k < now.len() && (#[trigger] now[k]).filter == EventFilter::Read(fd);
            if k < i {
                assert(before[k].filter == EventFilter::Read(fd));
            }
        }
    }
    match events[i].filter {
        EventFilter::Read(fd) => {
            assert(reported(now) =~= reported(before).insert(fd));
        },
        EventFilter::Other => {
            assert(reported(now) =~= reported(before));
        },
    }
}

/// No spurious completion: a round that ends with a result ends so only
/// where nothing was left to wait for, and with a result that `take` handed
/// out.
pub proof fn lemma_no_spurious_completion<F: Future>(
    future: F,
    wanted: Seq<Waitable>,
    applied: nat,
    before: PollerView,
    after: PollerView,
    turn: Turn<F>,
)
    requires
        advanced(future, wanted, applied, before, after, turn),
        turn is Ready,
    ensures
        applied >= wanted.len(),
        !must_wait(wanted),
        exists|end: F| #[trigger] future.takes(&end, Some(turn->Ready_0)),
{
    let (end, taken) = choose|end: F, taken: Option<F::Output>| #[trigger]
        future.takes(&end, taken) && turn == concluded::<F>(taken);
    assert(future.takes(&end, Some(turn->Ready_0)));
}

/// The same of a round that begins with `poll`: it ends with a result only
/// if `poll` asked for nothing and `take` then handed the result out.
pub proof fn lemma_no_spurious_completion_after_poll<F: Future>(
    future: F,
    before: PollerView,
    after: PollerView,
    turn: Turn<F>,
)
    requires
        polled(future, before, after, turn),
        turn is Ready,
    ensures
        exists|next: F, end: F|
            #[trigger] future.polls(before.ready(), &next, Seq::empty())
                && #[trigger] next.takes(&end, Some(turn->Ready_0)),
{
    let (next, wanted) = choose|next: F, wanted: Seq<Waitable>| #[trigger]
        future.polls(before.ready(), &next, wanted)
            && advanced(next, wanted, 0, before, after, turn);
    lemma_no_spurious_completion(next, wanted, 0, before, after, turn);
    assert(wanted =~= Seq::empty());
    let end = choose|end: F| #[trigger] next.takes(&end, Some(turn->Ready_0));
    assert(future.polls(before.ready(), &next, Seq::empty())
        && next.takes(&end, Some(turn->Ready_0)));
}

/// Teardown: driving a disconnect that has not been polled yet asks the
/// queue to delete the interest in its descriptor, and once the queue has
/// done so the loop ends with the result and no interest in the descriptor
/// is outstanding.
pub proof fn lemma_disconnect_unregisters(
    close: CloseFuture,
    before: PollerView,
    asked: PollerView,
    turn: Turn<CloseFuture>,
    events: Seq<Event>,
    after: PollerView,
    end: Turn<CloseFuture>,
)
    requires
        close@ == CloseView::fresh(close@.fd),
        polled(close, before, asked, turn),
        turn matches Turn::Submit(drive) ==> advanced(
            drive.future(),
            drive.wanted(),
            drive.applied(),
            asked.completed(drive.request(), events),
            after,
            end,
        ),
    ensures
        asked == before,
        turn matches Turn::Submit(drive)
            && drive.request() == request_for(Waitable::Fd(close@.fd, Interest::Close)),
        end == Turn::<CloseFuture>::Ready(()),
        !after.registered.contains(close@.fd),
{
    let (next, wanted) = choose|next: CloseFuture, wanted: Seq<Waitable>| #[trigger]
        close.polls(before.ready(), &next, wanted)
            && advanced(next, wanted, 0, before, asked, turn);
    assert(wanted[0] == Waitable::Fd(close@.fd, Interest::Close));
    let drive = turn->Submit_0;
    assert(!must_wait(wanted)) by {
        if must_wait(wanted) {
            let i = choose|i: int|
                0 <= i < wanted.len() && (#[trigger] wanted[i]).interest() == Interest::Read;
            assert(i == 0);
        }
    }
}

} // verus!
