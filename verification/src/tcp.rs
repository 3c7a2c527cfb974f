//! The two computations of a non-blocking stream: reading and disconnecting.
//!
//! The stream itself stays with whoever owns the socket. A read is attempted
//! there and its outcome is handed to [`ReadFuture::poll`]; the disconnect
//! needs nothing from outside.
use crate::future::{Future, Interest, RawFd, Waitable};
use crate::os::{is_would_block, would_block};
use vstd::prelude::*;

verus! {

/// A connected stream in non-blocking mode, known by its descriptor.
pub struct AsyncTcpStream {
    fd: RawFd,
}

impl AsyncTcpStream {
    /// The descriptor of the stream.
    pub closed spec fn spec_as_raw_fd(&self) -> RawFd {
        self.fd
    }

    /// Takes over the stream with descriptor `fd`, which has been connected
    /// and switched to non-blocking mode.
    pub fn connect(fd: RawFd) -> (stream: AsyncTcpStream)
        ensures
            stream.as_raw_fd() == fd,
    {
        AsyncTcpStream { fd }
    }

    /// The descriptor of the stream.
    #[verifier::when_used_as_spec(spec_as_raw_fd)]
    pub fn as_raw_fd(&self) -> (fd: RawFd)
        ensures
            fd == self.as_raw_fd(),
    {
        self.fd
    }

    /// Begins a read into `data`. The stream cannot be used otherwise while
    /// the computation lives, and `data` is given back as the computation
    /// leaves it.
    pub fn read<'a, 'b>(&'a mut self, data: &'b mut [u8]) -> (future: ReadFuture<'a, 'b>)
        ensures
            future@ == ReadView::fresh(old(self).as_raw_fd(), old(data)@),
            final(data)@ == final(future.lent())@,
            final(self).as_raw_fd() == old(self).as_raw_fd(),
    {
        ReadFuture { client: self, buffer: data, output: None, consumed: false }
    }

    /// Begins the teardown of the stream, which the computation takes along.
    pub fn disconnect(self) -> (future: CloseFuture)
        ensures
            future@ == CloseView::fresh(self.as_raw_fd()),
    {
        CloseFuture { client: self, state: CloseFutureState::Pending }
    }
}

/// A sequence of at most one item, handed out once.
pub enum Once<T> {
    Empty,
    Once(Option<T>),
}

impl<T> Once<T> {
    /// The items that are still to come.
    pub open spec fn view(&self) -> Seq<T> {
        match *self {
            Once::Empty => Seq::empty(),
            Once::Once(None) => Seq::empty(),
            Once::Once(Some(item)) => seq![item],
        }
    }

    /// Hands out the item if it is still there.
    pub fn next(&mut self) -> (item: Option<T>)
        ensures
            old(self)@.len() == 0 ==> item.is_none(),
            old(self)@.len() > 0 ==> item == Some(old(self)@[0]),
            final(self)@ == Seq::<T>::empty(),
    {
        match self {
            Once::Empty => None,
            Once::Once(opt) => opt.take(),
        }
    }

    /// All items that are still to come, in a vector.
    pub fn collect(self) -> (items: Vec<T>)
        ensures
            items@ == self@,
    {
        let mut rest = self;
        let mut items: Vec<T> = Vec::new();
        if let Some(item) = rest.next() {
            items.push(item);
        }
        assert(items@ =~= self@);
        items
    }
}

/// What one attempt to read from the stream without blocking brought.
pub enum ReadAttempt {
    /// The bytes that were read; none at the end of the data.
    Data(Vec<u8>),
    /// Nothing can be read now without blocking.
    WouldBlock,
    /// The stream failed.
    Failed(std::io::Error),
}

impl ReadAttempt {
    /// Sorts the outcome of a read: an error of the kind `WouldBlock` is no
    /// failure.
    pub fn classify(outcome: Result<Vec<u8>, std::io::Error>) -> (attempt: ReadAttempt)
        ensures
            attempt == ReadAttempt::classified(outcome),
    {
        match outcome {
            Ok(bytes) => ReadAttempt::Data(bytes),
            Err(error) => {
                let blocked = is_would_block(&error);
                ReadAttempt::blocked_or_failed(error, blocked)
            },
        }
    }

    /// What [`ReadAttempt::classify`] returns.
    pub open spec fn classified(outcome: Result<Vec<u8>, std::io::Error>) -> ReadAttempt {
        match outcome {
            Ok(bytes) => ReadAttempt::Data(bytes),
            Err(error) => if would_block(error) {
                ReadAttempt::WouldBlock
            } else {
                ReadAttempt::Failed(error)
            },
        }
    }

    /// The attempt that ended with `error`, given whether the error is of the
    /// kind `WouldBlock`.
    pub fn blocked_or_failed(error: std::io::Error, blocked: bool) -> (attempt: ReadAttempt)
        ensures
            blocked ==> attempt == ReadAttempt::WouldBlock,
            !blocked ==> attempt == ReadAttempt::Failed(error),
    {
        if blocked {
            ReadAttempt::WouldBlock
        } else {
            ReadAttempt::Failed(error)
        }
    }
}

/// A read computation as a plain value.
pub struct ReadView {
    /// The descriptor of the stream that is read.
    pub fd: RawFd,
    /// The bytes of the buffer that is read into.
    pub buffer: Seq<u8>,
    /// The result that waits to be taken.
    pub output: Option<Result<usize, std::io::Error>>,
    /// Whether a result has been taken.
    pub consumed: bool,
}

/// One call on a read computation.
pub enum ReadOp {
    /// `poll`, with what the attempt to read brought.
    Poll(ReadAttempt),
    /// `take`.
    Take,
}

impl ReadView {
    /// The computation that has not been polled yet.
    pub open spec fn fresh(fd: RawFd, buffer: Seq<u8>) -> ReadView {
        ReadView { fd, buffer, output: None, consumed: false }
    }

    /// The computation after `poll`, and what `poll` asks to wait for.
    ///
    /// Bytes that were read go to the front of the buffer and their number
    /// becomes the result. A stream that would block leaves everything as it
    /// is and asks for its descriptor to become readable. A failure becomes
    /// the result. Once a result has been taken nothing happens any more.
    pub open spec fn poll(self, attempt: ReadAttempt) -> (ReadView, Seq<Waitable>) {
        if self.consumed {
            (self, Seq::empty())
        } else {
            match attempt {
                ReadAttempt::Data(bytes) => (
                    ReadView {
                        buffer: bytes@ + self.buffer.skip(bytes@.len() as int),
                        output: Some(Ok(bytes@.len() as usize)),
                        ..self
                    },
                    Seq::empty(),
                ),
                ReadAttempt::WouldBlock => (self, seq![Waitable::Fd(self.fd, Interest::Read)]),
                ReadAttempt::Failed(error) => (
                    ReadView { output: Some(Err(error)), ..self },
                    Seq::empty(),
                ),
            }
        }
    }

    /// The computation after `take`, and what `take` returns.
    pub open spec fn take(self) -> (ReadView, Option<Result<usize, std::io::Error>>) {
        if !self.consumed && self.output.is_some() {
            (ReadView { output: None, consumed: true, ..self }, self.output)
        } else {
            (self, None)
        }
    }

    /// The computation after one call.
    pub open spec fn step(self, op: ReadOp) -> ReadView {
        match op {
            ReadOp::Poll(attempt) => self.poll(attempt).0,
            ReadOp::Take => self.take().0,
        }
    }

    /// The computation after the calls `ops`, in their order.
    pub open spec fn after(self, ops: Seq<ReadOp>) -> ReadView
        decreases ops.len(),
    {
        if ops.len() == 0 {
            self
        } else {
            self.step(ops[0]).after(ops.skip(1))
        }
    }
}

/// The read of one buffer from a stream.
pub struct ReadFuture<'a, 'b> {
    client: &'a AsyncTcpStream,
    buffer: &'b mut [u8],
    output: Option<Result<usize, std::io::Error>>,
    consumed: bool,
}

impl<'a, 'b> View for ReadFuture<'a, 'b> {
    type V = ReadView;

    closed spec fn view(&self) -> ReadView {
        ReadView {
            fd: self.client.as_raw_fd(),
            buffer: self.buffer@,
            output: self.output,
            consumed: self.consumed,
        }
    }
}

impl<'a, 'b> ReadFuture<'a, 'b> {
    /// The buffer as it was lent to the computation.
    pub closed spec fn lent(&self) -> &'b mut [u8] {
        self.buffer
    }

    /// How many bytes one attempt to read may bring: the length of the buffer.
    pub fn room(&self) -> (room: usize)
        ensures
            room == self@.buffer.len(),
    {
        self.buffer.len()
    }

    /// Whether the result has been taken, after which nothing is read any
    /// more.
    pub fn is_consumed(&self) -> (consumed: bool)
        ensures
            consumed == self@.consumed,
    {
        self.consumed
    }

    /// Takes in what an attempt to read brought, and says what to wait for.
    pub fn poll(&mut self, _ready: &[Waitable], attempt: ReadAttempt) -> (wanted: Vec<Waitable>)
        requires
            attempt matches ReadAttempt::Data(bytes) ==> bytes@.len() <= old(self)@.buffer.len(),
        ensures
            final(self)@ == old(self)@.poll(attempt).0,
            wanted@ == old(self)@.poll(attempt).1,
            final(final(self).lent())@ == final(old(self).lent())@,
    {
        if self.consumed {
            return Once::Empty.collect();
        }
        let wanted = match attempt {
            ReadAttempt::Data(bytes) => {
                let n = bytes.len();
                let mut i: usize = 0;
                while i < n
                    invariant
                        n == bytes@.len(),
                        i <= n <= self.buffer@.len(),
                        self.buffer@.len() == old(self).buffer@.len(),
                        forall|j: int| 0 <= j < i ==> self.buffer@[j] == bytes@[j],
                        forall|j: int|
                            i <= j < self.buffer@.len() ==> self.buffer@[j] == old(self).buffer@[j],
                        self.client == old(self).client,
                        self.consumed == old(self).consumed,
                        final(self.buffer)@ == final(old(self).buffer)@,
                    decreases n - i,
                {
                    self.buffer[i] = bytes[i];
                    i += 1;
                }
                self.output = Some(Ok(n));
                assert(self.buffer@ =~= bytes@ + old(self).buffer@.skip(n as int));
                Once::Empty
            },
            ReadAttempt::WouldBlock => Once::Once(
                Some(Waitable::Fd(self.client.as_raw_fd(), Interest::Read)),
            ),
            ReadAttempt::Failed(error) => {
                self.output = Some(Err(error));
                Once::Empty
            },
        };
        wanted.collect()
    }

    /// Ends the computation and gives the buffer back as it stands.
    pub fn release(self) -> (data: &'b mut [u8])
        ensures
            data@ == self@.buffer,
            final(data)@ == final(self.lent())@,
    {
        self.buffer
    }

    /// Hands out the result, once.
    pub fn take(&mut self) -> (output: Option<Result<usize, std::io::Error>>)
        ensures
            final(self)@ == old(self)@.take().0,
            output == old(self)@.take().1,
            final(final(self).lent())@ == final(old(self).lent())@,
    {
        if self.consumed {
            return None;
        }
        let output = self.output.take();
        if output.is_some() {
            self.consumed = true;
        }
        output
    }
}

/// Where the teardown of a stream stands.
#[derive(Debug, Clone, Copy, PartialEq, Eq, Structural)]
pub enum CloseFutureState {
    /// Interest in the descriptor has not been given up yet.
    Pending,
    /// Giving up the interest has been asked for.
    Closed,
    /// The result has been taken.
    Completed,
}

/// A disconnect computation as a plain value.
pub struct CloseView {
    /// The descriptor of the stream that is torn down.
    pub fd: RawFd,
    /// Where the teardown stands.
    pub state: CloseFutureState,
}

/// One call on a disconnect computation.
pub enum CloseOp {
    /// `poll`.
    Poll,
    /// `take`.
    Take,
}

impl CloseView {
    /// The computation that has not been polled yet.
    pub open spec fn fresh(fd: RawFd) -> CloseView {
        CloseView { fd, state: CloseFutureState::Pending }
    }

    /// The computation after `poll`, and what `poll` asks for.
    pub open spec fn poll(self) -> (CloseView, Seq<Waitable>) {
        match self.state {
            CloseFutureState::Pending => (
                CloseView { state: CloseFutureState::Closed, ..self },
                seq![Waitable::Fd(self.fd, Interest::Close)],
            ),
            _ => (self, Seq::empty()),
        }
    }

    /// The computation after `take`, and what `take` returns.
    pub open spec fn take(self) -> (CloseView, Option<()>) {
        match self.state {
            CloseFutureState::Closed => (
                CloseView { state: CloseFutureState::Completed, ..self },
                Some(()),
            ),
            _ => (self, None),
        }
    }

    /// The computation after one call.
    pub open spec fn step(self, op: CloseOp) -> CloseView {
        match op {
            CloseOp::Poll => self.poll().0,
            CloseOp::Take => self.take().0,
        }
    }

    /// The computation after the calls `ops`, in their order.
    pub open spec fn after(self, ops: Seq<CloseOp>) -> CloseView
        decreases ops.len(),
    {
        if ops.len() == 0 {
            self
        } else {
            self.step(ops[0]).after(ops.skip(1))
        }
    }
}

/// The teardown of a stream: interest in its descriptor is given up first,
/// and only then is control handed back.
pub struct CloseFuture {
    client: AsyncTcpStream,
    state: CloseFutureState,
}

impl View for CloseFuture {
    type V = CloseView;

    closed spec fn view(&self) -> CloseView {
        CloseView { fd: self.client.as_raw_fd(), state: self.state }
    }
}

impl CloseFuture {
    /// Where the teardown stands.
    pub fn state(&self) -> (state: CloseFutureState)
        ensures
            state == self@.state,
    {
        self.state
    }
}

impl Future for CloseFuture {
    type Output = ();

    open spec fn polls(&self, ready: Seq<Waitable>, after: &Self, wanted: Seq<Waitable>) -> bool {
        after@ == self@.poll().0 && wanted == self@.poll().1
    }

    open spec fn takes(&self, after: &Self, output: Option<()>) -> bool {
        after@ == self@.take().0 && output == self@.take().1
    }

    fn poll(&mut self, _ready: &[Waitable]) -> (wanted: Vec<Waitable>) {
        let wanted = match self.state {
            CloseFutureState::Pending => {
                self.state = CloseFutureState::Closed;
                Once::Once(Some(Waitable::Fd(self.client.as_raw_fd(), Interest::Close)))
            },
            CloseFutureState::Closed | CloseFutureState::Completed => Once::Empty,
        };
        wanted.collect()
    }

    fn take(&mut self) -> (output: Option<()>) {
        match self.state {
            CloseFutureState::Closed => {
                self.state = CloseFutureState::Completed;
                Some(())
            },
            CloseFutureState::Pending | CloseFutureState::Completed => None,
        }
    }
}

/// A read computation whose result has been taken stays as it is, whatever
/// is called on it.
pub proof fn lemma_read_consumed_is_final(computation: ReadView, later: Seq<ReadOp>)
    requires
        computation.consumed,
    ensures
        computation.after(later) == computation,
    decreases later.len(),
{
    if later.len() > 0 {
        assert(computation.step(later[0]) == computation);
        lemma_read_consumed_is_final(computation, later.skip(1));
    }
}

/// The result of a read is taken exactly once: after `take` has handed out a
/// result, `take` hands out nothing, whatever was called in between.
pub proof fn lemma_read_taken_once(computation: ReadView, later: Seq<ReadOp>)
    requires
        computation.take().1.is_some(),
    ensures
        computation.take().0.after(later).take().1.is_none(),
{
    lemma_read_consumed_is_final(computation.take().0, later);
}

/// A read that would block: a computation that has no result yet asks for
/// exactly one condition, that its descriptor becomes readable, and `take`
/// then hands out nothing.
pub proof fn lemma_would_block_round_trip(computation: ReadView)
    requires
        !computation.consumed,
        computation.output.is_none(),
    ensures
        computation.poll(ReadAttempt::WouldBlock).1 == seq![
            Waitable::Fd(computation.fd, Interest::Read),
        ],
        computation.poll(ReadAttempt::WouldBlock).0.take().1.is_none(),
{
}

/// A read that brings data: `poll` asks for nothing more, the bytes stand at
/// the front of the buffer, and `take` hands out their number.
pub proof fn lemma_readiness_delivers_result(computation: ReadView, bytes: Vec<u8>)
    requires
        !computation.consumed,
        bytes@.len() <= computation.buffer.len(),
    ensures
        computation.poll(ReadAttempt::Data(bytes)).1 == Seq::<Waitable>::empty(),
        computation.poll(ReadAttempt::Data(bytes)).0.buffer.len() == computation.buffer.len(),
        computation.poll(ReadAttempt::Data(bytes)).0.buffer.take(bytes@.len() as int) == bytes@,
        computation.poll(ReadAttempt::Data(bytes)).0.take().1 == Some(
            Ok::<usize, std::io::Error>(bytes@.len() as usize),
        ),
{
    let filled = computation.poll(ReadAttempt::Data(bytes)).0.buffer;
    assert(filled.take(bytes@.len() as int) =~= bytes@);
}

/// A disconnect whose result has been taken stays as it is, whatever is
/// called on it.
pub proof fn lemma_close_completed_is_final(computation: CloseView, later: Seq<CloseOp>)
    requires
        computation.state == CloseFutureState::Completed,
    ensures
        computation.after(later) == computation,
    decreases later.len(),
{
    if later.len() > 0 {
        assert(computation.step(later[0]) == computation);
        lemma_close_completed_is_final(computation, later.skip(1));
    }
}

/// The result of a disconnect is taken exactly once: after `take` has handed
/// out a result, `take` hands out nothing, whatever was called in between.
pub proof fn lemma_close_taken_once(computation: CloseView, later: Seq<CloseOp>)
    requires
        computation.take().1.is_some(),
    ensures
        computation.take().0.after(later).take().1.is_none(),
{
    lemma_close_completed_is_final(computation.take().0, later);
}

/// The life of a disconnect. It begins as pending. Its first `poll` asks for
/// exactly one condition, the closing of its descriptor, and makes it closed.
/// The `take` that follows hands out the result and makes it completed. From
/// then on `poll` asks for nothing and `take` hands out nothing, whatever was
/// called in between.
pub proof fn lemma_disconnect_lifecycle(fd: RawFd, later: Seq<CloseOp>)
    ensures
        CloseView::fresh(fd).state == CloseFutureState::Pending,
        CloseView::fresh(fd).poll() == (
            CloseView { fd, state: CloseFutureState::Closed },
            seq![Waitable::Fd(fd, Interest::Close)],
        ),
        (CloseView { fd, state: CloseFutureState::Closed }).take() == (
            CloseView { fd, state: CloseFutureState::Completed },
            Some(()),
        ),
        (CloseView { fd, state: CloseFutureState::Completed }).after(later).poll() == (
            CloseView { fd, state: CloseFutureState::Completed },
            Seq::<Waitable>::empty(),
        ),
        (CloseView { fd, state: CloseFutureState::Completed }).after(later).take() == (
            CloseView { fd, state: CloseFutureState::Completed },
            None::<()>,
        ),
{
    lemma_close_completed_is_final(CloseView { fd, state: CloseFutureState::Completed }, later);
}

} // verus!
