use reactor::future::{Future, Interest, IntoFuture, Waitable};
use reactor::runtime::{
    conclude, reply_of, Change, Event, EventFilter, EventFlags, Poller, Request, Turn, EVENT_ROOM,
    USER_DATA,
};
use reactor::tcp::{AsyncTcpStream, ReadAttempt, ReadFuture};
use rustix::io::Errno;
use std::cell::RefCell;
use std::io::ErrorKind;
use std::rc::Rc;

/// A read whose socket is a list of outcomes, the first of them first.
struct ScriptedRead<'a, 'b> {
    inner: ReadFuture<'a, 'b>,
    script: Vec<std::io::Result<Vec<u8>>>,
    seen: Rc<RefCell<Vec<Vec<Waitable>>>>,
}

impl<'a, 'b> ScriptedRead<'a, 'b> {
    fn new(inner: ReadFuture<'a, 'b>, script: Vec<std::io::Result<Vec<u8>>>) -> Self {
        ScriptedRead { inner, script, seen: Rc::new(RefCell::new(Vec::new())) }
    }
}

impl<'a, 'b> Future for ScriptedRead<'a, 'b> {
    type Output = std::io::Result<usize>;

    fn poll(&mut self, ready: &[Waitable]) -> Vec<Waitable> {
        self.seen.borrow_mut().push(ready.to_vec());
        let outcome = self.script.remove(0);
        self.inner.poll(ready, ReadAttempt::classify(outcome))
    }

    fn take(&mut self) -> Option<std::io::Result<usize>> {
        self.inner.take()
    }
}

/// A computation that plays back what it is to ask for, and then has its
/// result or not.
struct Scripted {
    wishes: Vec<Vec<Waitable>>,
    result: Option<u32>,
    polls: usize,
    takes: usize,
}

impl Scripted {
    fn new(wishes: Vec<Vec<Waitable>>, result: Option<u32>) -> Self {
        Scripted { wishes, result, polls: 0, takes: 0 }
    }
}

impl Future for &mut Scripted {
    type Output = u32;

    fn poll(&mut self, _ready: &[Waitable]) -> Vec<Waitable> {
        self.polls += 1;
        if self.wishes.is_empty() {
            Vec::new()
        } else {
            self.wishes.remove(0)
        }
    }

    fn take(&mut self) -> Option<u32> {
        self.takes += 1;
        self.result.take()
    }
}

enum Outcome<T> {
    Ready(T),
    Failed(std::io::Error),
    Stalled,
    Foreign,
    Unanswered,
}

/// Drives `future`, answering the requests with `replies` in their order.
fn drive<F: IntoFuture>(
    poller: &mut Poller,
    future: F,
    replies: Vec<Result<Vec<Event>, Errno>>,
) -> (Vec<Request>, Outcome<F::Output>) {
    let mut replies = replies.into_iter();
    let mut requests = Vec::new();
    let mut turn = poller.block_on(future);
    loop {
        match turn {
            Turn::Submit(drive) => {
                requests.push(drive.request());
                match replies.next() {
                    Some(reply) => turn = drive.resume(poller, reply_of(reply)),
                    None => return (requests, Outcome::Unanswered),
                }
            }
            Turn::Ready(output) => return (requests, Outcome::Ready(output)),
            Turn::Failed(error) => return (requests, Outcome::Failed(error)),
            Turn::Stalled => return (requests, Outcome::Stalled),
            Turn::Foreign => return (requests, Outcome::Foreign),
        }
    }
}

fn add(fd: i32) -> Request {
    Request::Change(Change { fd, flags: EventFlags::Add, udata: 7 })
}

fn delete(fd: i32) -> Request {
    Request::Change(Change { fd, flags: EventFlags::Delete, udata: 7 })
}

fn wait() -> Request {
    Request::Wait { room: 1 }
}

fn readable(fd: i32) -> Event {
    Event { filter: EventFilter::Read(fd), udata: 7 }
}

#[test]
fn constants_of_the_reactor() {
    assert_eq!(USER_DATA, 7);
    assert_eq!(EVENT_ROOM, 1);
}

#[test]
fn open_begins_with_empty_books() {
    let poller = Poller::open();
    assert!(poller.delivered().is_empty());
    assert!(!poller.is_registered(0));
    assert!(!poller.is_registered(5));
    assert_eq!(poller.events(), Some(Vec::new()));
}

#[test]
fn register_read_asks_to_add_the_interest() {
    let poller = Poller::open();
    assert_eq!(
        poller.register_read(5),
        Request::Change(Change { fd: 5, flags: EventFlags::Add, udata: 7 })
    );
    assert!(!poller.is_registered(5));
}

#[test]
fn unregister_read_asks_to_delete_the_interest() {
    let poller = Poller::open();
    assert_eq!(
        poller.unregister_read(5),
        Request::Change(Change { fd: 5, flags: EventFlags::Delete, udata: 7 })
    );
}

#[test]
fn wait_asks_for_one_event() {
    let poller = Poller::open();
    assert_eq!(poller.wait(), Request::Wait { room: 1 });
}

#[test]
fn complete_registers_and_unregisters() {
    let mut poller = Poller::open();
    let request = poller.register_read(5);
    assert_eq!(poller.complete(request, Ok(Vec::new())).unwrap(), 0);
    assert!(poller.is_registered(5));
    assert!(!poller.is_registered(6));
    let request = poller.register_read(6);
    assert_eq!(poller.complete(request, Ok(Vec::new())).unwrap(), 0);
    assert!(poller.is_registered(5));
    assert!(poller.is_registered(6));
    let request = poller.unregister_read(5);
    assert_eq!(poller.complete(request, Ok(Vec::new())).unwrap(), 0);
    assert!(!poller.is_registered(5));
    assert!(poller.is_registered(6));
}

#[test]
fn registering_twice_is_undone_by_one_unregister() {
    let mut poller = Poller::open();
    let request = poller.register_read(5);
    poller.complete(request, Ok(Vec::new())).unwrap();
    poller.complete(request, Ok(Vec::new())).unwrap();
    assert!(poller.is_registered(5));
    let request = poller.unregister_read(5);
    poller.complete(request, Ok(Vec::new())).unwrap();
    assert!(!poller.is_registered(5));
}

#[test]
fn unregistering_what_is_not_registered_changes_nothing() {
    let mut poller = Poller::open();
    let request = poller.register_read(3);
    poller.complete(request, Ok(Vec::new())).unwrap();
    let request = poller.unregister_read(4);
    poller.complete(request, Ok(Vec::new())).unwrap();
    assert!(poller.is_registered(3));
    assert!(!poller.is_registered(4));
}

#[test]
fn a_refusal_changes_nothing() {
    let mut poller = Poller::open();
    let request = poller.register_read(5);
    let error = poller.complete(request, reply_of(Err(Errno::BADF))).unwrap_err();
    assert_eq!(error.raw_os_error(), Some(Errno::BADF.raw_os_error()));
    assert!(!poller.is_registered(5));
    poller.complete(request, Ok(Vec::new())).unwrap();
    let request = poller.unregister_read(5);
    assert!(poller.complete(request, reply_of(Err(Errno::NOENT))).is_err());
    assert!(poller.is_registered(5));
    let request = poller.wait();
    assert!(poller.complete(request, reply_of(Err(Errno::INTR))).is_err());
    assert!(poller.is_registered(5));
    assert!(poller.delivered().is_empty());
}

#[test]
fn a_wait_delivers_events_and_uses_up_interests() {
    let mut poller = Poller::open();
    for fd in [3, 4, 5] {
        let request = poller.register_read(fd);
        poller.complete(request, Ok(Vec::new())).unwrap();
    }
    let request = poller.wait();
    let count = poller.complete(request, Ok(vec![readable(4), readable(3)])).unwrap();
    assert_eq!(count, 2);
    assert_eq!(poller.delivered(), &vec![readable(4), readable(3)]);
    assert!(!poller.is_registered(3));
    assert!(!poller.is_registered(4));
    assert!(poller.is_registered(5));
    assert_eq!(
        poller.events(),
        Some(vec![Waitable::Fd(4, Interest::Read), Waitable::Fd(3, Interest::Read)])
    );
}

#[test]
fn a_wait_replaces_the_delivered_events() {
    let mut poller = Poller::open();
    let request = poller.wait();
    poller.complete(request, Ok(vec![readable(1)])).unwrap();
    poller.complete(request, Ok(vec![readable(2)])).unwrap();
    assert_eq!(poller.delivered(), &vec![readable(2)]);
    poller.complete(request, Ok(Vec::new())).unwrap();
    assert!(poller.delivered().is_empty());
}

#[test]
fn a_change_keeps_the_delivered_events() {
    let mut poller = Poller::open();
    let request = poller.wait();
    poller.complete(request, Ok(vec![readable(1)])).unwrap();
    let request = poller.register_read(9);
    assert_eq!(poller.complete(request, Ok(vec![readable(9)])).unwrap(), 1);
    assert_eq!(poller.delivered(), &vec![readable(1)]);
    assert!(poller.is_registered(9));
}

#[test]
fn delivered_events_carry_their_user_data() {
    let mut poller = Poller::open();
    let request = poller.wait();
    poller.complete(request, Ok(vec![readable(1)])).unwrap();
    assert_eq!(poller.delivered()[0].udata, 7);
    assert_eq!(poller.delivered()[0].filter, EventFilter::Read(1));
}

#[test]
fn events_refuses_a_foreign_event() {
    let mut poller = Poller::open();
    let request = poller.register_read(2);
    poller.complete(request, Ok(Vec::new())).unwrap();
    let request = poller.wait();
    let foreign = Event { filter: EventFilter::Other, udata: 0 };
    poller.complete(request, Ok(vec![readable(1), foreign])).unwrap();
    assert_eq!(poller.events(), None);
    assert!(poller.is_registered(2));
    assert_eq!(poller.delivered().len(), 2);
}

#[test]
fn drain_hands_the_events_out_once() {
    let mut poller = Poller::open();
    let request = poller.wait();
    poller.complete(request, Ok(vec![readable(1), readable(8)])).unwrap();
    assert_eq!(
        poller.drain_as_waitables(),
        Some(vec![Waitable::Fd(1, Interest::Read), Waitable::Fd(8, Interest::Read)])
    );
    assert!(poller.delivered().is_empty());
    assert_eq!(poller.drain_as_waitables(), Some(Vec::new()));
}

#[test]
fn drain_keeps_the_events_if_one_is_foreign() {
    let mut poller = Poller::open();
    let request = poller.wait();
    let foreign = Event { filter: EventFilter::Other, udata: 3 };
    poller.complete(request, Ok(vec![foreign, readable(8)])).unwrap();
    assert_eq!(poller.drain_as_waitables(), None);
    assert_eq!(poller.delivered(), &vec![foreign, readable(8)]);
}

#[test]
fn clear_forgets_the_delivered_events() {
    let mut poller = Poller::open();
    let request = poller.register_read(2);
    poller.complete(request, Ok(Vec::new())).unwrap();
    let request = poller.wait();
    poller.complete(request, Ok(vec![readable(1)])).unwrap();
    poller.clear();
    assert!(poller.delivered().is_empty());
    assert_eq!(poller.events(), Some(Vec::new()));
    assert!(poller.is_registered(2));
}

#[test]
fn reply_of_keeps_the_events() {
    let reply = reply_of(Ok(vec![readable(3), readable(4)]));
    assert_eq!(reply.unwrap(), vec![readable(3), readable(4)]);
}

#[test]
fn reply_of_makes_an_io_error_of_the_same_code() {
    let error = reply_of(Err(Errno::NOENT)).unwrap_err();
    assert_eq!(error.raw_os_error(), Some(Errno::NOENT.raw_os_error()));
    assert_eq!(error.kind(), ErrorKind::NotFound);
    let error = reply_of(Err(Errno::AGAIN)).unwrap_err();
    assert_eq!(error.raw_os_error(), Some(Errno::AGAIN.raw_os_error()));
    assert_eq!(error.kind(), ErrorKind::WouldBlock);
}

#[test]
fn conclude_ends_with_the_result_or_stalls() {
    assert!(matches!(conclude::<&mut Scripted>(Some(4)), Turn::Ready(4)));
    assert!(matches!(conclude::<&mut Scripted>(None), Turn::Stalled));
}

#[test]
fn echo_read_then_disconnect() {
    let mut poller = Poller::open();
    let mut stream = AsyncTcpStream::connect(5);
    let mut buffer = [0u8; 32];
    let script = vec![
        Err(std::io::Error::from(ErrorKind::WouldBlock)),
        Ok(b"hello, world!".to_vec()),
    ];
    let read = ScriptedRead::new(stream.read(&mut buffer), script);
    let replies = vec![Ok(Vec::new()), Ok(vec![readable(5)])];
    let (requests, outcome) = drive(&mut poller, read, replies);
    assert_eq!(requests, vec![add(5), wait()]);
    match outcome {
        Outcome::Ready(result) => assert_eq!(result.unwrap(), 13),
        _ => panic!("the read completes"),
    }
    assert_eq!(&buffer[..13], b"hello, world!");
    assert!(poller.delivered().is_empty());

    let (requests, outcome) = drive(&mut poller, stream.disconnect(), vec![Ok(Vec::new())]);
    assert_eq!(requests, vec![delete(5)]);
    assert!(matches!(outcome, Outcome::Ready(())));
    assert!(!poller.is_registered(5));
}

#[test]
fn read_that_is_ready_at_once_asks_nothing_of_the_queue() {
    let mut poller = Poller::open();
    let mut stream = AsyncTcpStream::connect(5);
    let mut buffer = [0u8; 4];
    let read = ScriptedRead::new(stream.read(&mut buffer), vec![Ok(vec![1, 2])]);
    let (requests, outcome) = drive(&mut poller, read, Vec::new());
    assert!(requests.is_empty());
    match outcome {
        Outcome::Ready(result) => assert_eq!(result.unwrap(), 2),
        _ => panic!("the read completes"),
    }
    assert_eq!(buffer, [1, 2, 0, 0]);
}

#[test]
fn stream_error_is_a_result_not_a_failure() {
    let mut poller = Poller::open();
    let mut stream = AsyncTcpStream::connect(5);
    let mut buffer = [0u8; 4];
    let script = vec![Err(std::io::Error::from(ErrorKind::ConnectionReset))];
    let read = ScriptedRead::new(stream.read(&mut buffer), script);
    let (requests, outcome) = drive(&mut poller, read, Vec::new());
    assert!(requests.is_empty());
    match outcome {
        Outcome::Ready(result) => assert_eq!(result.unwrap_err().kind(), ErrorKind::ConnectionReset),
        _ => panic!("the error is the result"),
    }
}

#[test]
fn spurious_wakeup_registers_and_waits_again() {
    let mut poller = Poller::open();
    let mut stream = AsyncTcpStream::connect(9);
    let mut buffer = [0u8; 8];
    let script = vec![
        Err(std::io::Error::from(ErrorKind::WouldBlock)),
        Err(std::io::Error::from(ErrorKind::WouldBlock)),
        Ok(vec![1, 2, 3]),
    ];
    let read = ScriptedRead::new(stream.read(&mut buffer), script);
    let replies = vec![
        Ok(Vec::new()),
        Ok(vec![readable(9)]),
        Ok(Vec::new()),
        Ok(vec![readable(9)]),
    ];
    let (requests, outcome) = drive(&mut poller, read, replies);
    assert_eq!(requests, vec![add(9), wait(), add(9), wait()]);
    match outcome {
        Outcome::Ready(result) => assert_eq!(result.unwrap(), 3),
        _ => panic!("the read completes"),
    }
    assert!(!poller.is_registered(9));
}

#[test]
fn delivered_events_reach_the_next_poll_only() {
    let mut poller = Poller::open();
    let mut stream = AsyncTcpStream::connect(9);
    let mut buffer = [0u8; 8];
    let script = vec![
        Err(std::io::Error::from(ErrorKind::WouldBlock)),
        Err(std::io::Error::from(ErrorKind::WouldBlock)),
    ];
    let read = ScriptedRead::new(stream.read(&mut buffer), script);
    let seen = read.seen.clone();
    let mut turn = poller.block_on(read);
    let mut replies = vec![Ok(Vec::new()), Ok(vec![readable(9)]), Ok(Vec::new())].into_iter();
    let mut waits = 0;
    while let Turn::Submit(drive) = turn {
        if drive.request() == wait() {
            waits += 1;
            if waits == 2 {
                break;
            }
        }
        turn = drive.resume(&mut poller, replies.next().unwrap());
    }
    assert_eq!(waits, 2);
    assert_eq!(*seen.borrow(), vec![Vec::new(), vec![Waitable::Fd(9, Interest::Read)]]);
    assert!(poller.delivered().is_empty());
    assert!(poller.is_registered(9));
}

#[test]
fn refused_registration_ends_the_loop() {
    let mut poller = Poller::open();
    let mut script = Scripted::new(vec![vec![Waitable::Fd(3, Interest::Read)]], Some(1));
    let (requests, outcome) = drive(&mut poller, &mut script, vec![Err(Errno::BADF)]);
    assert_eq!(requests, vec![add(3)]);
    match outcome {
        Outcome::Failed(error) => {
            assert_eq!(error.raw_os_error(), Some(Errno::BADF.raw_os_error()))
        }
        _ => panic!("the queue refused"),
    }
    assert!(!poller.is_registered(3));
    assert_eq!(script.polls, 1);
    assert_eq!(script.takes, 0);
}

#[test]
fn refused_unregistration_ends_the_loop() {
    let mut poller = Poller::open();
    let (requests, outcome) =
        drive(&mut poller, AsyncTcpStream::connect(5).disconnect(), vec![Err(Errno::NOENT)]);
    assert_eq!(requests, vec![delete(5)]);
    match outcome {
        Outcome::Failed(error) => assert_eq!(error.kind(), ErrorKind::NotFound),
        _ => panic!("the queue refused"),
    }
}

#[test]
fn failed_wait_ends_the_loop() {
    let mut poller = Poller::open();
    let mut script = Scripted::new(vec![vec![Waitable::Fd(3, Interest::Read)]], Some(1));
    let replies = vec![Ok(Vec::new()), Err(Errno::INTR)];
    let (requests, outcome) = drive(&mut poller, &mut script, replies);
    assert_eq!(requests, vec![add(3), wait()]);
    match outcome {
        Outcome::Failed(error) => {
            assert_eq!(error.raw_os_error(), Some(Errno::INTR.raw_os_error()))
        }
        _ => panic!("the wait failed"),
    }
    assert!(poller.is_registered(3));
    assert_eq!(script.takes, 0);
}

#[test]
fn every_condition_gets_its_own_request_in_order() {
    let mut poller = Poller::open();
    let wishes = vec![vec![
        Waitable::Fd(3, Interest::Read),
        Waitable::Fd(4, Interest::Close),
        Waitable::Fd(6, Interest::Read),
    ]];
    let mut script = Scripted::new(wishes, Some(10));
    let replies = vec![
        Ok(Vec::new()),
        Ok(Vec::new()),
        Ok(Vec::new()),
        Ok(vec![readable(6)]),
    ];
    let (requests, outcome) = drive(&mut poller, &mut script, replies);
    assert_eq!(requests, vec![add(3), delete(4), add(6), wait()]);
    assert!(matches!(outcome, Outcome::Ready(10)));
    assert!(poller.is_registered(3));
    assert!(!poller.is_registered(6));
    assert_eq!(script.polls, 2);
    assert_eq!(script.takes, 1);
}

#[test]
fn closing_alone_does_not_wait() {
    let mut poller = Poller::open();
    let wishes = vec![vec![Waitable::Fd(4, Interest::Close), Waitable::Fd(5, Interest::Close)]];
    let mut script = Scripted::new(wishes, Some(2));
    let replies = vec![Ok(Vec::new()), Ok(Vec::new())];
    let (requests, outcome) = drive(&mut poller, &mut script, replies);
    assert_eq!(requests, vec![delete(4), delete(5)]);
    assert!(matches!(outcome, Outcome::Ready(2)));
    assert_eq!(script.polls, 1);
}

#[test]
fn no_completion_before_take_yields() {
    let mut poller = Poller::open();
    let wishes = vec![
        vec![Waitable::Fd(3, Interest::Read)],
        vec![Waitable::Fd(3, Interest::Read)],
    ];
    let mut script = Scripted::new(wishes, Some(77));
    let replies = vec![Ok(Vec::new()), Ok(vec![readable(3)]), Ok(Vec::new())];
    let (requests, outcome) = drive(&mut poller, &mut script, replies);
    assert_eq!(requests, vec![add(3), wait(), add(3), wait()]);
    assert!(matches!(outcome, Outcome::Unanswered));
    assert_eq!(script.takes, 0);
    assert_eq!(script.result, Some(77));
}

#[test]
fn a_computation_without_wish_or_result_stalls() {
    let mut poller = Poller::open();
    let mut script = Scripted::new(Vec::new(), None);
    let (requests, outcome) = drive(&mut poller, &mut script, Vec::new());
    assert!(requests.is_empty());
    assert!(matches!(outcome, Outcome::Stalled));
    assert_eq!(script.polls, 1);
    assert_eq!(script.takes, 1);
}

#[test]
fn a_taken_disconnect_stalls_the_loop() {
    let mut poller = Poller::open();
    let mut close = AsyncTcpStream::connect(5).disconnect();
    assert_eq!(close.poll(&[]), vec![Waitable::Fd(5, Interest::Close)]);
    assert_eq!(close.take(), Some(()));
    let (requests, outcome) = drive(&mut poller, close, Vec::new());
    assert!(requests.is_empty());
    assert!(matches!(outcome, Outcome::Stalled));
}

#[test]
fn a_foreign_event_ends_the_loop() {
    let mut poller = Poller::open();
    let mut script = Scripted::new(vec![vec![Waitable::Fd(3, Interest::Read)]], Some(1));
    let foreign = Event { filter: EventFilter::Other, udata: 7 };
    let replies = vec![Ok(Vec::new()), Ok(vec![foreign])];
    let (requests, outcome) = drive(&mut poller, &mut script, replies);
    assert_eq!(requests, vec![add(3), wait()]);
    assert!(matches!(outcome, Outcome::Foreign));
    assert_eq!(script.polls, 1);
    assert_eq!(script.takes, 0);
}

#[test]
fn stale_foreign_events_stop_the_loop_before_it_polls() {
    let mut poller = Poller::open();
    let request = poller.wait();
    let foreign = Event { filter: EventFilter::Other, udata: 7 };
    poller.complete(request, Ok(vec![foreign])).unwrap();
    let mut script = Scripted::new(Vec::new(), Some(1));
    let (requests, outcome) = drive(&mut poller, &mut script, Vec::new());
    assert!(requests.is_empty());
    assert!(matches!(outcome, Outcome::Foreign));
    assert_eq!(script.polls, 0);
    assert_eq!(poller.delivered().len(), 1);
}
