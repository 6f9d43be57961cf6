use rtps_actor::common::actor::Actor;
use rtps_actor::common::actor::AsyncError;
use rtps_actor::common::actor::AsyncRequestResponse;
use rtps_actor::common::actor::ChannelPoll;
use rtps_actor::common::actor::Mailbox;
use rtps_actor::common::actor::MailboxPoll;

struct Doubler;

impl Actor for Doubler {
    type Request = i32;
    type Response = i32;

    fn handle(&mut self, request: i32) -> i32 {
        request * 2
    }
}

struct Recorder {
    seen: Vec<i32>,
}

impl Actor for Recorder {
    type Request = i32;
    type Response = usize;

    fn handle(&mut self, request: i32) -> usize {
        self.seen.push(request);
        self.seen.len() - 1
    }
}

#[test]
fn channel_round_trip() {
    let mut c: AsyncRequestResponse<i32, i32, u32> = AsyncRequestResponse::new(5);
    assert_eq!(c.take_request(), Some(5));
    // the request slot is consumed exactly once
    assert_eq!(c.take_request(), None);
    let fired = c.wake_with_response(Ok(7));
    assert!(fired.is_none());
    match c.poll(11) {
        ChannelPoll::Ready(resp) => assert_eq!(resp, Ok(7)),
        ChannelPoll::Pending => panic!("response was resolved"),
    }
}

#[test]
fn channel_delivers_exactly_once() {
    let mut c: AsyncRequestResponse<i32, i32, u32> = AsyncRequestResponse::new(1);
    // polling before resolution parks the handle
    assert!(matches!(c.poll(41), ChannelPoll::Pending));
    // resolving hands the parked handle back to be fired
    let fired = c.wake_with_response(Ok(2));
    assert_eq!(fired, Some(41));
    // the first poll after resolution observes the response
    match c.poll(42) {
        ChannelPoll::Ready(resp) => assert_eq!(resp, Ok(2)),
        ChannelPoll::Pending => panic!("response was resolved"),
    }
    // a further poll never double-delivers and never panics
    assert!(matches!(c.poll(43), ChannelPoll::Pending));
}

#[test]
fn doubling_scenario() {
    let mut mb: Mailbox<i32, i32, u32> = Mailbox::new();
    let mut actor = Doubler;

    // two submissions, as if from two cloned address handles
    let (id1, w1) = mb.handle(21);
    assert!(w1.is_none());
    let (id2, _) = mb.handle(10);

    let fired = mb.process_pending(&mut actor);
    assert!(fired.is_empty());

    assert_eq!(mb.poll_response(id1, 0), Some(Ok(42)));
    assert_eq!(mb.poll_response(id2, 0), Some(Ok(20)));

    // shutdown, then a late submission: it resolves to Err(Shutdown)
    let _ = mb.shutdown();
    let (id3, _) = mb.handle(5);
    match mb.poll_next(0) {
        MailboxPoll::End(_) => {},
        _ => panic!("cancellation ends the sequence"),
    }
    assert_eq!(mb.poll_response(id3, 0), Some(Err(AsyncError::Shutdown)));
}

#[test]
fn fifo_order() {
    let mut mb: Mailbox<i32, usize, u32> = Mailbox::new();
    let mut actor = Recorder { seen: Vec::new() };
    let (ids, _): (Vec<usize>, Vec<Option<u32>>) =
        [3, 1, 4, 1, 5].iter().map(|r| mb.handle(*r)).unzip();
    let _ = mb.process_pending(&mut actor);
    // the actor saw the requests in submission order
    assert_eq!(actor.seen, vec![3, 1, 4, 1, 5]);
    // and each caller observes the response made for its own request
    for (k, id) in ids.into_iter().enumerate() {
        assert_eq!(mb.poll_response(id, 0), Some(Ok(k)));
    }
}

#[test]
fn mailbox_poll_next_yields_in_order() {
    let mut mb: Mailbox<i32, i32, u32> = Mailbox::new();
    let (id1, _) = mb.handle(7);
    let (id2, _) = mb.handle(8);
    match mb.poll_next(0) {
        MailboxPoll::Item(id) => assert_eq!(id, id1),
        _ => panic!("an item is pending"),
    }
    match mb.poll_next(0) {
        MailboxPoll::Item(id) => assert_eq!(id, id2),
        _ => panic!("an item is pending"),
    }
    // with nothing pending the driver parks its handle and suspends
    assert!(matches!(mb.poll_next(33), MailboxPoll::Pending));
    // a new submission hands the parked handle back to be fired
    let (_, fired) = mb.handle(9);
    assert_eq!(fired, Some(33));
}

#[test]
fn abandoned_mailbox_aborts_pending() {
    let mut mb: Mailbox<i32, i32, u32> = Mailbox::new();
    let (id1, _) = mb.handle(7);
    let (id2, _) = mb.handle(8);
    // a caller already awaiting has its handle parked on the channel
    assert_eq!(mb.poll_response(id1, 17), None);
    // tearing the mailbox down resolves everything with Err(Abort) and
    // hands back the parked handles so no caller hangs
    let fired = mb.stop_all_pending_with_error(AsyncError::Abort);
    assert_eq!(fired, vec![17]);
    assert_eq!(mb.poll_response(id1, 0), Some(Err(AsyncError::Abort)));
    assert_eq!(mb.poll_response(id2, 0), Some(Err(AsyncError::Abort)));
}

#[test]
fn shutdown_drains_and_collects_wakers() {
    let mut mb: Mailbox<i32, i32, u32> = Mailbox::new();
    let (id1, _) = mb.handle(1);
    let (id2, _) = mb.handle(2);
    assert_eq!(mb.poll_response(id1, 91), None);
    assert_eq!(mb.poll_response(id2, 92), None);
    let parked = mb.shutdown();
    assert!(parked.is_none());
    match mb.poll_next(0) {
        MailboxPoll::End(fired) => assert_eq!(fired, vec![91, 92]),
        _ => panic!("cancellation drains the queue"),
    }
    assert_eq!(mb.poll_response(id1, 0), Some(Err(AsyncError::Shutdown)));
    assert_eq!(mb.poll_response(id2, 0), Some(Err(AsyncError::Shutdown)));
    // the sequence has ended for good
    match mb.poll_next(0) {
        MailboxPoll::End(fired) => assert!(fired.is_empty()),
        _ => panic!("the sequence stays ended"),
    }
}
