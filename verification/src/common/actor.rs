use vstd::prelude::*;

verus! {

/// Why a request/response channel resolved without a normal response.
///
/// `Abort`: the mailbox side disappeared before the request was serviced.
/// `Shutdown`: the mailbox observed a cancellation request and refused the
/// pending work. Both are terminal for the channel that carries them.
#[derive(Clone, Copy, Debug, PartialEq, Eq, Structural)]
pub enum AsyncError {
    Abort,
    Shutdown,
}

/// Spec-level state of one single-use request/response channel: the request
/// slot, the response slot and the producer's registered resumption handle.
#[verifier::ext_equal]
pub ghost struct ChannelModel<Req, Resp, W> {
    pub request: Option<Req>,
    pub response: Option<Result<Resp, AsyncError>>,
    pub waker: Option<W>,
}

impl<Req, Resp, W> ChannelModel<Req, Resp, W> {
    /// The state of a channel freshly created around one request.
    pub open spec fn init(request: Req) -> ChannelModel<Req, Resp, W> {
        ChannelModel { request: Some(request), response: None, waker: None }
    }

    /// The state after the consumer destructively reads the request slot.
    pub open spec fn with_request_taken(self) -> ChannelModel<Req, Resp, W> {
        ChannelModel { request: None, ..self }
    }

    /// The state after the consumer publishes `result`. The registered
    /// resumption handle is handed out to be fired, so the slot empties.
    pub open spec fn resolved(self, result: Result<Resp, AsyncError>) -> ChannelModel<Req, Resp, W> {
        ChannelModel { response: Some(result), waker: None, ..self }
    }

    /// The state after the producer consumes the response slot.
    pub open spec fn with_response_taken(self) -> ChannelModel<Req, Resp, W> {
        ChannelModel { response: None, ..self }
    }

    /// The state after the producer registers `w`, overwriting any earlier
    /// handle: each channel has exactly one logical awaiter.
    pub open spec fn with_waker(self, w: W) -> ChannelModel<Req, Resp, W> {
        ChannelModel { waker: Some(w), ..self }
    }

    /// What one producer poll delivers: the response slot, if filled.
    pub open spec fn poll_result(self) -> Option<Result<Resp, AsyncError>> {
        self.response
    }

    /// The state after one producer poll with handle `w`: a filled response
    /// slot is consumed; an empty one makes the poll register `w` instead.
    pub open spec fn after_poll(self, w: W) -> ChannelModel<Req, Resp, W> {
        if self.response is Some {
            self.with_response_taken()
        } else {
            self.with_waker(w)
        }
    }
}

/// The outcome of one producer-side poll of a channel.
pub enum ChannelPoll<Resp> {
    /// The response arrived; this poll consumed it.
    Ready(Result<Resp, AsyncError>),
    /// No response yet; the poll registered a resumption handle and the
    /// producer should suspend.
    Pending,
}

/// A single-use request/response channel, as one plain value.
///
/// In a deployment the three slots live behind shared cells so that a
/// producer view and a consumer view can alias them from different tasks;
/// here the channel is owned by whoever drives it (usually a `Mailbox`),
/// and `W` stands for the scheduler's opaque resumption handle. Operations
/// that would fire a handle return it instead, for the runtime to fire.
pub struct AsyncRequestResponse<Req, Resp, W> {
    request: Option<Req>,
    response: Option<Result<Resp, AsyncError>>,
    waker: Option<W>,
}

impl<Req, Resp, W> View for AsyncRequestResponse<Req, Resp, W> {
    type V = ChannelModel<Req, Resp, W>;

    closed spec fn view(&self) -> ChannelModel<Req, Resp, W> {
        ChannelModel { request: self.request, response: self.response, waker: self.waker }
    }
}

impl<Req, Resp, W> AsyncRequestResponse<Req, Resp, W> {
    /// Create a channel holding `request`, with empty response and handle
    /// slots.
    pub fn new(request: Req) -> (c: AsyncRequestResponse<Req, Resp, W>)
        ensures
            c@ == ChannelModel::<Req, Resp, W>::init(request),
    {
        AsyncRequestResponse { request: Some(request), response: None, waker: None }
    }

    /// Consumer side: destructively read the request slot. The first call
    /// returns the request; later calls return nothing.
    pub fn take_request(&mut self) -> (r: Option<Req>)
        ensures
            r == old(self)@.request,
            final(self)@ == old(self)@.with_request_taken(),
    {
        self.request.take()
    }

    /// Consumer side: publish `response` (an earlier unread response, if
    /// any, is overwritten) and hand back the registered resumption handle;
    /// the caller must fire it to resume the awaiting producer.
    pub fn wake_with_response(&mut self, response: Result<Resp, AsyncError>) -> (w: Option<W>)
        ensures
            w == old(self)@.waker,
            final(self)@ == old(self)@.resolved(response),
    {
        self.response = Some(response);
        self.waker.take()
    }

    /// Producer side: one poll step. A filled response slot is consumed and
    /// delivered exactly once; an empty one makes the poll register `waker`
    /// (overwriting any earlier handle) and report `Pending`.
    pub fn poll(&mut self, waker: W) -> (r: ChannelPoll<Resp>)
        ensures
            final(self)@ == old(self)@.after_poll(waker),
            match r {
                ChannelPoll::Ready(resp) => old(self)@.poll_result() == Some(resp),
                ChannelPoll::Pending => old(self)@.poll_result() is None,
            },
    {
        match self.response.take() {
            Some(resp) => ChannelPoll::Ready(resp),
            None => {
                self.waker = Some(waker);
                ChannelPoll::Pending
            },
        }
    }
}

/// An actor: a value with one exclusive, synchronous request handler,
/// driven by exactly one task. Implementations live with the embedding
/// application; the handler must not suspend.
pub trait Actor: Sized {
    type Request;
    type Response;

    fn handle(&mut self, request: Self::Request) -> Self::Response;
}

/// Spec-level state of the storage shared by an actor's address handles and
/// its mailbox: every channel ever created for this actor (indexed by the
/// order of creation), the FIFO queue of channels not yet handed to the
/// driving task, the driving task's parked resumption handle, and the
/// cancellation flag.
#[verifier::ext_equal]
pub ghost struct MailboxModel<Req, Resp, W> {
    pub channels: Seq<ChannelModel<Req, Resp, W>>,
    pub pending: Seq<int>,
    pub waker: Option<W>,
    pub cancel: bool,
}

impl<Req, Resp, W> MailboxModel<Req, Resp, W> {
    /// The state of a freshly started actor: no channels, nothing pending,
    /// no parked handle, no cancellation.
    pub open spec fn init() -> MailboxModel<Req, Resp, W> {
        MailboxModel { channels: Seq::empty(), pending: Seq::empty(), waker: None, cancel: false }
    }

    /// Well-formedness: pending entries index existing channels, are listed
    /// in creation order without repetition, and still hold their requests
    /// (nothing takes a request before its channel leaves the queue).
    pub open spec fn wf(self) -> bool {
        &&& forall|i: int|
            0 <= i < self.pending.len() ==> 0 <= #[trigger] self.pending[i] < self.channels.len()
        &&& forall|i: int, j: int|
            #![trigger self.pending[i], self.pending[j]]
            0 <= i < j < self.pending.len() ==> self.pending[i] < self.pending[j]
        &&& forall|i: int|
            0 <= i < self.pending.len() ==> (#[trigger] self.channels[self.pending[i]]).request is Some
    }

    /// The state after a `handle` call: a fresh channel around `request` is
    /// appended and queued, and the driving task's parked handle is taken
    /// out to be fired.
    pub open spec fn enqueued(self, request: Req) -> MailboxModel<Req, Resp, W> {
        MailboxModel {
            channels: self.channels.push(ChannelModel::init(request)),
            pending: self.pending.push(self.channels.len() as int),
            waker: None,
            cancel: self.cancel,
        }
    }

    /// The state after `shutdown`: the cancellation flag is set and the
    /// parked handle is taken out to be fired.
    pub open spec fn cancelled(self) -> MailboxModel<Req, Resp, W> {
        MailboxModel { waker: None, cancel: true, ..self }
    }

    /// The state after the driving task dequeues the oldest pending channel.
    pub open spec fn dequeued(self) -> MailboxModel<Req, Resp, W> {
        MailboxModel { pending: self.pending.drop_first(), ..self }
    }

    /// The state after the driving task parks its resumption handle.
    pub open spec fn suspended(self, w: W) -> MailboxModel<Req, Resp, W> {
        MailboxModel { waker: Some(w), ..self }
    }

    /// The state with channel `id` replaced by `c`.
    pub open spec fn channel_updated(self, id: int, c: ChannelModel<Req, Resp, W>) -> MailboxModel<
        Req,
        Resp,
        W,
    > {
        MailboxModel { channels: self.channels.update(id, c), ..self }
    }

    /// The state after draining: the queue is emptied front to back and
    /// every queued channel is resolved with `Err(error)`.
    pub open spec fn drained(self, error: AsyncError) -> MailboxModel<Req, Resp, W>
        decreases self.pending.len(),
    {
        if self.pending.len() == 0 {
            self
        } else {
            let id = self.pending[0];
            self.channel_updated(id, self.channels[id].resolved(Err(error))).dequeued().drained(
                error,
            )
        }
    }

    /// The resumption handles registered on the queued channels, in queue
    /// order. When the queue is drained or processed front to back, these
    /// are exactly the handles handed out to be fired.
    pub open spec fn pending_wakers(self) -> Seq<W>
        decreases self.pending.len(),
    {
        if self.pending.len() == 0 {
            Seq::empty()
        } else {
            let rest = self.dequeued().pending_wakers();
            match self.channels[self.pending[0]].waker {
                Some(w) => seq![w] + rest,
                None => rest,
            }
        }
    }

    /// The state after submitting each request in `requests`, in order.
    pub open spec fn enqueued_all(self, requests: Seq<Req>) -> MailboxModel<Req, Resp, W>
        decreases requests.len(),
    {
        if requests.len() == 0 {
            self
        } else {
            self.enqueued(requests[0]).enqueued_all(requests.drop_first())
        }
    }

    /// Enqueuing preserves well-formedness: the fresh channel's index is
    /// larger than everything already queued.
    pub proof fn lemma_enqueued_wf(self, request: Req)
        requires
            self.wf(),
        ensures
            self.enqueued(request).wf(),
    {
        let e = self.enqueued(request);
        assert forall|i: int, j: int|
            #![trigger e.pending[i], e.pending[j]]
            0 <= i < j < e.pending.len() implies e.pending[i] < e.pending[j] by {
            if j < self.pending.len() {
                assert(self.pending[i] < self.pending[j]);
            } else {
                assert(e.pending[j] == self.channels.len());
                assert(self.pending[i] < self.channels.len());
            }
        }
        assert forall|i: int| 0 <= i < e.pending.len() implies (#[trigger] e.channels[e.pending[i]]).request
            is Some by {
            if i < self.pending.len() {
                assert(e.channels[e.pending[i]] == self.channels[self.pending[i]]);
            } else {
                assert(e.channels[e.pending[i]] == ChannelModel::<Req, Resp, W>::init(request));
            }
        }
    }

    /// Dequeuing preserves well-formedness.
    pub proof fn lemma_dequeued_wf(self)
        requires
            self.wf(),
            self.pending.len() > 0,
        ensures
            self.dequeued().wf(),
    {
        let d = self.dequeued();
        assert forall|i: int| 0 <= i < d.pending.len() implies 0 <= #[trigger] d.pending[i]
            < d.channels.len() by {
            assert(d.pending[i] == self.pending[i + 1]);
        }
        assert forall|i: int, j: int|
            #![trigger d.pending[i], d.pending[j]]
            0 <= i < j < d.pending.len() implies d.pending[i] < d.pending[j] by {
            assert(d.pending[i] == self.pending[i + 1]);
            assert(d.pending[j] == self.pending[j + 1]);
        }
        assert forall|i: int| 0 <= i < d.pending.len() implies (#[trigger] d.channels[d.pending[i]]).request
            is Some by {
            assert(d.pending[i] == self.pending[i + 1]);
            assert(self.channels[self.pending[i + 1]].request is Some);
        }
    }

    /// Replacing a channel preserves well-formedness, provided a channel
    /// that is still queued keeps a request to hand out.
    pub proof fn lemma_channel_updated_wf(self, id: int, c: ChannelModel<Req, Resp, W>)
        requires
            self.wf(),
            0 <= id < self.channels.len(),
            self.pending.contains(id) ==> c.request is Some,
        ensures
            self.channel_updated(id, c).wf(),
    {
        let u = self.channel_updated(id, c);
        assert forall|i: int| 0 <= i < u.pending.len() implies (#[trigger] u.channels[u.pending[i]]).request
            is Some by {
            if u.pending[i] == id {
                assert(self.pending.contains(id));
            } else {
                assert(u.channels[u.pending[i]] == self.channels[self.pending[i]]);
            }
        }
    }

    /// Replacing a channel that is not queued leaves the queued channels'
    /// registered handles as they were.
    pub proof fn lemma_pending_wakers_update_outside(self, id: int, c: ChannelModel<Req, Resp, W>)
        requires
            self.wf(),
            0 <= id < self.channels.len(),
            !self.pending.contains(id),
        ensures
            self.channel_updated(id, c).pending_wakers() == self.pending_wakers(),
        decreases self.pending.len(),
    {
        let u = self.channel_updated(id, c);
        if self.pending.len() > 0 {
            assert(self.pending[0] != id);
            assert(0 <= self.pending[0] < self.channels.len());
            assert(u.channels[u.pending[0]] == self.channels[self.pending[0]]);
            self.lemma_dequeued_wf();
            assert(!self.dequeued().pending.contains(id)) by {
                if self.dequeued().pending.contains(id) {
                    let k = choose|k: int|
                        0 <= k < self.dequeued().pending.len() && self.dequeued().pending[k] == id;
                    assert(self.pending[k + 1] == id);
                }
            }
            self.dequeued().lemma_pending_wakers_update_outside(id, c);
            assert(u.dequeued() =~= self.dequeued().channel_updated(id, c));
        }
    }
}

/// The outcome of one step of the mailbox's pending-item sequence.
pub enum MailboxPoll<W> {
    /// The oldest pending channel, by its index, handed to the driving task.
    Item(usize),
    /// Cancellation was observed: the queue was drained, every queued
    /// channel resolved with `Err(Shutdown)`, and the sequence has ended.
    /// Carries the resumption handles of the drained channels, which the
    /// runtime must fire.
    End(Vec<W>),
    /// Nothing is pending and no cancellation was requested; the driving
    /// task's handle was parked and the task should suspend.
    Pending,
}

/// The storage shared by an actor's address handles and its mailbox, as one
/// plain value.
///
/// In a deployment this block sits behind a shared cell; every cloned
/// address and the driving task alias it. Callers reach their channels by
/// the index `handle` returns. `W` is the scheduler's opaque resumption
/// handle: operations that would fire one return it instead.
pub struct Mailbox<Req, Resp, W> {
    channels: Vec<AsyncRequestResponse<Req, Resp, W>>,
    pending: Vec<usize>,
    mailbox_waker: Option<W>,
    cancel_flag: bool,
}

impl<Req, Resp, W> View for Mailbox<Req, Resp, W> {
    type V = MailboxModel<Req, Resp, W>;

    closed spec fn view(&self) -> MailboxModel<Req, Resp, W> {
        MailboxModel {
            channels: self.channels@.map_values(|c: AsyncRequestResponse<Req, Resp, W>| c@),
            pending: self.pending@.map_values(|u: usize| u as int),
            waker: self.mailbox_waker,
            cancel: self.cancel_flag,
        }
    }
}

impl<Req, Resp, W> Mailbox<Req, Resp, W> {
    /// Start with an empty mailbox.
    pub fn new() -> (m: Mailbox<Req, Resp, W>)
        ensures
            m@ == MailboxModel::<Req, Resp, W>::init(),
            m@.wf(),
    {
        let m = Mailbox {
            channels: Vec::new(),
            pending: Vec::new(),
            mailbox_waker: None,
            cancel_flag: false,
        };
        proof {
            assert(m@ =~= MailboxModel::<Req, Resp, W>::init());
        }
        m
    }

    /// Address side: submit `request`. A fresh channel is created around it
    /// and queued, and the driving task's parked resumption handle, if any,
    /// is handed back to be fired. Returns the channel's index, through
    /// which the caller polls for the response.
    pub fn handle(&mut self, request: Req) -> (r: (usize, Option<W>))
        requires
            old(self)@.wf(),
        ensures
            final(self)@ == old(self)@.enqueued(request),
            final(self)@.wf(),
            r.0 as int == old(self)@.channels.len(),
            r.1 == old(self)@.waker,
    {
        let id = self.channels.len();
        self.channels.push(AsyncRequestResponse::new(request));
        self.pending.push(id);
        let w = self.mailbox_waker.take();
        proof {
            let m0 = old(self)@;
            assert(self@.channels =~= m0.channels.push(ChannelModel::init(request)));
            assert(self@.pending =~= m0.pending.push(m0.channels.len() as int));
            assert(self@ =~= m0.enqueued(request));
            m0.lemma_enqueued_wf(request);
        }
        (id, w)
    }

    /// Address side: request cancellation. Sets the shared flag and hands
    /// back the driving task's parked resumption handle, if any, to be
    /// fired. Idempotent; pending channels are resolved later, by the
    /// drain in `poll_next`.
    pub fn shutdown(&mut self) -> (w: Option<W>)
        requires
            old(self)@.wf(),
        ensures
            final(self)@ == old(self)@.cancelled(),
            final(self)@.wf(),
            w == old(self)@.waker,
    {
        self.cancel_flag = true;
        let w = self.mailbox_waker.take();
        proof {
            assert(self@ =~= old(self)@.cancelled());
        }
        w
    }

    /// Consumer side: publish `result` on channel `id` (an earlier unread
    /// response is overwritten) and hand back that channel's registered
    /// resumption handle, to be fired by the runtime.
    pub fn resolve(&mut self, id: usize, result: Result<Resp, AsyncError>) -> (w: Option<W>)
        requires
            old(self)@.wf(),
            id < old(self)@.channels.len(),
        ensures
            final(self)@ == old(self)@.channel_updated(
                id as int,
                old(self)@.channels[id as int].resolved(result),
            ),
            final(self)@.wf(),
            w == old(self)@.channels[id as int].waker,
    {
        let mut c = self.channels.remove(id);
        let w = c.wake_with_response(result);
        self.channels.insert(id, c);
        proof {
            let m0 = old(self)@;
            let c1 = m0.channels[id as int].resolved(result);
            assert(self@.channels =~= m0.channels.update(id as int, c1));
            assert(self@ =~= m0.channel_updated(id as int, c1));
            m0.lemma_channel_updated_wf(id as int, c1);
        }
        w
    }

    /// Consumer side: destructively read the request slot of channel `id`,
    /// once the channel has been dequeued. The first call returns the
    /// request; later calls return nothing.
    pub fn take_request(&mut self, id: usize) -> (r: Option<Req>)
        requires
            old(self)@.wf(),
            id < old(self)@.channels.len(),
            !old(self)@.pending.contains(id as int),
        ensures
            final(self)@ == old(self)@.channel_updated(
                id as int,
                old(self)@.channels[id as int].with_request_taken(),
            ),
            final(self)@.wf(),
            r == old(self)@.channels[id as int].request,
    {
        let mut c = self.channels.remove(id);
        let r = c.take_request();
        self.channels.insert(id, c);
        proof {
            let m0 = old(self)@;
            let c1 = m0.channels[id as int].with_request_taken();
            assert(self@.channels =~= m0.channels.update(id as int, c1));
            assert(self@ =~= m0.channel_updated(id as int, c1));
            m0.lemma_channel_updated_wf(id as int, c1);
        }
        r
    }

    /// Producer side: one poll of channel `id`. A filled response slot is
    /// consumed and delivered exactly once; an empty one makes the poll
    /// register `waker` on the channel instead, and the caller suspends.
    pub fn poll_response(&mut self, id: usize, waker: W) -> (r: Option<
        Result<Resp, AsyncError>,
    >)
        requires
            old(self)@.wf(),
            id < old(self)@.channels.len(),
        ensures
            final(self)@ == old(self)@.channel_updated(
                id as int,
                old(self)@.channels[id as int].after_poll(waker),
            ),
            final(self)@.wf(),
            r == old(self)@.channels[id as int].poll_result(),
    {
        let mut c = self.channels.remove(id);
        let pr = c.poll(waker);
        self.channels.insert(id, c);
        proof {
            let m0 = old(self)@;
            let c1 = m0.channels[id as int].after_poll(waker);
            assert(self@.channels =~= m0.channels.update(id as int, c1));
            assert(self@ =~= m0.channel_updated(id as int, c1));
            m0.lemma_channel_updated_wf(id as int, c1);
        }
        match pr {
            ChannelPoll::Ready(resp) => Some(resp),
            ChannelPoll::Pending => None,
        }
    }

    /// Drain the pending queue front to back, resolving every queued
    /// channel with `Err(error)`, and hand back their registered resumption
    /// handles in queue order. No caller is left awaiting forever: firing
    /// the returned handles resumes every waiting producer, which then
    /// observes the error.
    pub fn stop_all_pending_with_error(&mut self, error: AsyncError) -> (wakers: Vec<W>)
        requires
            old(self)@.wf(),
        ensures
            final(self)@ == old(self)@.drained(error),
            final(self)@.wf(),
            wakers@ == old(self)@.pending_wakers(),
    {
        let mut wakers: Vec<W> = Vec::new();
        while self.pending.len() > 0
            invariant
                self@.wf(),
                self@.drained(error) == old(self)@.drained(error),
                wakers@ + self@.pending_wakers() == old(self)@.pending_wakers(),
            decreases self.pending.len(),
        {
            let ghost m0 = self@;
            let id = self.pending.remove(0);
            proof {
                assert(self@.pending =~= m0.pending.drop_first());
                assert(self@ =~= m0.dequeued());
                m0.lemma_dequeued_wf();
            }
            let w = self.resolve(id, Err(error));
            if let Some(w0) = w {
                wakers.push(w0);
            }
            proof {
                let mid = id as int;
                let c1 = m0.channels[mid].resolved(Err(error));
                // the exec step resolved after dequeuing; the drain spec
                // resolves before: the two orders give the same state
                assert(m0.channel_updated(mid, c1).dequeued() =~= m0.dequeued().channel_updated(
                    mid,
                    c1,
                ));
                assert(self@ == m0.channel_updated(mid, c1).dequeued());
                assert(m0.drained(error) == self@.drained(error));
                // the handle collected is the head of the waker sequence,
                // and resolving a dequeued channel leaves the rest alone
                assert(!m0.dequeued().pending.contains(mid)) by {
                    if m0.dequeued().pending.contains(mid) {
                        let k = choose|k: int|
                            0 <= k < m0.dequeued().pending.len() && m0.dequeued().pending[k]
                                == mid;
                        assert(m0.pending[k + 1] == mid);
                        assert(m0.pending[0] < m0.pending[k + 1]);
                    }
                }
                m0.dequeued().lemma_pending_wakers_update_outside(mid, c1);
                assert(self@.pending_wakers() == m0.dequeued().pending_wakers());
                match m0.channels[mid].waker {
                    Some(w0) => {
                        assert(m0.pending_wakers() == seq![w0] + self@.pending_wakers());
                    },
                    None => {
                        assert(m0.pending_wakers() == self@.pending_wakers());
                    },
                }
                assert(wakers@ + self@.pending_wakers() == old(self)@.pending_wakers());
            }
        }
        proof {
            assert(self@.drained(error) == self@);
            assert(wakers@ + self@.pending_wakers() =~= wakers@);
        }
        wakers
    }

    /// One step of the mailbox's pending-item sequence, driven by the
    /// actor's task. Cancellation is level-triggered and observed here,
    /// between items: if the flag is set, the whole queue is drained with
    /// `Err(Shutdown)` and the sequence ends for good. Otherwise the oldest
    /// pending channel is yielded (strict FIFO), or, with nothing pending,
    /// `waker` is parked and the task suspends until `handle` or `shutdown`
    /// fires it.
    pub fn poll_next(&mut self, waker: W) -> (r: MailboxPoll<W>)
        requires
            old(self)@.wf(),
        ensures
            final(self)@.wf(),
            match r {
                MailboxPoll::Item(id) => {
                    &&& !old(self)@.cancel
                    &&& old(self)@.pending.len() > 0
                    &&& id as int == old(self)@.pending[0]
                    &&& id < old(self)@.channels.len()
                    &&& final(self)@ == old(self)@.dequeued()
                },
                MailboxPoll::End(ws) => {
                    &&& old(self)@.cancel
                    &&& final(self)@ == old(self)@.drained(AsyncError::Shutdown)
                    &&& ws@ == old(self)@.pending_wakers()
                },
                MailboxPoll::Pending => {
                    &&& !old(self)@.cancel
                    &&& old(self)@.pending.len() == 0
                    &&& final(self)@ == old(self)@.suspended(waker)
                },
            },
    {
        if self.cancel_flag {
            let ws = self.stop_all_pending_with_error(AsyncError::Shutdown);
            MailboxPoll::End(ws)
        } else if self.pending.len() > 0 {
            let id = self.pending.remove(0);
            proof {
                assert(self@.pending =~= old(self)@.pending.drop_first());
                assert(self@ =~= old(self)@.dequeued());
                old(self)@.lemma_dequeued_wf();
            }
            MailboxPoll::Item(id)
        } else {
            self.mailbox_waker = Some(waker);
            proof {
                assert(self@ =~= old(self)@.suspended(waker));
            }
            MailboxPoll::Pending
        }
    }

    /// The synchronous core of the driving loop: hand every currently
    /// pending request, oldest first, to `actor`, resolve the matching
    /// channel with `Ok` of the returned response, and collect the
    /// resumption handles to fire. A response already being computed when
    /// `shutdown` is called completes normally, so the cancellation flag is
    /// not consulted here; the next `poll_next` observes it.
    pub fn process_pending<A: Actor<Request = Req, Response = Resp>>(
        &mut self,
        actor: &mut A,
    ) -> (wakers: Vec<W>)
        requires
            old(self)@.wf(),
        ensures
            final(self)@.wf(),
            final(self)@.pending.len() == 0,
            final(self)@.channels.len() == old(self)@.channels.len(),
            final(self)@.waker == old(self)@.waker,
            final(self)@.cancel == old(self)@.cancel,
            forall|k: int|
                0 <= k < old(self)@.pending.len() ==> {
                    let id = #[trigger] old(self)@.pending[k];
                    &&& final(self)@.channels[id].request is None
                    &&& final(self)@.channels[id].response matches Some(Ok(_))
                },
            forall|i: int|
                0 <= i < old(self)@.channels.len() && !old(self)@.pending.contains(i)
                    ==> final(self)@.channels[i] == old(self)@.channels[i],
            wakers@ == old(self)@.pending_wakers(),
    {
        let ghost m0 = old(self)@;
        let ghost mut k: int = 0;
        let mut wakers: Vec<W> = Vec::new();
        while self.pending.len() > 0
            invariant
                m0.wf(),
                self@.wf(),
                0 <= k <= m0.pending.len(),
                self@.pending == m0.pending.skip(k),
                self@.channels.len() == m0.channels.len(),
                self@.waker == m0.waker,
                self@.cancel == m0.cancel,
                forall|j: int|
                    0 <= j < k ==> {
                        let id = #[trigger] m0.pending[j];
                        &&& self@.channels[id].request is None
                        &&& self@.channels[id].response matches Some(Ok(_))
                    },
                forall|i: int|
                    0 <= i < m0.channels.len() && !m0.pending.take(k).contains(i)
                        ==> self@.channels[i] == m0.channels[i],
                wakers@ + self@.pending_wakers() == m0.pending_wakers(),
            decreases self.pending.len(),
        {
            let ghost mh = self@;
            proof {
                assert(mh.pending[0] == m0.pending[k]);
                assert(mh.channels[mh.pending[0]].request is Some);
            }
            let id = self.pending.remove(0);
            proof {
                assert(self@.pending =~= mh.pending.drop_first());
                assert(self@ =~= mh.dequeued());
                mh.lemma_dequeued_wf();
                // the tail holds only later, larger channel indices
                assert(!self@.pending.contains(id as int)) by {
                    if self@.pending.contains(id as int) {
                        let j = choose|j: int|
                            0 <= j < self@.pending.len() && self@.pending[j] == id as int;
                        assert(mh.pending[j + 1] == id as int);
                        assert(mh.pending[0] < mh.pending[j + 1]);
                    }
                }
            }
            let request = self.take_request(id);
            let request = request.unwrap();
            let response = actor.handle(request);
            let w = self.resolve(id, Ok(response));
            if let Some(w0) = w {
                wakers.push(w0);
            }
            proof {
                let mid = id as int;
                let c1 = mh.channels[mid].with_request_taken();
                let c2 = self@.channels[mid];
                // the two channel updates collapse into one
                assert(self@ =~= mh.dequeued().channel_updated(mid, c2));
                assert(c2.request is None);
                assert(c2.response matches Some(Ok(_)));
                // the handle collected is the head of the waker sequence
                mh.dequeued().lemma_pending_wakers_update_outside(mid, c2);
                assert(self@.pending_wakers() == mh.dequeued().pending_wakers());
                match mh.channels[mid].waker {
                    Some(w0) => {
                        assert(mh.pending_wakers() == seq![w0] + self@.pending_wakers());
                    },
                    None => {
                        assert(mh.pending_wakers() == self@.pending_wakers());
                    },
                }
                assert(wakers@ + self@.pending_wakers() == m0.pending_wakers());
                k = k + 1;
                assert(self@.pending =~= m0.pending.skip(k));
                // channels untouched outside the processed prefix
                assert forall|i: int|
                    0 <= i < m0.channels.len() && !m0.pending.take(k).contains(i)
                        implies self@.channels[i] == m0.channels[i] by {
                    if i != mid {
                        assert(!m0.pending.take(k - 1).contains(i)) by {
                            if m0.pending.take(k - 1).contains(i) {
                                let j = choose|j: int|
                                    0 <= j < k - 1 && #[trigger] m0.pending.take(k - 1)[j] == i;
                                assert(m0.pending.take(k)[j] == i);
                            }
                        }
                    } else {
                        assert(m0.pending.take(k)[k - 1] == mid);
                        assert(m0.pending.take(k).contains(mid));
                    }
                }
                assert forall|j: int| 0 <= j < k implies {
                    let id2 = #[trigger] m0.pending[j];
                    &&& self@.channels[id2].request is None
                    &&& self@.channels[id2].response matches Some(Ok(_))
                } by {
                    assert(mid == m0.pending[k - 1]);
                    if j < k - 1 {
                        assert(m0.pending[j] < m0.pending[k - 1]);
                        assert(0 <= m0.pending[j] < m0.channels.len());
                        assert(self@.channels[m0.pending[j]] == mh.channels[m0.pending[j]]);
                    } else {
                        assert(m0.pending[j] == mid);
                    }
                }
            }
        }
        proof {
            assert(k == m0.pending.len());
            assert(m0.pending.take(k) =~= m0.pending);
            assert(wakers@ + self@.pending_wakers() =~= wakers@);
        }
        wakers
    }
}

/// Submitting a batch of requests appends one fresh channel per request,
/// queued behind everything already pending, in submission order, without
/// touching the channels that already existed.
pub proof fn lemma_enqueued_all<Req, Resp, W>(m: MailboxModel<Req, Resp, W>, requests: Seq<Req>)
    requires
        m.wf(),
    ensures
        ({
            let m2 = m.enqueued_all(requests);
            &&& m2.wf()
            &&& m2.cancel == m.cancel
            &&& m2.channels.len() == m.channels.len() + requests.len()
            &&& m2.pending.len() == m.pending.len() + requests.len()
            &&& forall|i: int| 0 <= i < m.pending.len() ==> #[trigger] m2.pending[i] == m.pending[i]
            &&& forall|i: int|
                0 <= i < requests.len() ==> #[trigger] m2.pending[m.pending.len() + i]
                    == m.channels.len() + i
            &&& forall|i: int|
                0 <= i < requests.len() ==> (#[trigger] m2.channels[m.channels.len() + i]).request
                    == Some(requests[i])
            &&& forall|i: int|
                0 <= i < m.channels.len() ==> #[trigger] m2.channels[i] == m.channels[i]
        }),
    decreases requests.len(),
{
    if requests.len() > 0 {
        let m1 = m.enqueued(requests[0]);
        m.lemma_enqueued_wf(requests[0]);
        lemma_enqueued_all(m1, requests.drop_first());
        let m2 = m.enqueued_all(requests);
        assert forall|i: int| 0 <= i < requests.len() implies (#[trigger] m2.channels[m.channels.len()
            + i]).request == Some(requests[i]) by {
            if i == 0 {
                assert(m1.channels[m.channels.len() as int]
                    == ChannelModel::<Req, Resp, W>::init(requests[0]));
            } else {
                assert(m2.channels[m1.channels.len() + (i - 1)].request == Some(
                    requests.drop_first()[i - 1],
                ));
            }
        }
        assert forall|i: int| 0 <= i < requests.len() implies #[trigger] m2.pending[m.pending.len()
            + i] == m.channels.len() + i by {
            if i == 0 {
                assert(m2.pending[m1.pending.len() - 1] == m1.pending[m1.pending.len() - 1]);
            } else {
                assert(m2.pending[m1.pending.len() + (i - 1)] == m1.channels.len() + (i - 1));
            }
        }
    }
}

/// FIFO: submitting requests through `handle` queues them in exactly the
/// order of submission, behind everything already pending; since
/// `poll_next` always yields the head of the queue and `process_pending`
/// works front to back, the driving task receives and answers them in that
/// same order.
pub proof fn lemma_fifo_order<Req, Resp, W>(m: MailboxModel<Req, Resp, W>, requests: Seq<Req>)
    requires
        m.wf(),
    ensures
        ({
            let m2 = m.enqueued_all(requests);
            &&& m2.wf()
            &&& m2.pending.len() == m.pending.len() + requests.len()
            &&& forall|i: int| 0 <= i < m.pending.len() ==> #[trigger] m2.pending[i] == m.pending[i]
            &&& forall|i: int|
                0 <= i < requests.len() ==> (#[trigger] m2.channels[m2.pending[m.pending.len()
                    + i]]).request == Some(requests[i])
        }),
{
    lemma_enqueued_all(m, requests);
}

/// A response, once resolved, is observed by the awaiting producer exactly
/// once: the poll that finds the resolved channel consumes the response; a
/// further poll of the same channel delivers nothing — it merely parks the
/// new resumption handle again — and in particular never double-delivers.
pub proof fn lemma_response_delivered_once<Req, Resp, W>(
    c: ChannelModel<Req, Resp, W>,
    result: Result<Resp, AsyncError>,
    w1: W,
    w2: W,
)
    ensures
        ({
            let resolved = c.resolved(result);
            let once = resolved.after_poll(w1);
            &&& resolved.poll_result() == Some(result)
            &&& once == resolved.with_response_taken()
            &&& once.poll_result() is None
            &&& once.after_poll(w2) == once.with_waker(w2)
        }),
{
}

/// Draining resolves every queued channel with `Err(error)`, empties the
/// queue, and touches nothing else.
pub proof fn lemma_drained_resolves_all<Req, Resp, W>(
    m: MailboxModel<Req, Resp, W>,
    error: AsyncError,
)
    requires
        m.wf(),
    ensures
        ({
            let m2 = m.drained(error);
            &&& m2.wf()
            &&& m2.pending.len() == 0
            &&& m2.channels.len() == m.channels.len()
            &&& forall|k: int|
                0 <= k < m.pending.len() ==> (#[trigger] m2.channels[m.pending[k]]).response
                    == Some(Err::<Resp, AsyncError>(error))
            &&& forall|i: int|
                0 <= i < m.channels.len() && !m.pending.contains(i)
                    ==> #[trigger] m2.channels[i] == m.channels[i]
        }),
    decreases m.pending.len(),
{
    if m.pending.len() > 0 {
        let id = m.pending[0];
        let c1 = m.channels[id].resolved(Err(error));
        let m1 = m.channel_updated(id, c1).dequeued();
        m.lemma_channel_updated_wf(id, c1);
        m.channel_updated(id, c1).lemma_dequeued_wf();
        lemma_drained_resolves_all(m1, error);
        let m2 = m.drained(error);
        assert(!m1.pending.contains(id)) by {
            if m1.pending.contains(id) {
                let k = choose|k: int|
                    0 <= k < m1.pending.len() && #[trigger] m1.pending[k] == id;
                assert(m.pending[k + 1] == id);
                assert(m.pending[0] < m.pending[k + 1]);
            }
        }
        assert forall|k: int| 0 <= k < m.pending.len() implies (#[trigger] m2.channels[m.pending[k]]).response
            == Some(Err::<Resp, AsyncError>(error)) by {
            if k == 0 {
                assert(m2.channels[id] == m1.channels[id]);
                assert(m1.channels[id] == c1);
            } else {
                assert(m1.pending[k - 1] == m.pending[k]);
            }
        }
        assert forall|i: int|
            0 <= i < m.channels.len() && !m.pending.contains(i) implies #[trigger] m2.channels[i]
            == m.channels[i] by {
            assert(i != id);
            assert(!m1.pending.contains(i)) by {
                if m1.pending.contains(i) {
                    let k = choose|k: int|
                        0 <= k < m1.pending.len() && #[trigger] m1.pending[k] == i;
                    assert(m.pending[k + 1] == i);
                    assert(m.pending.contains(i));
                }
            }
            assert(m1.channels[i] == m.channels[i]);
        }
    }
}

/// A mailbox destroyed with unresolved pending channels resolves every one
/// of them with `Err(Abort)` and empties the queue, so no caller is left
/// awaiting forever merely because the actor side disappeared.
pub proof fn lemma_abort_resolves_all_pending<Req, Resp, W>(m: MailboxModel<Req, Resp, W>)
    requires
        m.wf(),
    ensures
        ({
            let m2 = m.drained(AsyncError::Abort);
            &&& m2.pending.len() == 0
            &&& forall|k: int|
                0 <= k < m.pending.len() ==> (#[trigger] m2.channels[m.pending[k]]).response
                    == Some(Err::<Resp, AsyncError>(AsyncError::Abort))
        }),
{
    lemma_drained_resolves_all(m, AsyncError::Abort);
}

/// After `shutdown`, every channel already enqueued at that point, plus any
/// enqueued while the cancellation is becoming visible, resolves with
/// `Err(Shutdown)` at the driving task's next `poll_next`, which drains the
/// queue and ends the pending-item sequence for good.
pub proof fn lemma_shutdown_drains<Req, Resp, W>(
    m: MailboxModel<Req, Resp, W>,
    late_requests: Seq<Req>,
)
    requires
        m.wf(),
    ensures
        ({
            let m2 = m.cancelled().enqueued_all(late_requests);
            let m3 = m2.drained(AsyncError::Shutdown);
            &&& m2.cancel
            &&& m3.pending.len() == 0
            &&& forall|k: int|
                0 <= k < m.pending.len() ==> (#[trigger] m3.channels[m.pending[k]]).response
                    == Some(Err::<Resp, AsyncError>(AsyncError::Shutdown))
            &&& forall|i: int|
                0 <= i < late_requests.len() ==> (#[trigger] m3.channels[m.channels.len()
                    + i]).response == Some(Err::<Resp, AsyncError>(AsyncError::Shutdown))
        }),
{
    let mc = m.cancelled();
    assert(mc.wf());
    lemma_enqueued_all(mc, late_requests);
    let m2 = mc.enqueued_all(late_requests);
    lemma_drained_resolves_all(m2, AsyncError::Shutdown);
    let m3 = m2.drained(AsyncError::Shutdown);
    assert forall|k: int| 0 <= k < m.pending.len() implies (#[trigger] m3.channels[m.pending[k]]).response
        == Some(Err::<Resp, AsyncError>(AsyncError::Shutdown)) by {
        assert(m2.pending[k] == m.pending[k]);
    }
    assert forall|i: int| 0 <= i < late_requests.len() implies (#[trigger] m3.channels[m.channels.len()
        + i]).response == Some(Err::<Resp, AsyncError>(AsyncError::Shutdown)) by {
        assert(m2.pending[m.pending.len() + i] == m.channels.len() + i);
    }
}

/// Round trip: a request submitted to an idle, running mailbox is dequeued
/// exactly as submitted, and resolving its channel with `Ok` of the
/// handler's response makes the producer's next poll deliver exactly that
/// value. For a handler that computes `f`, a caller of `handle(r)` observes
/// precisely `Ok(f(r))`.
pub proof fn lemma_round_trip<Req, Resp, W>(
    m: MailboxModel<Req, Resp, W>,
    request: Req,
    response: Resp,
)
    requires
        m.wf(),
        !m.cancel,
        m.pending.len() == 0,
    ensures
        ({
            let m1 = m.enqueued(request);
            let id = m1.pending[0];
            let taken = m1.dequeued().channel_updated(id, m1.channels[id].with_request_taken());
            let resolved = taken.channel_updated(
                id,
                taken.channels[id].resolved(Ok(response)),
            );
            &&& !m1.cancel && m1.pending.len() == 1 && id == m.channels.len()
            &&& m1.channels[id].request == Some(request)
            &&& resolved.channels[id].poll_result() == Some(Ok::<Resp, AsyncError>(response))
        }),
{
}

} // verus!
