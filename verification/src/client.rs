use vstd::prelude::*;

use crate::codec::{decode, encode_command, spec_decode, spec_encode_command, MpvResponse, MsgV};
use crate::commands::{args_view, CmdArg, MpvCommandResponse, RespV};
use crate::json::spec_frame_fields;
use crate::pending::{PendingTable, REQUEST_ID_BOUND};

verus! {

/// What the dispatcher does with one inbound frame.
#[derive(Debug, PartialEq, Eq)]
pub enum DispatchAction<H> {
    /// The frame answers the outstanding request this handle was registered
    /// for: deliver the reply through the handle.
    Fulfill(H, MpvCommandResponse),
    /// The frame is an event or unclassified: hand it to the event sink.
    Publish(MpvResponse),
    /// The frame answers a request that is not outstanding: drop it.
    Ignore,
}

/// The mathematical image of [`DispatchAction`].
pub enum ActionV<H> {
    Fulfill(H, RespV),
    Publish(MsgV),
    Ignore,
}

impl<H> View for DispatchAction<H> {
    type V = ActionV<H>;

    open spec fn view(&self) -> ActionV<H> {
        match self {
            DispatchAction::Fulfill(h, r) => ActionV::Fulfill(*h, r@),
            DispatchAction::Publish(m) => ActionV::Publish(m@),
            DispatchAction::Ignore => ActionV::Ignore,
        }
    }
}

/// How one classified frame moves the correlation table and what it makes
/// the dispatcher do: a reply to an outstanding request takes that request's
/// handle out of the table and delivers through it; a reply to an unknown
/// request is dropped; everything else goes to the event sink and leaves
/// the table alone.
pub open spec fn route_spec<H>(m: Map<u64, H>, msg: MsgV) -> (Map<u64, H>, ActionV<H>) {
    match msg {
        MsgV::CommandResponse(resp) => if m.contains_key(resp.request_id) {
            (m.remove(resp.request_id), ActionV::Fulfill(m[resp.request_id], resp))
        } else {
            (m, ActionV::Ignore)
        },
        _ => (m, ActionV::Publish(msg)),
    }
}

/// The correlation engine of one connection: the pending-request table,
/// the writer's register-then-encode step, and the dispatcher's routing
/// step. The surrounding runtime owns the socket; it hands inbound lines
/// to [`Client::on_frame`] and writes out the bytes
/// [`Client::begin_command`] returns.
pub struct Client<H> {
    pending: PendingTable<H>,
}

impl<H> Client<H> {
    /// The outstanding requests: each identifier and its completion handle.
    pub closed spec fn pending_map(&self) -> Map<u64, H> {
        self.pending@
    }

    pub closed spec fn wf(&self) -> bool {
        self.pending.wf()
    }

    /// Creates the engine with nothing outstanding.
    pub fn new() -> (r: Self)
        ensures
            r.wf(),
            r.pending_map() == Map::<u64, H>::empty(),
    {
        Self { pending: PendingTable::new() }
    }

    /// The number of outstanding requests.
    pub fn pending_count(&self) -> (r: usize)
        requires
            self.wf(),
        ensures
            r == self.pending_map().dom().len(),
    {
        self.pending.size()
    }

    /// Starts one command: registers the completion handle under a fresh
    /// request identifier — before anything reaches the wire, so a reply
    /// can never outrun the table — and encodes the exact frame to send.
    /// While every outstanding identifier is below the wrap bound, the
    /// fresh one is strictly greater than each of them.
    pub fn begin_command(&mut self, args: &Vec<CmdArg>, h: H) -> (r: (u64, Vec<u8>))
        requires
            old(self).wf(),
            old(self).pending_map().dom().len() <= REQUEST_ID_BOUND,
        ensures
            final(self).wf(),
            !old(self).pending_map().contains_key(r.0),
            final(self).pending_map() == old(self).pending_map().insert(r.0, h),
            r.0 <= REQUEST_ID_BOUND,
            r.1@ == spec_encode_command(args_view(args@), r.0),
            (forall|k: u64| old(self).pending_map().contains_key(k) ==> k < REQUEST_ID_BOUND)
                ==> (forall|k: u64| old(self).pending_map().contains_key(k) ==> k < r.0),
    {
        let id = self.pending.register(h);
        let frame = encode_command(args, id);
        (id, frame)
    }

    /// Releases an outstanding request without delivering anything, and
    /// says whether it was outstanding. The writer calls this when
    /// transmission fails, so the table slot is not leaked; the caller's
    /// handle is simply dropped.
    pub fn release(&mut self, id: u64) -> (r: bool)
        requires
            old(self).wf(),
        ensures
            final(self).wf(),
            r == old(self).pending_map().contains_key(id),
            final(self).pending_map() == if old(self).pending_map().contains_key(id) {
                old(self).pending_map().remove(id)
            } else {
                old(self).pending_map()
            },
    {
        match self.pending.fulfill(id) {
            Some(_) => true,
            None => false,
        }
    }

    /// Routes one inbound frame, as [`route_spec`] says: decode it; a reply
    /// to an outstanding request resolves exactly that request; a reply to
    /// an unknown one is dropped; events and unclassified frames pass to
    /// the event sink untouched.
    pub fn on_frame(&mut self, line: &[u8]) -> (r: DispatchAction<H>)
        requires
            old(self).wf(),
        ensures
            final(self).wf(),
            (final(self).pending_map(), r@) == route_spec(
                old(self).pending_map(),
                spec_decode(line@),
            ),
    {
        let msg = decode(line);
        match msg {
            MpvResponse::CommandResponse(resp) => match self.pending.fulfill(resp.request_id) {
                Some(h) => DispatchAction::Fulfill(h, resp),
                None => DispatchAction::Ignore,
            },
            other => DispatchAction::Publish(other),
        }
    }
}

/// Law: a reply is delivered exactly to the caller whose request identifier
/// it bears. Every other outstanding request stays outstanding with its own
/// handle, and the delivered request leaves the table.
pub proof fn lemma_no_cross_delivery<H>(m: Map<u64, H>, resp: RespV, other: u64)
    requires
        m.contains_key(resp.request_id),
        m.contains_key(other),
        other != resp.request_id,
    ensures
        route_spec(m, MsgV::CommandResponse(resp)).1 == ActionV::Fulfill(
            m[resp.request_id],
            resp,
        ),
        route_spec(m, MsgV::CommandResponse(resp)).0.contains_key(other),
        route_spec(m, MsgV::CommandResponse(resp)).0[other] == m[other],
        !route_spec(m, MsgV::CommandResponse(resp)).0.contains_key(resp.request_id),
{
}

/// Law: a freshly registered request is resolved by exactly the reply that
/// bears its identifier: routing that reply delivers the registered handle
/// and leaves the table as it stood before the registration, however many
/// other requests are outstanding.
pub proof fn lemma_registered_reply_comes_back<H>(m: Map<u64, H>, id: u64, h: H, resp: RespV)
    requires
        !m.contains_key(id),
        resp.request_id == id,
    ensures
        route_spec(m.insert(id, h), MsgV::CommandResponse(resp)) == (m, ActionV::Fulfill(h, resp)),
{
    assert(m.insert(id, h).remove(id) =~= m);
}

/// Law: a reply bearing a request identifier with no outstanding request
/// resolves no handle and leaves the table unchanged.
pub proof fn lemma_unknown_reply_ignored<H>(m: Map<u64, H>, resp: RespV)
    requires
        !m.contains_key(resp.request_id),
    ensures
        route_spec(m, MsgV::CommandResponse(resp)) == (m, ActionV::Ignore::<H>),
{
}

/// Law: a frame that decodes as neither a valid event nor a valid reply is
/// kept byte for byte and handed to the event sink unmodified; decoding
/// never discards a frame. In particular every frame the grammar rejects
/// goes this way.
pub proof fn lemma_unclassified_kept_verbatim<H>(m: Map<u64, H>, s: Seq<u8>)
    requires
        spec_decode(s) is UnknownResponse || spec_frame_fields(s) is None,
    ensures
        spec_decode(s) == MsgV::UnknownResponse(s),
        route_spec(m, spec_decode(s)) == (m, ActionV::<H>::Publish(MsgV::UnknownResponse(s))),
{
}

} // verus!
