use vstd::prelude::*;

use crate::coordinator::{coord_wf, CoordinatorView, OpStatus, ReplyCoordinator};
use crate::ledger::{AssetKey, EscrowLedger};
use crate::registry::ClassRegistry;

verus! {

/// The first correlation token handed to inbound requests; those below it
/// are fixed ones.
pub const FIRST_REPLY_ID: u64 = 16;

/// The durable state of the transfer engine.
pub struct Ics721State {
    /// Collections known here: class id to NFT contract.
    pub classes: ClassRegistry,
    /// Native assets held in escrow here, by the channel they were lent out on.
    pub outgoing: EscrowLedger,
    /// Vouchers minted here, by the channel whose chain holds the native asset.
    pub incoming: EscrowLedger,
    /// Open coordination contexts of inbound packets.
    pub replies: ReplyCoordinator,
}

/// The plain-value form of [`Ics721State`].
pub struct Ics721StateView {
    pub classes: Map<Seq<char>, Seq<char>>,
    pub outgoing: Map<AssetKey, Seq<char>>,
    pub incoming: Map<AssetKey, Seq<char>>,
    pub replies: CoordinatorView,
}

impl View for Ics721State {
    type V = Ics721StateView;

    open spec fn view(&self) -> Ics721StateView {
        Ics721StateView {
            classes: self.classes@,
            outgoing: self.outgoing@,
            incoming: self.incoming@,
            replies: self.replies@,
        }
    }
}

/// Every custody record, in either direction, names a bound class id, and
/// so does every open context whose collection exists.
pub open spec fn records_known(st: Ics721StateView) -> bool {
    &&& forall|k: AssetKey| #[trigger] st.outgoing.contains_key(k) ==> st.classes.contains_key(k.0)
    &&& forall|k: AssetKey| #[trigger] st.incoming.contains_key(k) ==> st.classes.contains_key(k.0)
    &&& forall|i: int|
        0 <= i < st.replies.contexts.len() && (#[trigger] st.replies.contexts[i]).create == OpStatus::Done
            ==> st.classes.contains_key(st.replies.contexts[i].class_id)
}

/// No asset is both held in escrow here for a channel and circulating here
/// as a voucher that came over that same channel: the chain across the
/// channel holds either the voucher of the escrowed asset, or the
/// native asset behind the local voucher, never both.
pub open spec fn no_double_custody(st: Ics721StateView) -> bool {
    forall|k: AssetKey|
        #[trigger] st.outgoing.contains_key(k) && st.incoming.contains_key(k) ==> st.outgoing[k] != st.incoming[k]
}

impl Ics721State {
    /// Each part is well formed, and every record names a known collection.
    pub open spec fn wf(&self) -> bool {
        &&& self.classes.wf()
        &&& self.outgoing.wf()
        &&& self.incoming.wf()
        &&& coord_wf(self.replies@)
        &&& records_known(self@)
        &&& no_double_custody(self@)
    }

    /// A state with no collection and no record.
    pub fn new() -> (r: Ics721State)
        ensures
            r.wf(),
            r@.classes == Map::<Seq<char>, Seq<char>>::empty(),
            r@.outgoing == Map::<AssetKey, Seq<char>>::empty(),
            r@.incoming == Map::<AssetKey, Seq<char>>::empty(),
            r@.replies.contexts.len() == 0,
            r@.replies.next_id == FIRST_REPLY_ID,
    {
        Ics721State {
            classes: ClassRegistry::new(),
            outgoing: EscrowLedger::new(),
            incoming: EscrowLedger::new(),
            replies: ReplyCoordinator::new(FIRST_REPLY_ID),
        }
    }
}

} // verus!
