use vstd::prelude::*;

use crate::ledger::AssetKey;
use crate::msg::{transfer_at, transfer_msg_json, SubMsg, SubMsgView};
use crate::packet::NonFungibleTokenPacketData;
use crate::state::{records_known, Ics721State};

verus! {

/// The correlation token of the transfer that gives an escrowed asset back.
pub const TRANSFER_SUB_MSG_REPLY_ID: u64 = 1;

/// The verdict that the receiving chain returns for a packet.
pub enum Ics721Ack {
    Success,
    Error(String),
}

/// Rolling back a failed packet of `class_id` sent over `channel`: each
/// token still held in escrow for that channel leaves the ledger, in packet
/// order. Gives the ledger after, and the tokens to give back.
pub open spec fn rollback(
    outgoing: Map<AssetKey, Seq<char>>,
    class_id: Seq<char>,
    ids: Seq<Seq<char>>,
    channel: Seq<char>,
) -> (Map<AssetKey, Seq<char>>, Seq<Seq<char>>)
    decreases ids.len(),
{
    if ids.len() == 0 {
        (outgoing, seq![])
    } else {
        let (m, back) = rollback(outgoing, class_id, ids.drop_last(), channel);
        let key = (class_id, ids.last());
        if m.contains_key(key) && m[key] == channel {
            (m.remove(key), back.push(ids.last()))
        } else {
            (m, back)
        }
    }
}

/// A rollback over a ledger that holds none of the packet's tokens for its
/// channel changes nothing and gives nothing back.
pub proof fn lemma_rollback_nothing_held(
    m: Map<AssetKey, Seq<char>>,
    class_id: Seq<char>,
    ids: Seq<Seq<char>>,
    channel: Seq<char>,
)
    requires
        forall|j: int|
            0 <= j < ids.len() ==> {
                let key = (class_id, #[trigger] ids[j]);
                !(m.contains_key(key) && m[key] == channel)
            },
    ensures
        rollback(m, class_id, ids, channel) == (m, Seq::<Seq<char>>::empty()),
    decreases ids.len(),
{
    if ids.len() > 0 {
        let prev = ids.drop_last();
        assert forall|j: int| 0 <= j < prev.len() implies {
            let key = (class_id, #[trigger] prev[j]);
            !(m.contains_key(key) && m[key] == channel)
        } by {
            assert(prev[j] == ids[j]);
        }
        lemma_rollback_nothing_held(m, class_id, prev, channel);
        assert(ids.last() == ids[ids.len() - 1]);
    }
}

/// The request that gives `token_id` back to `owner`.
pub open spec fn give_back(contract: Seq<char>, token_id: Seq<char>, owner: Seq<char>) -> SubMsgView {
    SubMsgView {
        contract_addr: contract,
        msg: transfer_msg_json(token_id, owner),
        reply_id: TRANSFER_SUB_MSG_REPLY_ID,
    }
}

/// Error acknowledgement or timeout of a packet sent over `channel`: every
/// token of it still escrowed for that channel goes back to the packet's
/// sender and its record is deleted. A burned voucher has no record here, so
/// nothing is re-minted; a second delivery finds no record and does nothing.
pub fn handle_packet_fail(
    state: &mut Ics721State,
    packet: &NonFungibleTokenPacketData,
    channel: &String,
) -> (msgs: Vec<SubMsg>)
    requires
        old(state).wf(),
    ensures
        final(state).wf(),
        final(state)@.classes == old(state)@.classes,
        final(state)@.incoming == old(state)@.incoming,
        final(state)@.replies == old(state)@.replies,
        ({
            let (m, back) = rollback(old(state)@.outgoing, packet.class_id@, packet.ids(), channel@);
            &&& final(state)@.outgoing == m
            &&& msgs@.len() == back.len()
            &&& forall|j: int|
                0 <= j < back.len() ==> #[trigger] msgs@[j]@ == give_back(
                    old(state)@.classes[packet.class_id@],
                    back[j],
                    packet.sender@,
                )
        }),
{
    let ghost st0 = state@;
    let ghost ids = packet.ids();
    let ghost cid = packet.class_id@;
    let contract = match state.classes.address_of(&packet.class_id) {
        Some(a) => a,
        None => {
            proof {
                assert forall|j: int| 0 <= j < ids.len() implies {
                    let key = (cid, #[trigger] ids[j]);
                    !(st0.outgoing.contains_key(key) && st0.outgoing[key] == channel@)
                } by {
                    if st0.outgoing.contains_key((cid, ids[j])) {
                        assert(st0.classes.contains_key(cid));
                    }
                }
                lemma_rollback_nothing_held(st0.outgoing, cid, ids, channel@);
            }
            return Vec::new();
        },
    };
    let ghost mut back: Seq<Seq<char>> = seq![];
    let mut msgs: Vec<SubMsg> = Vec::new();
    let mut i: usize = 0;
    while i < packet.token_ids.len()
        invariant
            state.wf(),
            i <= packet.token_ids@.len(),
            ids == packet.ids(),
            cid == packet.class_id@,
            st0 == old(state)@,
            st0.classes.contains_key(cid),
            contract@ == st0.classes[cid],
            state@.classes == st0.classes,
            state@.incoming == st0.incoming,
            state@.replies == st0.replies,
            (state@.outgoing, back) == rollback(st0.outgoing, cid, ids.take(i as int), channel@),
            msgs@.len() == back.len(),
            forall|j: int|
                0 <= j < back.len() ==> #[trigger] msgs@[j]@ == give_back(
                    st0.classes[cid],
                    back[j],
                    packet.sender@,
                ),
        decreases packet.token_ids@.len() - i,
    {
        let token_id = &packet.token_ids[i];
        proof {
            assert(ids.take(i + 1).drop_last() =~= ids.take(i as int));
            assert(ids.take(i + 1).last() == token_id@);
        }
        let held = match state.outgoing.channel_of(&packet.class_id, token_id) {
            Some(c) => c == *channel,
            None => false,
        };
        if held {
            let ghost key = (cid, token_id@);
            proof {
                assert(state@.outgoing.contains_key(key));
            }
            let m = transfer_at(contract.clone(), token_id.clone(), packet.sender.clone(), TRANSFER_SUB_MSG_REPLY_ID);
            let ghost before = state@;
            let released = state.outgoing.release(&packet.class_id, token_id, channel);
            proof {
                assert(released is Ok);
            }
            msgs.push(m);
            proof {
                back = back.push(token_id@);
                assert forall|k: AssetKey| #[trigger] state@.outgoing.contains_key(k) implies state@.classes.contains_key(k.0) by {
                    assert(before.outgoing.contains_key(k));
                }
                assert forall|k: AssetKey| #[trigger] state@.incoming.contains_key(k) implies state@.classes.contains_key(k.0) by {
                    assert(before.incoming.contains_key(k));
                }
                assert(records_known(state@));
            }
        }
        i = i + 1;
    }
    proof {
        assert(ids.take(packet.token_ids@.len() as int) =~= ids);
    }
    msgs
}

/// Acknowledgement of a packet sent over `channel`: success leaves the
/// optimistic escrow or burn in place; an error rolls back as
/// [`handle_packet_fail`] does.
pub fn handle_packet_ack(
    state: &mut Ics721State,
    packet: &NonFungibleTokenPacketData,
    channel: &String,
    ack: &Ics721Ack,
) -> (msgs: Vec<SubMsg>)
    requires
        old(state).wf(),
    ensures
        final(state).wf(),
        final(state)@.classes == old(state)@.classes,
        final(state)@.incoming == old(state)@.incoming,
        final(state)@.replies == old(state)@.replies,
        ack is Success ==> final(state)@ == old(state)@ && msgs@.len() == 0,
        ack is Error ==> {
            let (m, back) = rollback(old(state)@.outgoing, packet.class_id@, packet.ids(), channel@);
            &&& final(state)@.outgoing == m
            &&& msgs@.len() == back.len()
            &&& forall|j: int|
                0 <= j < back.len() ==> #[trigger] msgs@[j]@ == give_back(
                    old(state)@.classes[packet.class_id@],
                    back[j],
                    packet.sender@,
                )
        },
{
    match ack {
        Ics721Ack::Success => Vec::new(),
        Ics721Ack::Error(_) => handle_packet_fail(state, packet, channel),
    }
}

} // verus!
