use vstd::prelude::*;

use crate::access::AccessState;
use crate::coordinator::{
    ctx_done, ctx_wf, coord_wf, expects, has_failed, op_msg, reply_end, reply_expected, ContextView,
    CoordinatorView, OpKind, OpStatus,
};
use crate::error::ContractError;
use crate::inbound::{classify, receive_error};
use crate::ledger::AssetKey;
use crate::msg::transfer_msg_json;
use crate::outbound::{is_return_trip, send_error};
use crate::packet::NonFungibleTokenPacketData;
use crate::reply::{
    ack_of, after_reply, ledgers_after, op_applies, op_key, AckView, ReplyOutcome,
};
use crate::resolver::{lemma_rollback_nothing_held, rollback};
use crate::state::{no_double_custody, Ics721State, Ics721StateView};

verus! {

/// No double custody: in every well-formed state, no asset is both escrowed
/// here for a channel and held here as a voucher from that channel. Every
/// entry point keeps the state well formed.
pub proof fn law_no_double_custody(st: &Ics721State)
    requires
        st.wf(),
    ensures
        no_double_custody(st@),
{
}

/// The state after a send that escrows `key` for `channel`.
pub open spec fn escrowed(st: Ics721StateView, key: AssetKey, channel: Seq<char>) -> Ics721StateView {
    Ics721StateView { outgoing: st.outgoing.insert(key, channel), ..st }
}

/// Round trip: an asset that a send escrowed for a channel, when it comes
/// back over that channel, is classified as a return; its request gives it
/// to the packet's receiver; and once that request succeeds the ledgers are
/// as before the send, with no record of it.
pub proof fn law_round_trip(st: Ics721StateView, c: ContextView, k: int, contract: Seq<char>)
    requires
        0 <= k < c.tokens.len(),
        c.kinds.len() == c.tokens.len(),
        reply_end(c) <= u64::MAX,
        !st.outgoing.contains_key(op_key(c, k)),
        classify(escrowed(st, op_key(c, k), c.channel), c.class_id, c.tokens[k].id, c.channel)
            == Ok::<OpKind, ContractError>(c.kinds[k]),
    ensures
        c.kinds[k] == OpKind::Redeem,
        op_msg(c, contract, k).msg == transfer_msg_json(c.tokens[k].id, c.receiver),
        op_applies(escrowed(st, op_key(c, k), c.channel), c, k, ReplyOutcome::Succeeded),
        ledgers_after(
            escrowed(st, op_key(c, k), c.channel),
            c,
            (c.first_reply + 1 + k) as u64,
            ReplyOutcome::Succeeded,
        ) == (st.classes, st.outgoing, st.incoming),
{
    let key = op_key(c, k);
    assert(st.outgoing.insert(key, c.channel).remove(key) =~= st.outgoing);
}

/// A rollback leaves no token of the packet escrowed for its channel.
proof fn lemma_rollback_clears(m: Map<AssetKey, Seq<char>>, class_id: Seq<char>, ids: Seq<Seq<char>>, channel: Seq<char>)
    ensures
        forall|j: int|
            0 <= j < ids.len() ==> {
                let r = rollback(m, class_id, ids, channel).0;
                let key = (class_id, #[trigger] ids[j]);
                !(r.contains_key(key) && r[key] == channel)
            },
    decreases ids.len(),
{
    if ids.len() > 0 {
        let prev = ids.drop_last();
        lemma_rollback_clears(m, class_id, prev, channel);
        assert forall|j: int| 0 <= j < ids.len() implies {
            let r = rollback(m, class_id, ids, channel).0;
            let key = (class_id, #[trigger] ids[j]);
            !(r.contains_key(key) && r[key] == channel)
        } by {
            if j < ids.len() - 1 {
                assert(prev[j] == ids[j]);
            }
        }
    }
}

/// Rollback correctness: after a send that escrowed a token for a channel,
/// the rollback of that packet gives the token back and restores the ledger
/// as it was before the send; a second rollback of the same packet changes
/// nothing and gives nothing back.
pub proof fn law_rollback(st: Ics721StateView, class_id: Seq<char>, token_id: Seq<char>, channel: Seq<char>)
    requires
        !st.outgoing.contains_key((class_id, token_id)),
    ensures
        rollback(escrowed(st, (class_id, token_id), channel).outgoing, class_id, seq![token_id], channel)
            == (st.outgoing, seq![token_id]),
        rollback(st.outgoing, class_id, seq![token_id], channel) == (st.outgoing, Seq::<Seq<char>>::empty()),
{
    let key = (class_id, token_id);
    let m = st.outgoing.insert(key, channel);
    let e = Seq::<Seq<char>>::empty();
    assert(seq![token_id].drop_last() =~= e);
    assert(rollback(m, class_id, e, channel) == (m, e));
    assert(rollback(st.outgoing, class_id, e, channel) == (st.outgoing, e));
    assert(m.remove(key) =~= st.outgoing);
    assert(e.push(token_id) =~= seq![token_id]);
}

/// Rollback is idempotent: rolling back the same packet a second time
/// changes nothing and gives nothing back.
pub proof fn law_rollback_idempotent(
    m: Map<AssetKey, Seq<char>>,
    class_id: Seq<char>,
    ids: Seq<Seq<char>>,
    channel: Seq<char>,
)
    ensures
        rollback(rollback(m, class_id, ids, channel).0, class_id, ids, channel) == (
            rollback(m, class_id, ids, channel).0,
            Seq::<Seq<char>>::empty(),
        ),
{
    lemma_rollback_clears(m, class_id, ids, channel);
    lemma_rollback_nothing_held(rollback(m, class_id, ids, channel).0, class_id, ids, channel);
}

/// Burn/return asymmetry: when a voucher goes back over the channel it came
/// from (and is burned), no record of it is escrowed for that channel, so
/// the rollback of that send gives nothing back and mints nothing.
pub proof fn law_burn_not_restored(st: Ics721StateView, class_id: Seq<char>, token_id: Seq<char>, channel: Seq<char>)
    requires
        no_double_custody(st),
        is_return_trip(st.incoming, (class_id, token_id), channel),
    ensures
        rollback(st.outgoing, class_id, seq![token_id], channel) == (st.outgoing, Seq::<Seq<char>>::empty()),
{
    let key = (class_id, token_id);
    let e = Seq::<Seq<char>>::empty();
    assert(!(st.outgoing.contains_key(key) && st.outgoing[key] == channel));
    assert(seq![token_id].drop_last() =~= e);
    assert(rollback(st.outgoing, class_id, e, channel) == (st.outgoing, e));
}

/// Partial-batch atomicity: once any request of a packet has failed, or the
/// completing one fails, the packet keeps a failure, and its verdict, when
/// it comes, is a failure.
pub proof fn law_failure_is_final(st: Ics721StateView, c: ContextView, rid: u64, outcome: ReplyOutcome)
    requires
        ctx_wf(c),
        expects(c, rid),
        has_failed(c) || outcome is Failed,
    ensures
        after_reply(st, c, rid, outcome).failure is Some,
        ctx_done(after_reply(st, c, rid, outcome)) ==> ack_of(after_reply(st, c, rid, outcome)) is Failure,
{
}

/// Partial-batch atomicity: a packet's verdict is a success exactly when
/// its collection exists and every one of its requests took effect.
pub proof fn law_success_needs_all(st: Ics721StateView, c: ContextView, rid: u64, outcome: ReplyOutcome)
    requires
        ctx_wf(c),
        expects(c, rid),
        ctx_done(after_reply(st, c, rid, outcome)),
    ensures
        ({
            let c2 = after_reply(st, c, rid, outcome);
            ack_of(c2) == AckView::Success <==> (c2.create == OpStatus::Done && forall|k: int|
                0 <= k < c2.status.len() ==> #[trigger] c2.status[k] == OpStatus::Done)
        }),
{
    let c2 = after_reply(st, c, rid, outcome);
    if rid == c.first_reply {
        if c2.create == OpStatus::Done && c.status.len() > 0 {
            assert(c2.status[0] == OpStatus::Pending);
        }
    } else {
        let k = rid - c.first_reply - 1;
        assert(c.create != OpStatus::Pending);
        if c2.failure is None {
            assert(c.failure is None);
            assert(!has_failed(c));
            assert forall|j: int| 0 <= j < c2.status.len() implies #[trigger] c2.status[j] == OpStatus::Done by {
                if j != k {
                    assert(c.status[j] != OpStatus::Failed);
                    assert(c.status[j] != OpStatus::Waiting);
                    assert(c2.status[j] == c.status[j]);
                }
            }
        } else {
            if c.failure is Some {
                if c.create != OpStatus::Failed {
                    let j = choose|j: int| 0 <= j < c.status.len() && #[trigger] c.status[j] == OpStatus::Failed;
                    assert(c2.status[j] == OpStatus::Failed);
                }
            } else {
                assert(c2.status[k] == OpStatus::Failed);
            }
        }
    }
}

/// One verdict per packet: once a packet's context closes, no open context
/// waits for any of its correlation tokens, so no completion can produce a
/// second verdict for it.
pub proof fn law_one_verdict(v: CoordinatorView, i: int, rid: u64)
    requires
        coord_wf(v),
        0 <= i < v.contexts.len(),
        v.contexts[i].first_reply <= rid < reply_end(v.contexts[i]),
    ensures
        !reply_expected(CoordinatorView { contexts: v.contexts.remove(i), next_id: v.next_id }, rid),
{
    let w = CoordinatorView { contexts: v.contexts.remove(i), next_id: v.next_id };
    assert forall|j: int| 0 <= j < w.contexts.len() implies !expects(#[trigger] w.contexts[j], rid) by {
        let oj = if j < i { j } else { j + 1 };
        assert(w.contexts[j] == v.contexts[oj]);
        if oj < i {
            assert(reply_end(v.contexts[oj]) <= v.contexts[i].first_reply);
        } else {
            assert(reply_end(v.contexts[i]) <= v.contexts[oj].first_reply);
        }
    }
}

/// Pause enforcement: while paused, both a deposit-and-send and a packet
/// receive are refused as paused, before anything else is looked at (and
/// a refused call leaves the state unchanged).
pub proof fn law_pause(
    st: Ics721StateView,
    access: AccessState,
    caller: Seq<char>,
    nft_contract: Seq<char>,
    token_id: Seq<char>,
    receiver: Seq<char>,
    channel: Seq<char>,
    packet: NonFungibleTokenPacketData,
    receiver_valid: bool,
    packet_id: u64,
)
    requires
        access.paused,
    ensures
        send_error(st, access, caller, nft_contract, token_id, receiver, channel) == Some(
            ContractError::Paused,
        ),
        receive_error(st, access, caller, packet, receiver_valid, channel, packet_id) == Some(ContractError::Paused),
{
}

} // verus!
