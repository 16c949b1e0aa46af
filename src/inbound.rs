use vstd::prelude::*;

use crate::access::{access_error, check_access, AccessState};
use crate::coordinator::{
    issue_ops, op_msg, packet_open, reply_end, ContextView, OpKind, OpStatus, ReplyContext,
};
use crate::error::ContractError;
use crate::msg::SubMsg;
use crate::packet::{copy_bytes, NonFungibleTokenPacketData, Token, TokenView};
use crate::state::{Ics721State, Ics721StateView};

verus! {

/// The request to create the collection for `class_id` here, whose
/// completion carries the new NFT contract's address under `reply_id`.
pub struct CreateCollection {
    pub class_id: String,
    pub class_uri: Option<String>,
    pub class_data: Option<Vec<u8>>,
    pub reply_id: u64,
}

/// What an accepted packet issues first: a collection creation, or the
/// requests for its tokens.
pub struct ReceiveStart {
    pub create: Option<CreateCollection>,
    pub messages: Vec<SubMsg>,
}

/// What token `t` of `class_id` arriving over `channel` calls for: the
/// release of a native asset escrowed for that channel, or a fresh voucher.
pub open spec fn classify(st: Ics721StateView, class_id: Seq<char>, t: Seq<char>, channel: Seq<char>) -> Result<
    OpKind,
    ContractError,
> {
    let key = (class_id, t);
    if st.outgoing.contains_key(key) {
        if st.outgoing[key] == channel {
            Ok(OpKind::Redeem)
        } else {
            Err(ContractError::ChannelMismatch)
        }
    } else if st.incoming.contains_key(key) {
        Err(ContractError::AlreadyEscrowed)
    } else {
        Ok(OpKind::Mint)
    }
}

/// The classification of each token in order, or the first refusal.
pub open spec fn classify_all(
    st: Ics721StateView,
    class_id: Seq<char>,
    ids: Seq<Seq<char>>,
    channel: Seq<char>,
) -> Result<Seq<OpKind>, ContractError>
    decreases ids.len(),
{
    if ids.len() == 0 {
        Ok(seq![])
    } else {
        match classify_all(st, class_id, ids.drop_last(), channel) {
            Err(e) => Err(e),
            Ok(kinds) => match classify(st, class_id, ids.last(), channel) {
                Err(e) => Err(e),
                Ok(k) => Ok(kinds.push(k)),
            },
        }
    }
}

/// A classification that succeeds gives one kind per token.
pub proof fn lemma_classify_len(st: Ics721StateView, class_id: Seq<char>, ids: Seq<Seq<char>>, channel: Seq<char>)
    ensures
        classify_all(st, class_id, ids, channel) matches Ok(kinds) ==> kinds.len() == ids.len(),
    decreases ids.len(),
{
    if ids.len() > 0 {
        lemma_classify_len(st, class_id, ids.drop_last(), channel);
    }
}

/// A refusal on a prefix is the refusal of the whole.
pub proof fn lemma_classify_prefix_err(
    st: Ics721StateView,
    class_id: Seq<char>,
    ids: Seq<Seq<char>>,
    channel: Seq<char>,
    k: int,
)
    requires
        0 <= k <= ids.len(),
        classify_all(st, class_id, ids.take(k), channel) is Err,
    ensures
        classify_all(st, class_id, ids, channel) == classify_all(st, class_id, ids.take(k), channel),
    decreases ids.len() - k,
{
    if k < ids.len() {
        assert(ids.take(k + 1).drop_last() =~= ids.take(k));
        lemma_classify_prefix_err(st, class_id, ids, channel, k + 1);
    } else {
        assert(ids.take(k) =~= ids);
    }
}

/// Token `k` of the packet with its metadata.
pub open spec fn packet_token(p: NonFungibleTokenPacketData, k: int) -> TokenView {
    TokenView {
        id: p.token_ids@[k]@,
        uri: match p.token_uris {
            Some(u) => Some(u@[k]@),
            None => None,
        },
        data: match p.token_data {
            Some(d) => Some(d@[k]@),
            None => None,
        },
    }
}

/// Why a packet is refused, if it is; in the order the checks run.
pub open spec fn receive_error(
    st: Ics721StateView,
    access: AccessState,
    caller: Seq<char>,
    p: NonFungibleTokenPacketData,
    receiver_valid: bool,
    channel: Seq<char>,
    packet_id: u64,
) -> Option<ContractError> {
    if access_error(access, caller) is Some {
        access_error(access, caller)
    } else if p.shape_error() is Some {
        p.shape_error()
    } else if !receiver_valid {
        Some(ContractError::InvalidAddress)
    } else if packet_open(st.replies, packet_id) {
        Some(ContractError::PacketInProgress)
    } else if classify_all(st, p.class_id@, p.ids(), channel) is Err {
        Some(classify_all(st, p.class_id@, p.ids(), channel)->Err_0)
    } else if st.replies.next_id + 1 + p.token_ids@.len() > u64::MAX {
        Some(ContractError::ReplyIdsExhausted)
    } else {
        None
    }
}

/// The context that an accepted packet opens.
pub open spec fn opened_context(
    st: Ics721StateView,
    p: NonFungibleTokenPacketData,
    channel: Seq<char>,
    packet_id: u64,
) -> ContextView {
    let n = p.token_ids@.len();
    let create = !st.classes.contains_key(p.class_id@);
    ContextView {
        packet_id,
        class_id: p.class_id@,
        channel,
        receiver: p.receiver@,
        first_reply: st.replies.next_id,
        create: if create {
            OpStatus::Pending
        } else {
            OpStatus::Done
        },
        tokens: Seq::new(n, |k: int| packet_token(p, k)),
        kinds: classify_all(st, p.class_id@, p.ids(), channel)->Ok_0,
        status: Seq::new(
            n,
            |k: int|
                if create {
                    OpStatus::Waiting
                } else {
                    OpStatus::Pending
                },
        ),
        failure: None,
    }
}

/// Packet receive over the local `channel`: each token is either the
/// return of a native asset escrowed here for that channel (it is given back
/// to the receiver) or a new voucher (it is minted for the receiver). The
/// ledgers change only as the requests complete (see `on_reply`); a packet
/// for an unknown collection first creates it. `receiver_valid` is the
/// host's verdict on whether the packet's receiver is an address here.
pub fn receive_packet(
    state: &mut Ics721State,
    access: &AccessState,
    caller: &String,
    packet: NonFungibleTokenPacketData,
    receiver_valid: bool,
    channel: String,
    packet_id: u64,
) -> (r: Result<ReceiveStart, ContractError>)
    requires
        old(state).wf(),
    ensures
        final(state).wf(),
        r is Err ==> final(state)@ == old(state)@,
        ({
            let e = receive_error(old(state)@, *access, caller@, packet, receiver_valid, channel@, packet_id);
            &&& e is Some ==> r == Err::<ReceiveStart, ContractError>(e->0)
            &&& e is None ==> r is Ok
        }),
        r matches Ok(start) ==> {
            let c = opened_context(old(state)@, packet, channel@, packet_id);
            &&& final(state)@.classes == old(state)@.classes
            &&& final(state)@.outgoing == old(state)@.outgoing
            &&& final(state)@.incoming == old(state)@.incoming
            &&& final(state)@.replies.contexts == old(state)@.replies.contexts.push(c)
            &&& final(state)@.replies.next_id == reply_end(c)
            &&& if old(state)@.classes.contains_key(packet.class_id@) {
                &&& start.create is None
                &&& start.messages@.len() == packet.token_ids@.len()
                &&& forall|k: int|
                    0 <= k < start.messages@.len() ==> #[trigger] start.messages@[k]@ == op_msg(
                        c,
                        old(state)@.classes[packet.class_id@],
                        k,
                    )
            } else {
                &&& start.messages@.len() == 0
                &&& start.create matches Some(cc) && cc.class_id@ == packet.class_id@
                    && cc.class_uri.deep_view() == packet.class_uri.deep_view()
                    && cc.class_data.deep_view() == packet.class_data.deep_view()
                    && cc.reply_id == c.first_reply
            }
        },
{
    let ghost st0 = state@;
    check_access(access, caller)?;
    packet.validate()?;
    if !receiver_valid {
        return Err(ContractError::InvalidAddress);
    }
    if state.replies.is_open(packet_id) {
        return Err(ContractError::PacketInProgress);
    }
    let n = packet.token_ids.len();
    let ghost ids = packet.ids();
    let mut kinds: Vec<OpKind> = Vec::new();
    let mut k: usize = 0;
    while k < n
        invariant
            state.wf(),
            state@ == st0,
            access_error(*access, caller@) is None,
            packet.shape_error() is None,
            receiver_valid,
            !packet_open(st0.replies, packet_id),
            n == packet.token_ids@.len(),
            ids == packet.ids(),
            k <= n,
            classify_all(st0, packet.class_id@, ids.take(k as int), channel@) == Ok::<
                Seq<OpKind>,
                ContractError,
            >(kinds@),
        decreases n - k,
    {
        let t = &packet.token_ids[k];
        proof {
            assert(ids.take(k + 1).drop_last() =~= ids.take(k as int));
            assert(ids.take(k + 1).last() == t@);
        }
        let kind = match state.outgoing.channel_of(&packet.class_id, t) {
            Some(c) => {
                if c == channel {
                    OpKind::Redeem
                } else {
                    proof {
                        lemma_classify_prefix_err(st0, packet.class_id@, ids, channel@, k + 1);
                    }
                    return Err(ContractError::ChannelMismatch);
                }
            },
            None => {
                if state.incoming.contains(&packet.class_id, t) {
                    proof {
                        lemma_classify_prefix_err(st0, packet.class_id@, ids, channel@, k + 1);
                    }
                    return Err(ContractError::AlreadyEscrowed);
                }
                OpKind::Mint
            },
        };
        kinds.push(kind);
        k = k + 1;
    }
    proof {
        assert(ids.take(n as int) =~= ids);
        lemma_classify_len(st0, packet.class_id@, ids, channel@);
    }
    if n as u64 >= u64::MAX - state.replies.next_id {
        return Err(ContractError::ReplyIdsExhausted);
    }
    let first_reply = state.replies.next_id;
    let contract = state.classes.address_of(&packet.class_id);
    let create = contract.is_none();
    let mut tokens: Vec<Token> = Vec::new();
    let mut status: Vec<OpStatus> = Vec::new();
    let mut k: usize = 0;
    while k < n
        invariant
            n == packet.token_ids@.len(),
            packet.shape_error() is None,
            k <= n,
            tokens@.len() == k,
            status@.len() == k,
            forall|j: int| 0 <= j < k ==> #[trigger] tokens@[j]@ == packet_token(packet, j),
            forall|j: int|
                0 <= j < k ==> #[trigger] status@[j] == if create {
                    OpStatus::Waiting
                } else {
                    OpStatus::Pending
                },
        decreases n - k,
    {
        let uri = match &packet.token_uris {
            Some(u) => Some(u[k].clone()),
            None => None,
        };
        let data = match &packet.token_data {
            Some(d) => Some(copy_bytes(&d[k])),
            None => None,
        };
        let t = Token { id: packet.token_ids[k].clone(), uri, data };
        proof {
            assert(t@.uri == packet_token(packet, k as int).uri);
            assert(t@.data == packet_token(packet, k as int).data);
        }
        tokens.push(t);
        status.push(
            if create {
                OpStatus::Waiting
            } else {
                OpStatus::Pending
            },
        );
        k = k + 1;
    }
    let ctx = ReplyContext {
        packet_id,
        class_id: packet.class_id,
        channel,
        receiver: packet.receiver,
        first_reply,
        create: if create {
            OpStatus::Pending
        } else {
            OpStatus::Done
        },
        tokens,
        kinds,
        status,
        failure: None,
    };
    let ghost cv = opened_context(st0, packet, ctx.channel@, packet_id);
    proof {
        assert(ctx@.tokens =~= cv.tokens);
        assert(ctx@.status =~= cv.status);
        assert(ctx@ == cv);
    }
    let messages = match contract {
        Some(addr) => issue_ops(&ctx, &addr),
        None => Vec::new(),
    };
    let create_request = if create {
        Some(CreateCollection {
            class_id: ctx.class_id.clone(),
            class_uri: packet.class_uri,
            class_data: packet.class_data,
            reply_id: first_reply,
        })
    } else {
        None
    };
    proof {
        if create {
            assert(ctx@.create == OpStatus::Pending);
        } else {
            assert(ctx@.status[0] == OpStatus::Pending);
        }
        assert(!crate::coordinator::ctx_done(ctx@));
        assert(!crate::coordinator::has_failed(ctx@));
    }
    state.replies.push_context(ctx);
    Ok(ReceiveStart { create: create_request, messages })
}

} // verus!
