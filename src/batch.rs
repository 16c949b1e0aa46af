use vstd::prelude::*;

use crate::access::{access_error, check_access, check_address, valid_address, AccessState};
use crate::error::ContractError;
use crate::ledger::AssetKey;
use crate::msg::{burn, burn_msg_json, SubMsg, SubMsgView};
use crate::outbound::{is_return_trip, outgoing_class, OutboundTransfer, BURN_SUB_MSG_REPLY_ID};
use crate::packet::{copy_bytes, IbcOutgoingMsg, NonFungibleTokenPacketData, Token};
use crate::registry::address_bound;
use crate::state::{Ics721State, Ics721StateView};

verus! {

/// The ids of a batch of tokens.
pub open spec fn batch_ids(tokens: Seq<Token>) -> Seq<Seq<char>> {
    tokens.map_values(|t: Token| t.id@)
}

/// No id occurs twice.
pub open spec fn distinct_ids(ids: Seq<Seq<char>>) -> bool {
    forall|i: int, j: int| 0 <= i < ids.len() && 0 <= j < ids.len() && i != j ==> ids[i] != ids[j]
}

/// Whether sending token `t` of `class_id` over `channel` escrows it, and
/// finds it escrowed already.
pub open spec fn blocked(st: Ics721StateView, class_id: Seq<char>, t: Seq<char>, channel: Seq<char>) -> bool {
    !is_return_trip(st.incoming, (class_id, t), channel) && st.outgoing.contains_key((class_id, t))
}

/// Why a batch deposit is refused, if it is; in the order the checks run.
pub open spec fn batch_error(
    st: Ics721StateView,
    access: AccessState,
    caller: Seq<char>,
    nft_contract: Seq<char>,
    ids: Seq<Seq<char>>,
    receiver: Seq<char>,
    channel: Seq<char>,
) -> Option<ContractError> {
    let class_id = outgoing_class(st.classes, nft_contract);
    if access_error(access, caller) is Some {
        access_error(access, caller)
    } else if !valid_address(receiver) || !valid_address(channel) {
        Some(ContractError::InvalidAddress)
    } else if ids.len() == 0 {
        Some(ContractError::EmptyTokenIds)
    } else if !distinct_ids(ids) {
        Some(ContractError::DuplicateTokenIds)
    } else if !address_bound(st.classes, nft_contract) && st.classes.contains_key(nft_contract) {
        Some(ContractError::ClassAlreadyBound)
    } else if exists|i: int| 0 <= i < ids.len() && blocked(st, class_id, #[trigger] ids[i], channel) {
        Some(ContractError::AlreadyEscrowed)
    } else {
        None
    }
}

/// The tokens of a batch that return over `channel`, in order.
pub open spec fn returning(
    incoming: Map<AssetKey, Seq<char>>,
    class_id: Seq<char>,
    ids: Seq<Seq<char>>,
    channel: Seq<char>,
) -> Seq<Seq<char>>
    decreases ids.len(),
{
    if ids.len() == 0 {
        seq![]
    } else {
        let prev = returning(incoming, class_id, ids.drop_last(), channel);
        if is_return_trip(incoming, (class_id, ids.last()), channel) {
            prev.push(ids.last())
        } else {
            prev
        }
    }
}

/// Whether `key` is an asset of the batch that the send escrows.
pub open spec fn escrows(
    incoming: Map<AssetKey, Seq<char>>,
    class_id: Seq<char>,
    ids: Seq<Seq<char>>,
    channel: Seq<char>,
    key: AssetKey,
) -> bool {
    key.0 == class_id && ids.contains(key.1) && !is_return_trip(incoming, key, channel)
}

/// Whether `key` is an asset of the batch that the send burns.
pub open spec fn burns(
    incoming: Map<AssetKey, Seq<char>>,
    class_id: Seq<char>,
    ids: Seq<Seq<char>>,
    channel: Seq<char>,
    key: AssetKey,
) -> bool {
    key.0 == class_id && ids.contains(key.1) && is_return_trip(incoming, key, channel)
}

/// The escrow ledger after the batch: each native asset of it is held for `channel`.
pub open spec fn escrowed_after(
    st: Ics721StateView,
    class_id: Seq<char>,
    ids: Seq<Seq<char>>,
    channel: Seq<char>,
) -> Map<AssetKey, Seq<char>> {
    Map::new(
        |k: AssetKey| st.outgoing.contains_key(k) || escrows(st.incoming, class_id, ids, channel, k),
        |k: AssetKey|
            if escrows(st.incoming, class_id, ids, channel, k) {
                channel
            } else {
                st.outgoing[k]
            },
    )
}

/// The voucher ledger after the batch: each returning voucher of it is gone.
pub open spec fn vouchers_after(
    st: Ics721StateView,
    class_id: Seq<char>,
    ids: Seq<Seq<char>>,
    channel: Seq<char>,
) -> Map<AssetKey, Seq<char>> {
    Map::new(
        |k: AssetKey| st.incoming.contains_key(k) && !burns(st.incoming, class_id, ids, channel, k),
        |k: AssetKey| st.incoming[k],
    )
}

/// Whether every token of the batch has a uri.
pub open spec fn all_uris(tokens: Seq<Token>) -> bool {
    forall|i: int| 0 <= i < tokens.len() ==> (#[trigger] tokens[i]).uri is Some
}

/// Whether every token of the batch has data.
pub open spec fn all_data(tokens: Seq<Token>) -> bool {
    forall|i: int| 0 <= i < tokens.len() ==> (#[trigger] tokens[i]).data is Some
}

/// The burn request of each returning token.
pub open spec fn burn_views(contract: Seq<char>, burned: Seq<Seq<char>>) -> Seq<SubMsgView> {
    burned.map_values(
        |t: Seq<char>|
            SubMsgView { contract_addr: contract, msg: burn_msg_json(t), reply_id: BURN_SUB_MSG_REPLY_ID },
    )
}

/// Deposit-and-send of a batch of tokens of the collection at
/// `nft_contract`, as `msg` says, all or nothing: each native asset is
/// escrowed under the channel, each voucher that returns over the channel
/// it came from is burned, and one packet carries them all in order. The
/// packet lists the uris (or data) when every token has one. An NFT
/// contract not yet in the registry is a collection native to this chain:
/// it is registered as its own class id, under its own address.
pub fn send_nfts(
    state: &mut Ics721State,
    access: &AccessState,
    caller: &String,
    nft_contract: String,
    tokens: Vec<Token>,
    sender: String,
    msg: IbcOutgoingMsg,
    class_data: Option<Vec<u8>>,
) -> (r: Result<OutboundTransfer, ContractError>)
    requires
        old(state).wf(),
    ensures
        final(state).wf(),
        r is Err ==> final(state)@ == old(state)@,
        ({
            let ids = batch_ids(tokens@);
            let class_id = outgoing_class(old(state)@.classes, nft_contract@);
            let e = batch_error(old(state)@, *access, caller@, nft_contract@, ids, msg.receiver@, msg.channel_id@);
            &&& e is Some ==> r == Err::<OutboundTransfer, ContractError>(e->0)
            &&& e is None ==> r is Ok
        }),
        r matches Ok(t) ==> {
            let ids = batch_ids(tokens@);
            let class_id = outgoing_class(old(state)@.classes, nft_contract@);
            let channel = msg.channel_id@;
            let n = tokens@.len();
            &&& t.packet.class_id@ == class_id
            &&& !address_bound(old(state)@.classes, nft_contract@) ==> t.packet.class_id@ == nft_contract@
            &&& t.packet.class_uri is None
            &&& t.packet.class_data.deep_view() == class_data.deep_view()
            &&& t.packet.ids() == ids
            &&& t.packet.token_uris.deep_view() == if all_uris(tokens@) {
                Some(Seq::new(n, |i: int| tokens@[i].uri->0@))
            } else {
                None
            }
            &&& t.packet.token_data.deep_view() == if all_data(tokens@) {
                Some(Seq::new(n, |i: int| tokens@[i].data->0@))
            } else {
                None
            }
            &&& t.packet.sender@ == sender@
            &&& t.packet.receiver@ == msg.receiver@
            &&& t.packet.memo.deep_view() == msg.memo.deep_view()
            &&& t.channel_id@ == channel
            &&& t.timeout == msg.timeout
            &&& final(state)@.classes == if address_bound(old(state)@.classes, nft_contract@) {
                old(state)@.classes
            } else {
                old(state)@.classes.insert(nft_contract@, nft_contract@)
            }
            &&& final(state)@.outgoing == escrowed_after(old(state)@, class_id, ids, channel)
            &&& final(state)@.incoming == vouchers_after(old(state)@, class_id, ids, channel)
            &&& final(state)@.replies == old(state)@.replies
            &&& t.messages@.map_values(|m: SubMsg| m@) == burn_views(
                old(state)@.classes[class_id],
                returning(old(state)@.incoming, class_id, ids, channel),
            )
        },
{
    let ghost st0 = state@;
    let ghost ids = batch_ids(tokens@);
    check_access(access, caller)?;
    if !check_address(&msg.receiver) || !check_address(&msg.channel_id) {
        return Err(ContractError::InvalidAddress);
    }
    let n = tokens.len();
    if n == 0 {
        return Err(ContractError::EmptyTokenIds);
    }
    let mut i: usize = 0;
    while i < n
        invariant
            state.wf(),
            state@ == st0,
            access_error(*access, caller@) is None,
            valid_address(msg.receiver@),
            valid_address(msg.channel_id@),
            n == tokens@.len(),
            ids == batch_ids(tokens@),
            i <= n,
            forall|a: int, b: int| 0 <= a < i && 0 <= b < i && a != b ==> ids[a] != ids[b],
        decreases n - i,
    {
        let mut j: usize = 0;
        while j < i
            invariant
                state.wf(),
                state@ == st0,
                access_error(*access, caller@) is None,
                valid_address(msg.receiver@),
                valid_address(msg.channel_id@),
                n == tokens@.len(),
                ids == batch_ids(tokens@),
                j <= i < n,
                forall|b: int| 0 <= b < j ==> ids[b] != ids[i as int],
            decreases i - j,
        {
            if tokens[i].id == tokens[j].id {
                proof {
                    assert(ids[i as int] == ids[j as int]);
                }
                return Err(ContractError::DuplicateTokenIds);
            }
            j = j + 1;
        }
        i = i + 1;
    }
    let known = state.classes.class_of(&nft_contract);
    let is_new = known.is_none();
    let class_id = match known {
        Some(c) => c,
        None => {
            if state.classes.has_class(&nft_contract) {
                return Err(ContractError::ClassAlreadyBound);
            }
            nft_contract.clone()
        },
    };
    let ghost channel = msg.channel_id@;
    let ghost cid = class_id@;
    let mut back: Vec<bool> = Vec::new();
    let mut i: usize = 0;
    while i < n
        invariant
            state.wf(),
            state@ == st0,
            access_error(*access, caller@) is None,
            valid_address(msg.receiver@),
            valid_address(msg.channel_id@),
            n > 0,
            distinct_ids(ids),
            !(!address_bound(st0.classes, nft_contract@) && st0.classes.contains_key(nft_contract@)),
            n == tokens@.len(),
            ids == batch_ids(tokens@),
            cid == class_id@,
            channel == msg.channel_id@,
            cid == outgoing_class(st0.classes, nft_contract@),
            i <= n,
            back@.len() == i,
            forall|j: int| 0 <= j < i ==> back@[j] == is_return_trip(st0.incoming, (cid, ids[j]), channel),
            forall|j: int| 0 <= j < i ==> !blocked(st0, cid, #[trigger] ids[j], channel),
        decreases n - i,
    {
        let t = &tokens[i];
        let ret = match state.incoming.channel_of(&class_id, &t.id) {
            Some(c) => c == msg.channel_id,
            None => false,
        };
        if !ret && state.outgoing.contains(&class_id, &t.id) {
            proof {
                assert(blocked(st0, cid, ids[i as int], channel));
            }
            return Err(ContractError::AlreadyEscrowed);
        }
        back.push(ret);
        i = i + 1;
    }
    let mut messages: Vec<SubMsg> = Vec::new();
    let mut i: usize = 0;
    while i < n
        invariant
            state.wf(),
            state@ == st0,
            access_error(*access, caller@) is None,
            valid_address(msg.receiver@),
            valid_address(msg.channel_id@),
            n > 0,
            distinct_ids(ids),
            !(!address_bound(st0.classes, nft_contract@) && st0.classes.contains_key(nft_contract@)),
            cid == outgoing_class(st0.classes, nft_contract@),
            forall|j: int| 0 <= j < n ==> !blocked(st0, cid, #[trigger] ids[j], channel),
            n == tokens@.len(),
            ids == batch_ids(tokens@),
            cid == class_id@,
            channel == msg.channel_id@,
            i <= n,
            back@.len() == n,
            forall|j: int| 0 <= j < n ==> back@[j] == is_return_trip(st0.incoming, (cid, ids[j]), channel),
            messages@.map_values(|m: SubMsg| m@) == burn_views(
                st0.classes[cid],
                returning(st0.incoming, cid, ids.take(i as int), channel),
            ),
        decreases n - i,
    {
        let t = &tokens[i];
        proof {
            assert(ids.take(i + 1).drop_last() =~= ids.take(i as int));
            assert(ids.take(i + 1).last() == t.id@);
        }
        if back[i] {
            proof {
                assert(st0.incoming.contains_key((cid, t.id@)));
            }
            let m = burn(&state.classes, &class_id, t.id.clone(), BURN_SUB_MSG_REPLY_ID)?;
            let ghost before = messages@.map_values(|m: SubMsg| m@);
            messages.push(m);
            proof {
                assert(messages@.map_values(|m: SubMsg| m@) =~= before.push(m@));
            }
        }
        i = i + 1;
    }
    proof {
        assert(ids.take(n as int) =~= ids);
    }
    if is_new {
        let bound = state.classes.bind(nft_contract.clone(), nft_contract.clone());
        if bound.is_err() {
            // unreachable: neither the class id nor the address is bound
            return Err(ContractError::ClassAlreadyBound);
        }
    }
    let ghost st1 = state@;
    proof {
        assert(ids.take(0) =~= Seq::<Seq<char>>::empty());
        assert(escrowed_after(st0, cid, ids.take(0), channel) =~= st0.outgoing);
        assert(vouchers_after(st0, cid, ids.take(0), channel) =~= st0.incoming);
    }
    let mut i: usize = 0;
    while i < n
        invariant
            state.wf(),
            n == tokens@.len(),
            ids == batch_ids(tokens@),
            cid == class_id@,
            channel == msg.channel_id@,
            i <= n,
            back@.len() == n,
            forall|j: int| 0 <= j < n ==> back@[j] == is_return_trip(st0.incoming, (cid, ids[j]), channel),
            forall|j: int| 0 <= j < n ==> !blocked(st0, cid, #[trigger] ids[j], channel),
            forall|a: int, b: int| 0 <= a < n && 0 <= b < n && a != b ==> ids[a] != ids[b],
            state@.classes == st1.classes,
            st1.classes.contains_key(cid),
            state@.replies == st0.replies,
            state@.outgoing == escrowed_after(st0, cid, ids.take(i as int), channel),
            state@.incoming == vouchers_after(st0, cid, ids.take(i as int), channel),
        decreases n - i,
    {
        let t = &tokens[i];
        let ghost key = (cid, t.id@);
        let ghost pre = ids.take(i as int);
        let ghost post = ids.take(i + 1);
        let ghost before = state@;
        proof {
            assert(t.id@ == ids[i as int]);
            assert(!pre.contains(ids[i as int])) by {
                if pre.contains(ids[i as int]) {
                    let j = choose|j: int| 0 <= j < pre.len() && pre[j] == ids[i as int];
                    assert(ids[j] == ids[i as int]);
                }
            }
            assert forall|x: Seq<char>| post.contains(x) <==> (pre.contains(x) || x == ids[i as int]) by {
                if post.contains(x) {
                    let j = choose|j: int| 0 <= j < post.len() && post[j] == x;
                    if j < i {
                        assert(pre[j] == x);
                    }
                }
                if pre.contains(x) {
                    let j = choose|j: int| 0 <= j < pre.len() && pre[j] == x;
                    assert(post[j] == x);
                }
                if x == ids[i as int] {
                    assert(post[i as int] == x);
                }
            }
        }
        if back[i] {
            let released = state.incoming.release(&class_id, &t.id, &msg.channel_id);
            if released.is_err() {
                // unreachable: the voucher is still recorded for the channel
                return Err(ContractError::NotEscrowed);
            }
            proof {
                assert(state@.incoming =~= vouchers_after(st0, cid, post, channel));
                assert(escrowed_after(st0, cid, post, channel) =~= escrowed_after(st0, cid, pre, channel));
            }
        } else {
            let recorded = state.outgoing.record(class_id.clone(), t.id.clone(), msg.channel_id.clone());
            if recorded.is_err() {
                // unreachable: the asset has no record yet
                return Err(ContractError::AlreadyEscrowed);
            }
            proof {
                assert(state@.outgoing =~= escrowed_after(st0, cid, post, channel));
                assert(vouchers_after(st0, cid, post, channel) =~= vouchers_after(st0, cid, pre, channel));
            }
        }
        proof {
            assert forall|k: AssetKey| #[trigger] state@.outgoing.contains_key(k) implies state@.classes.contains_key(k.0) by {
                if k != key {
                    assert(before.outgoing.contains_key(k));
                }
            }
            assert forall|k: AssetKey| #[trigger] state@.incoming.contains_key(k) implies state@.classes.contains_key(k.0) by {
                assert(before.incoming.contains_key(k));
            }
            assert forall|k: AssetKey| #[trigger] state@.outgoing.contains_key(k) && state@.incoming.contains_key(k)
                implies state@.outgoing[k] != state@.incoming[k] by {
                assert(before.incoming.contains_key(k));
                if k != key {
                    assert(before.outgoing.contains_key(k));
                } else {
                    assert(st0.incoming.contains_key(k));
                }
            }
        }
        i = i + 1;
    }
    proof {
        assert(ids.take(n as int) =~= ids);
    }
    let mut token_ids: Vec<String> = Vec::new();
    let mut uris: Vec<String> = Vec::new();
    let mut datas: Vec<Vec<u8>> = Vec::new();
    let mut have_uris = true;
    let mut have_data = true;
    let mut i: usize = 0;
    while i < n
        invariant
            n == tokens@.len(),
            ids == batch_ids(tokens@),
            i <= n,
            token_ids@.len() == i,
            forall|j: int| 0 <= j < i ==> #[trigger] token_ids@[j]@ == ids[j],
            have_uris == forall|j: int| 0 <= j < i ==> (#[trigger] tokens@[j]).uri is Some,
            have_uris ==> uris@.len() == i && forall|j: int| 0 <= j < i ==> #[trigger] uris@[j]@ == tokens@[j].uri->0@,
            have_data == forall|j: int| 0 <= j < i ==> (#[trigger] tokens@[j]).data is Some,
            have_data ==> datas@.len() == i && forall|j: int| 0 <= j < i ==> #[trigger] datas@[j]@ == tokens@[j].data->0@,
        decreases n - i,
    {
        let t = &tokens[i];
        token_ids.push(t.id.clone());
        match &t.uri {
            Some(u) => {
                if have_uris {
                    uris.push(u.clone());
                }
            },
            None => {
                have_uris = false;
            },
        }
        match &t.data {
            Some(d) => {
                if have_data {
                    datas.push(copy_bytes(d));
                }
            },
            None => {
                have_data = false;
            },
        }
        i = i + 1;
    }
    let token_uris = if have_uris {
        Some(uris)
    } else {
        None
    };
    let token_data = if have_data {
        Some(datas)
    } else {
        None
    };
    let packet = NonFungibleTokenPacketData {
        class_id,
        class_uri: None,
        class_data,
        token_ids,
        token_uris,
        token_data,
        sender,
        receiver: msg.receiver,
        memo: msg.memo,
    };
    proof {
        assert(packet.ids() =~= ids);
        if have_uris {
            assert(packet.token_uris->0.deep_view() =~= Seq::new(n as nat, |i: int| tokens@[i].uri->0@));
        }
        if have_data {
            let dv = packet.token_data->0;
            assert forall|j: int| 0 <= j < n implies dv.deep_view()[j] == tokens@[j].data->0@ by {
                assert(dv@[j].deep_view() =~= dv@[j]@);
            }
            assert(dv.deep_view() =~= Seq::new(n as nat, |i: int| tokens@[i].data->0@));
        }
    }
    Ok(OutboundTransfer { packet, channel_id: msg.channel_id, timeout: msg.timeout, messages })
}

} // verus!
