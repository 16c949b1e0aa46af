use vstd::prelude::*;

use crate::access::{access_error, valid_address, AccessState};
use crate::batch::{
    all_data, all_uris, batch_ids, blocked, burn_views, distinct_ids, escrowed_after, returning,
    send_nfts, vouchers_after,
};
use crate::error::ContractError;
use crate::ledger::AssetKey;
use crate::msg::{burn_msg_json, SubMsg, SubMsgView};
use crate::packet::{IbcOutgoingMsg, NonFungibleTokenPacketData, Token};
use crate::registry::{address_bound, class_for};
use crate::state::{Ics721State, Ics721StateView};

verus! {

/// The correlation token of the burn that a return trip issues.
pub const BURN_SUB_MSG_REPLY_ID: u64 = 2;

/// Metadata of a token as its NFT contract reports it.
pub struct NftMetadata {
    pub uri: Option<String>,
    pub data: Option<Vec<u8>>,
}

/// What a deposit turns into: the packet to send over `channel_id` before
/// `timeout`, and the local requests to run first.
pub struct OutboundTransfer {
    pub packet: NonFungibleTokenPacketData,
    pub channel_id: String,
    pub timeout: u64,
    pub messages: Vec<SubMsg>,
}

/// The class id under which the tokens of `nft_contract` travel: the one it
/// is bound to, or else its own address.
pub open spec fn outgoing_class(classes: Map<Seq<char>, Seq<char>>, nft_contract: Seq<char>) -> Seq<char> {
    if address_bound(classes, nft_contract) {
        class_for(classes, nft_contract)
    } else {
        nft_contract
    }
}

/// Whether sending `key` over `channel` returns a voucher to the chain it
/// came from.
pub open spec fn is_return_trip(incoming: Map<AssetKey, Seq<char>>, key: AssetKey, channel: Seq<char>) -> bool {
    incoming.contains_key(key) && incoming[key] == channel
}

/// Why a deposit is refused, if it is; in the order the checks run. An
/// unregistered NFT contract is no refusal (it becomes its own class),
/// unless its address is already taken as another collection's class id.
pub open spec fn send_error(
    st: Ics721StateView,
    access: AccessState,
    caller: Seq<char>,
    nft_contract: Seq<char>,
    token_id: Seq<char>,
    receiver: Seq<char>,
    channel: Seq<char>,
) -> Option<ContractError> {
    let class_id = outgoing_class(st.classes, nft_contract);
    let key = (class_id, token_id);
    if access_error(access, caller) is Some {
        access_error(access, caller)
    } else if !valid_address(receiver) || !valid_address(channel) {
        Some(ContractError::InvalidAddress)
    } else if !address_bound(st.classes, nft_contract) && st.classes.contains_key(nft_contract) {
        Some(ContractError::ClassAlreadyBound)
    } else if is_return_trip(st.incoming, key, channel) {
        None
    } else if st.outgoing.contains_key(key) {
        Some(ContractError::AlreadyEscrowed)
    } else {
        None
    }
}

/// Deposit-and-send: `nft_contract` reports that `sender` handed it
/// `token_id` to send as `msg` says. A native asset is escrowed under the
/// channel; a voucher that returns over the channel it came from is burned.
/// The packet carries the metadata the NFT contract reports. An NFT
/// contract not yet in the registry is a collection native to this chain:
/// it is registered as its own class id, under its own address.
pub fn receive_nft(
    state: &mut Ics721State,
    access: &AccessState,
    caller: &String,
    nft_contract: String,
    token_id: String,
    sender: String,
    msg: IbcOutgoingMsg,
    nft: NftMetadata,
    class_data: Option<Vec<u8>>,
) -> (r: Result<OutboundTransfer, ContractError>)
    requires
        old(state).wf(),
    ensures
        final(state).wf(),
        r is Err ==> final(state)@ == old(state)@,
        ({
            let e = send_error(
                old(state)@,
                *access,
                caller@,
                nft_contract@,
                token_id@,
                msg.receiver@,
                msg.channel_id@,
            );
            &&& e is Some ==> r == Err::<OutboundTransfer, ContractError>(e->0)
            &&& e is None ==> r is Ok
        }),
        r matches Ok(t) ==> {
            let class_id = outgoing_class(old(state)@.classes, nft_contract@);
            let key = (class_id, token_id@);
            let channel = msg.channel_id@;
            &&& t.packet.class_id@ == class_id
            &&& !address_bound(old(state)@.classes, nft_contract@) ==> t.packet.class_id@ == nft_contract@
            &&& t.packet.class_uri is None
            &&& t.packet.class_data.deep_view() == class_data.deep_view()
            &&& t.packet.ids() == seq![token_id@]
            &&& t.packet.token_uris.deep_view() == match nft.uri {
                Some(u) => Some(seq![u@]),
                None => None::<Seq<Seq<char>>>,
            }
            &&& t.packet.token_data.deep_view() == match nft.data {
                Some(d) => Some(seq![d@]),
                None => None::<Seq<Seq<u8>>>,
            }
            &&& t.packet.sender@ == sender@
            &&& t.packet.receiver@ == msg.receiver@
            &&& t.packet.memo.deep_view() == msg.memo.deep_view()
            &&& t.channel_id@ == channel
            &&& t.timeout == msg.timeout
            &&& final(state)@.replies == old(state)@.replies
            &&& final(state)@.classes == if address_bound(old(state)@.classes, nft_contract@) {
                old(state)@.classes
            } else {
                old(state)@.classes.insert(nft_contract@, nft_contract@)
            }
            &&& if is_return_trip(old(state)@.incoming, key, channel) {
                &&& final(state)@.incoming == old(state)@.incoming.remove(key)
                &&& final(state)@.outgoing == old(state)@.outgoing
                &&& t.messages@.map_values(|m: SubMsg| m@) == seq![
                    SubMsgView {
                        contract_addr: old(state)@.classes[class_id],
                        msg: burn_msg_json(token_id@),
                        reply_id: BURN_SUB_MSG_REPLY_ID,
                    },
                ]
            } else {
                &&& final(state)@.outgoing == old(state)@.outgoing.insert(key, channel)
                &&& final(state)@.incoming == old(state)@.incoming
                &&& t.messages@.len() == 0
            }
        },
{
    let ghost st0 = state@;
    let ghost class_id = outgoing_class(st0.classes, nft_contract@);
    let ghost key = (class_id, token_id@);
    let ghost channel = msg.channel_id@;
    let tokens = vec![Token { id: token_id, uri: nft.uri, data: nft.data }];
    let ghost ids = batch_ids(tokens@);
    proof {
        assert(ids =~= seq![key.1]);
        assert(distinct_ids(ids));
        assert((exists|i: int| 0 <= i < ids.len() && blocked(st0, class_id, #[trigger] ids[i], channel))
            <== blocked(st0, class_id, ids[0], channel));
        let e = Seq::<Seq<char>>::empty();
        assert(ids.drop_last() =~= e);
        assert(returning(st0.incoming, class_id, e, channel) == e);
        assert(returning(st0.incoming, class_id, ids, channel) =~= if is_return_trip(st0.incoming, key, channel) {
            seq![key.1]
        } else {
            e
        });
        assert forall|x: Seq<char>| ids.contains(x) <==> x == key.1 by {
            if x == key.1 {
                assert(ids[0] == x);
            }
        }
        if is_return_trip(st0.incoming, key, channel) {
            assert(escrowed_after(st0, class_id, ids, channel) =~= st0.outgoing);
            assert(vouchers_after(st0, class_id, ids, channel) =~= st0.incoming.remove(key));
        } else {
            assert(escrowed_after(st0, class_id, ids, channel) =~= st0.outgoing.insert(key, channel));
            assert(vouchers_after(st0, class_id, ids, channel) =~= st0.incoming);
        }
        assert(all_uris(tokens@) == (nft.uri is Some));
        assert(all_data(tokens@) == (nft.data is Some));
    }
    let r = send_nfts(state, access, caller, nft_contract, tokens, sender, msg, class_data);
    proof {
        if r is Ok {
            let t = r->Ok_0;
            if nft.uri is Some {
                assert(Seq::new(1, |i: int| tokens@[i].uri->0@) =~= seq![nft.uri->0@]);
            }
            if nft.data is Some {
                assert(Seq::new(1, |i: int| tokens@[i].data->0@) =~= seq![nft.data->0@]);
            }
            if is_return_trip(st0.incoming, key, channel) {
                assert(burn_views(st0.classes[class_id], seq![key.1]) =~= seq![
                    SubMsgView {
                        contract_addr: st0.classes[class_id],
                        msg: burn_msg_json(token_id@),
                        reply_id: BURN_SUB_MSG_REPLY_ID,
                    },
                ]);
            } else {
                assert(burn_views(st0.classes[class_id], Seq::<Seq<char>>::empty()).len() == 0);
                assert(t.messages@.map_values(|m: SubMsg| m@).len() == t.messages@.len());
            }
        }
    }
    r
}

} // verus!
