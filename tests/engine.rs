use cosmwasm_std::{from_json, Empty};
use cw721::msg::Cw721ExecuteMsg;
use cw721::{DefaultOptionalCollectionExtensionMsg, DefaultOptionalNftExtensionMsg};
use ics721::access::{check_access, check_address, AccessState};
use ics721::coordinator::{FailureReason, OpKind};
use ics721::error::ContractError;
use ics721::inbound::{receive_packet, ReceiveStart};
use ics721::ledger::EscrowLedger;
use ics721::msg::{burn, get_class, has_class, transfer, SubMsg};
use ics721::outbound::{receive_nft, NftMetadata, OutboundTransfer, BURN_SUB_MSG_REPLY_ID};
use ics721::packet::{IbcOutgoingMsg, NonFungibleTokenPacketData};
use ics721::registry::ClassRegistry;
use ics721::reply::{on_reply, AckOutcome, ReplyOutcome};
use ics721::resolver::{handle_packet_ack, handle_packet_fail, Ics721Ack, TRANSFER_SUB_MSG_REPLY_ID};
use ics721::state::{Ics721State, FIRST_REPLY_ID};

type ExecuteMsg =
    Cw721ExecuteMsg<DefaultOptionalNftExtensionMsg, DefaultOptionalCollectionExtensionMsg, Empty>;

fn s(x: &str) -> String {
    x.to_string()
}

fn open_access() -> AccessState {
    AccessState { paused: false, proxy: None }
}

fn send_from(state: &mut Ics721State, access: &AccessState, contract: &str, token: &str, channel: &str) -> Result<OutboundTransfer, ContractError> {
    receive_nft(
        state,
        access,
        &s(contract),
        s(contract),
        s(token),
        s("ekez"),
        IbcOutgoingMsg { receiver: s("callum"), channel_id: s(channel), timeout: 42, memo: None },
        NftMetadata { uri: None, data: None },
        None,
    )
}

fn packet(class_id: &str, tokens: &[&str], receiver: &str) -> NonFungibleTokenPacketData {
    NonFungibleTokenPacketData {
        class_id: s(class_id),
        class_uri: None,
        class_data: None,
        token_ids: tokens.iter().map(|t| s(t)).collect(),
        token_uris: None,
        token_data: None,
        sender: s("remote-sender"),
        receiver: s(receiver),
        memo: None,
    }
}

fn receive(state: &mut Ics721State, p: NonFungibleTokenPacketData, channel: &str, packet_id: u64) -> Result<ReceiveStart, ContractError> {
    let valid = !p.receiver.contains(' ');
    receive_packet(state, &open_access(), &s("relayer"), p, valid, s(channel), packet_id)
}

fn decode(m: &SubMsg) -> ExecuteMsg {
    from_json(&m.msg).unwrap()
}

fn assert_transfer(m: &SubMsg, contract: &str, token: &str, recipient_expected: &str) {
    assert_eq!(m.contract_addr, contract);
    match decode(m) {
        ExecuteMsg::TransferNft { recipient, token_id } => {
            assert_eq!(recipient, recipient_expected);
            assert_eq!(token_id, token);
        }
        _ => panic!("unexpected message type"),
    }
}

#[test]
fn send_then_error_ack_restores_owner() {
    let mut state = Ics721State::new();
    let out = send_from(&mut state, &open_access(), "nft1", "1", "channel-1").unwrap();
    assert_eq!(out.packet.class_id, "nft1");
    assert_eq!(out.packet.token_ids, vec![s("1")]);
    assert_eq!(state.outgoing.channel_of(&s("nft1"), &s("1")), Some(s("channel-1")));

    let msgs = handle_packet_ack(&mut state, &out.packet, &s("channel-1"), &Ics721Ack::Error(s("rejected")));
    assert_eq!(msgs.len(), 1);
    assert_eq!(msgs[0].reply_id, TRANSFER_SUB_MSG_REPLY_ID);
    assert_transfer(&msgs[0], "nft1", "1", "ekez");
    assert!(!state.outgoing.contains(&s("nft1"), &s("1")));

    // a duplicate error acknowledgement does nothing
    let again = handle_packet_ack(&mut state, &out.packet, &s("channel-1"), &Ics721Ack::Error(s("rejected")));
    assert_eq!(again.len(), 0);
    assert!(!state.outgoing.contains(&s("nft1"), &s("1")));
}

#[test]
fn timeout_rolls_back_and_success_ack_keeps_escrow() {
    let mut state = Ics721State::new();
    let out = send_from(&mut state, &open_access(), "nft1", "7", "channel-1").unwrap();
    let kept = handle_packet_ack(&mut state, &out.packet, &s("channel-1"), &Ics721Ack::Success);
    assert_eq!(kept.len(), 0);
    assert!(state.outgoing.contains(&s("nft1"), &s("7")));
    // a rollback for another channel gives nothing back
    let other = handle_packet_fail(&mut state, &out.packet, &s("channel-2"));
    assert_eq!(other.len(), 0);
    let back = handle_packet_fail(&mut state, &out.packet, &s("channel-1"));
    assert_eq!(back.len(), 1);
    assert_transfer(&back[0], "nft1", "7", "ekez");
    assert!(!state.outgoing.contains(&s("nft1"), &s("7")));
}

#[test]
fn round_trip_gives_back_and_clears_record() {
    let mut state = Ics721State::new();
    send_from(&mut state, &open_access(), "nft1", "1", "channel-1").unwrap();
    let start = receive(&mut state, packet("nft1", &["1"], "ekez"), "channel-1", 1).unwrap();
    assert!(start.create.is_none());
    assert_eq!(start.messages.len(), 1);
    assert_eq!(start.messages[0].reply_id, FIRST_REPLY_ID + 1);
    assert_transfer(&start.messages[0], "nft1", "1", "ekez");
    // the record stays until the transfer completes
    assert!(state.outgoing.contains(&s("nft1"), &s("1")));
    let done = on_reply(&mut state, FIRST_REPLY_ID + 1, ReplyOutcome::Succeeded).unwrap();
    assert!(matches!(done.ack, Some(AckOutcome::Success)));
    assert!(!state.outgoing.contains(&s("nft1"), &s("1")));
    assert_eq!(state.replies.contexts.len(), 0);
}

#[test]
fn voucher_returned_is_burned_and_not_reminted() {
    let mut state = Ics721State::new();
    // a voucher arrives for a collection unknown here
    let start = receive(&mut state, packet("remote", &["1"], "ekez"), "channel-1", 9).unwrap();
    assert_eq!(start.messages.len(), 0);
    let create = start.create.unwrap();
    assert_eq!(create.class_id, "remote");
    assert_eq!(create.reply_id, FIRST_REPLY_ID);
    let created = on_reply(&mut state, FIRST_REPLY_ID, ReplyOutcome::Created(s("voucher-contract"))).unwrap();
    assert!(created.ack.is_none());
    assert_eq!(created.messages.len(), 1);
    assert_eq!(created.messages[0].contract_addr, "voucher-contract");
    match decode(&created.messages[0]) {
        ExecuteMsg::Mint { token_id, owner, .. } => {
            assert_eq!(token_id, "1");
            assert_eq!(owner, "ekez");
        }
        _ => panic!("unexpected message type"),
    }
    let minted = on_reply(&mut state, FIRST_REPLY_ID + 1, ReplyOutcome::Succeeded).unwrap();
    assert!(matches!(minted.ack, Some(AckOutcome::Success)));
    assert_eq!(state.incoming.channel_of(&s("remote"), &s("1")), Some(s("channel-1")));

    // sending it back over its origin channel burns it
    let out = send_from(&mut state, &open_access(), "voucher-contract", "1", "channel-1").unwrap();
    assert_eq!(out.packet.class_id, "remote");
    assert_eq!(out.messages.len(), 1);
    assert_eq!(out.messages[0].reply_id, BURN_SUB_MSG_REPLY_ID);
    assert_eq!(out.messages[0].contract_addr, "voucher-contract");
    match decode(&out.messages[0]) {
        ExecuteMsg::Burn { token_id } => assert_eq!(token_id, "1"),
        _ => panic!("unexpected message type"),
    }
    assert!(!state.incoming.contains(&s("remote"), &s("1")));
    assert!(!state.outgoing.contains(&s("remote"), &s("1")));

    // its failure is not undone here: nothing is given back or minted
    let msgs = handle_packet_ack(&mut state, &out.packet, &s("channel-1"), &Ics721Ack::Error(s("no")));
    assert_eq!(msgs.len(), 0);
    assert!(!state.incoming.contains(&s("remote"), &s("1")));
    assert!(!state.outgoing.contains(&s("remote"), &s("1")));
}

#[test]
fn second_mint_failing_fails_the_packet() {
    let mut state = Ics721State::new();
    state.classes.bind(s("coll"), s("coll-contract")).unwrap();
    let start = receive(&mut state, packet("coll", &["a", "b", "c"], "ekez"), "channel-1", 3).unwrap();
    assert_eq!(start.messages.len(), 3);
    let first = FIRST_REPLY_ID + 1;
    for (k, m) in start.messages.iter().enumerate() {
        assert_eq!(m.reply_id, first + k as u64);
        assert_eq!(m.contract_addr, "coll-contract");
    }
    let r1 = on_reply(&mut state, first, ReplyOutcome::Succeeded).unwrap();
    assert!(r1.ack.is_none());
    let r2 = on_reply(&mut state, first + 1, ReplyOutcome::Failed(s("mint failed"))).unwrap();
    assert!(r2.ack.is_none());
    let r3 = on_reply(&mut state, first + 2, ReplyOutcome::Succeeded).unwrap();
    match r3.ack {
        Some(AckOutcome::Failure(FailureReason::Collaborator(reason))) => assert_eq!(reason, "mint failed"),
        _ => panic!("expected one failure acknowledgement"),
    }
    // the mints that succeeded stay; the failed one left no record
    assert!(state.incoming.contains(&s("coll"), &s("a")));
    assert!(!state.incoming.contains(&s("coll"), &s("b")));
    assert!(state.incoming.contains(&s("coll"), &s("c")));
    // no second verdict for the packet
    assert!(matches!(on_reply(&mut state, first, ReplyOutcome::Succeeded), Err(ContractError::UnknownReply)));
    assert!(matches!(on_reply(&mut state, first + 2, ReplyOutcome::Succeeded), Err(ContractError::UnknownReply)));
}

#[test]
fn failed_creation_fails_the_packet_at_once() {
    let mut state = Ics721State::new();
    let start = receive(&mut state, packet("fresh", &["1", "2"], "ekez"), "channel-4", 5).unwrap();
    assert!(start.create.is_some());
    let r = on_reply(&mut state, FIRST_REPLY_ID, ReplyOutcome::Failed(s("no code"))).unwrap();
    assert_eq!(r.messages.len(), 0);
    match r.ack {
        Some(AckOutcome::Failure(FailureReason::Collaborator(reason))) => assert_eq!(reason, "no code"),
        _ => panic!("expected a failure acknowledgement"),
    }
    assert!(!has_class(&state.classes, &s("fresh")));
    assert_eq!(state.replies.contexts.len(), 0);
}

#[test]
fn creation_without_address_fails() {
    let mut state = Ics721State::new();
    receive(&mut state, packet("fresh", &["1"], "ekez"), "channel-4", 5).unwrap();
    let r = on_reply(&mut state, FIRST_REPLY_ID, ReplyOutcome::Succeeded).unwrap();
    match r.ack {
        Some(AckOutcome::Failure(FailureReason::Ledger(e))) => assert_eq!(e, ContractError::UnrecognisedClassId),
        _ => panic!("expected a failure acknowledgement"),
    }
}

#[test]
fn paused_refuses_send_and_receive() {
    let mut state = Ics721State::new();
    let paused = AccessState { paused: true, proxy: None };
    assert!(matches!(send_from(&mut state, &paused, "nft1", "1", "channel-1"), Err(ContractError::Paused)));
    assert!(!state.outgoing.contains(&s("nft1"), &s("1")));
    assert!(!has_class(&state.classes, &s("nft1")));
    let r = receive_packet(&mut state, &paused, &s("relayer"), packet("nft1", &["1"], "ekez"), true, s("channel-1"), 1);
    assert!(matches!(r, Err(ContractError::Paused)));
    assert_eq!(state.replies.contexts.len(), 0);
    assert_eq!(state.replies.next_id, FIRST_REPLY_ID);
}

#[test]
fn proxy_only_admits_the_proxy() {
    let access = AccessState { paused: false, proxy: Some(s("proxy")) };
    assert_eq!(check_access(&access, &s("someone")), Err(ContractError::Unauthorized));
    assert_eq!(check_access(&access, &s("proxy")), Ok(()));
    let mut state = Ics721State::new();
    assert!(matches!(send_from(&mut state, &access, "nft1", "1", "channel-1"), Err(ContractError::Unauthorized)));
    let both = AccessState { paused: true, proxy: Some(s("proxy")) };
    assert_eq!(check_access(&both, &s("someone")), Err(ContractError::Paused));
}

#[test]
fn malformed_packets_are_refused() {
    let mut state = Ics721State::new();
    let empty = packet("nft1", &[], "ekez");
    assert!(matches!(receive(&mut state, empty, "channel-1", 1), Err(ContractError::EmptyTokenIds)));
    let mut uris = packet("nft1", &["1", "2"], "ekez");
    uris.token_uris = Some(vec![s("u1")]);
    assert!(matches!(receive(&mut state, uris, "channel-1", 1), Err(ContractError::TokenInfoLenMismatch)));
    let mut data = packet("nft1", &["1"], "ekez");
    data.token_data = Some(vec![vec![1], vec![2]]);
    assert!(matches!(receive(&mut state, data, "channel-1", 1), Err(ContractError::TokenInfoLenMismatch)));
    let bad_receiver = packet("nft1", &["1"], "two words");
    assert!(matches!(receive(&mut state, bad_receiver, "channel-1", 1), Err(ContractError::InvalidAddress)));
    assert_eq!(state.replies.contexts.len(), 0);
}

#[test]
fn addresses_need_a_shape() {
    assert!(check_address(&s("callum")));
    assert!(!check_address(&s("")));
    assert!(!check_address(&s("a b")));
    assert!(!check_address(&s("tab\there")));
    let mut state = Ics721State::new();
    assert!(matches!(send_from(&mut state, &open_access(), "nft1", "1", ""), Err(ContractError::InvalidAddress)));
}

#[test]
fn receive_refuses_custody_conflicts() {
    let mut state = Ics721State::new();
    send_from(&mut state, &open_access(), "nft1", "1", "channel-1").unwrap();
    // the native asset is escrowed for channel-1, not channel-2
    assert!(matches!(receive(&mut state, packet("nft1", &["1"], "ekez"), "channel-2", 1), Err(ContractError::ChannelMismatch)));
    // a second packet under an open packet id
    state.classes.bind(s("coll"), s("coll-contract")).unwrap();
    receive(&mut state, packet("coll", &["x"], "ekez"), "channel-1", 2).unwrap();
    assert!(matches!(receive(&mut state, packet("coll", &["y"], "ekez"), "channel-1", 2), Err(ContractError::PacketInProgress)));
    // a voucher that already exists here
    on_reply(&mut state, FIRST_REPLY_ID + 1, ReplyOutcome::Succeeded).unwrap();
    assert!(matches!(receive(&mut state, packet("coll", &["x"], "ekez"), "channel-1", 3), Err(ContractError::AlreadyEscrowed)));
}

#[test]
fn correlation_tokens_run_out() {
    let mut state = Ics721State::new();
    state.replies.next_id = u64::MAX - 1;
    assert!(matches!(receive(&mut state, packet("nft1", &["1"], "ekez"), "channel-1", 1), Err(ContractError::ReplyIdsExhausted)));
}

#[test]
fn mixed_batch_mints_and_redeems() {
    let mut state = Ics721State::new();
    send_from(&mut state, &open_access(), "nft1", "1", "channel-1").unwrap();
    let start = receive(&mut state, packet("nft1", &["1", "2"], "ekez"), "channel-1", 8).unwrap();
    let ctx = &state.replies.contexts[0];
    assert_eq!(ctx.kinds, vec![OpKind::Redeem, OpKind::Mint]);
    assert_transfer(&start.messages[0], "nft1", "1", "ekez");
    match decode(&start.messages[1]) {
        ExecuteMsg::Mint { token_id, .. } => assert_eq!(token_id, "2"),
        _ => panic!("unexpected message type"),
    }
    on_reply(&mut state, FIRST_REPLY_ID + 2, ReplyOutcome::Succeeded).unwrap();
    let last = on_reply(&mut state, FIRST_REPLY_ID + 1, ReplyOutcome::Succeeded).unwrap();
    assert!(matches!(last.ack, Some(AckOutcome::Success)));
    assert!(!state.outgoing.contains(&s("nft1"), &s("1")));
    assert_eq!(state.incoming.channel_of(&s("nft1"), &s("2")), Some(s("channel-1")));
}

#[test]
fn sending_twice_is_refused() {
    let mut state = Ics721State::new();
    send_from(&mut state, &open_access(), "nft1", "1", "channel-1").unwrap();
    assert!(matches!(send_from(&mut state, &open_access(), "nft1", "1", "channel-1"), Err(ContractError::AlreadyEscrowed)));
    // a contract whose address is taken as another collection's class id
    let mut other = Ics721State::new();
    other.classes.bind(s("nft9"), s("elsewhere")).unwrap();
    assert!(matches!(send_from(&mut other, &open_access(), "nft9", "1", "channel-1"), Err(ContractError::ClassAlreadyBound)));
}

#[test]
fn ledger_records_and_releases() {
    let mut l = EscrowLedger::new();
    assert_eq!(l.record(s("c"), s("t"), s("ch")), Ok(()));
    assert_eq!(l.record(s("c"), s("t"), s("ch2")), Err(ContractError::AlreadyEscrowed));
    assert_eq!(l.channel_of(&s("c"), &s("t")), Some(s("ch")));
    assert_eq!(l.release(&s("c"), &s("t"), &s("other")), Err(ContractError::ChannelMismatch));
    assert_eq!(l.release(&s("c"), &s("u"), &s("ch")), Err(ContractError::NotEscrowed));
    assert_eq!(l.release(&s("c"), &s("t"), &s("ch")), Ok(()));
    assert!(!l.contains(&s("c"), &s("t")));
}

#[test]
fn registry_binds_once() {
    let mut r = ClassRegistry::new();
    assert_eq!(r.bind(s("class"), s("addr")), Ok(()));
    assert_eq!(r.bind(s("class"), s("addr2")), Err(ContractError::ClassAlreadyBound));
    assert_eq!(r.bind(s("class2"), s("addr")), Err(ContractError::ClassAlreadyBound));
    assert_eq!(r.class_of(&s("addr")), Some(s("class")));
    assert_eq!(r.class_of(&s("nothing")), None);
    assert_eq!(get_class(&r, &s("class")), Ok(s("addr")));
    assert_eq!(get_class(&r, &s("none")), Err(ContractError::UnrecognisedClassId));
}

#[test]
fn helpers_encode_cw721_messages() {
    let mut r = ClassRegistry::new();
    r.bind(s("class"), s("addr")).unwrap();
    let t = transfer(&r, &s("class"), s("5"), s("bob"), true, 1).unwrap();
    assert_transfer(&t, "addr", "5", "bob");
    assert!(matches!(transfer(&r, &s("class"), s("5"), s("not an address"), false, 1), Err(ContractError::InvalidAddress)));
    assert!(matches!(transfer(&r, &s("none"), s("5"), s("bob"), true, 1), Err(ContractError::UnrecognisedClassId)));
    let b = burn(&r, &s("class"), s("5"), 2).unwrap();
    assert_eq!(b.reply_id, 2);
    match decode(&b) {
        ExecuteMsg::Burn { token_id } => assert_eq!(token_id, "5"),
        _ => panic!("unexpected message type"),
    }
    assert!(matches!(burn(&r, &s("nope"), s("5"), 2), Err(ContractError::UnrecognisedClassId)));
}
