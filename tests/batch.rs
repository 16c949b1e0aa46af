use ics721::access::AccessState;
use ics721::batch::send_nfts;
use ics721::error::ContractError;
use ics721::outbound::OutboundTransfer;
use ics721::packet::{IbcOutgoingMsg, Token};
use ics721::reply::{on_reply, ReplyOutcome};
use ics721::inbound::receive_packet;
use ics721::packet::NonFungibleTokenPacketData;
use ics721::state::{Ics721State, FIRST_REPLY_ID};

fn s(x: &str) -> String {
    x.to_string()
}

fn token(id: &str, uri: Option<&str>, data: Option<Vec<u8>>) -> Token {
    Token { id: s(id), uri: uri.map(s), data }
}

fn send_batch(state: &mut Ics721State, contract: &str, tokens: Vec<Token>) -> Result<OutboundTransfer, ContractError> {
    send_nfts(
        state,
        &AccessState { paused: false, proxy: None },
        &s(contract),
        s(contract),
        tokens,
        s("ekez"),
        IbcOutgoingMsg { receiver: s("callum"), channel_id: s("channel-1"), timeout: 5, memo: Some(s("memo")) },
        None,
    )
}

#[test]
fn batch_escrows_every_native_token() {
    let mut state = Ics721State::new();
    let out = send_batch(
        &mut state,
        "nft1",
        vec![token("1", Some("u1"), Some(vec![1])), token("2", Some("u2"), Some(vec![2]))],
    )
    .unwrap();
    assert_eq!(out.packet.token_ids, vec![s("1"), s("2")]);
    assert_eq!(out.packet.token_uris, Some(vec![s("u1"), s("u2")]));
    assert_eq!(out.packet.token_data, Some(vec![vec![1], vec![2]]));
    assert_eq!(out.packet.memo, Some(s("memo")));
    assert_eq!(out.messages.len(), 0);
    assert_eq!(state.outgoing.channel_of(&s("nft1"), &s("1")), Some(s("channel-1")));
    assert_eq!(state.outgoing.channel_of(&s("nft1"), &s("2")), Some(s("channel-1")));
}

#[test]
fn batch_lists_uris_only_when_all_have_one() {
    let mut state = Ics721State::new();
    let out = send_batch(&mut state, "nft1", vec![token("1", Some("u1"), None), token("2", None, Some(vec![9]))]).unwrap();
    assert_eq!(out.packet.token_uris, None);
    assert_eq!(out.packet.token_data, None);
}

#[test]
fn batch_refusals_change_nothing() {
    let mut state = Ics721State::new();
    assert!(matches!(send_batch(&mut state, "nft1", vec![]), Err(ContractError::EmptyTokenIds)));
    assert!(matches!(
        send_batch(&mut state, "nft1", vec![token("1", None, None), token("1", None, None)]),
        Err(ContractError::DuplicateTokenIds)
    ));
    send_batch(&mut state, "nft1", vec![token("2", None, None)]).unwrap();
    // the second token is escrowed already: the first is not escrowed either
    assert!(matches!(
        send_batch(&mut state, "nft1", vec![token("1", None, None), token("2", None, None)]),
        Err(ContractError::AlreadyEscrowed)
    ));
    assert!(!state.outgoing.contains(&s("nft1"), &s("1")));
    assert!(state.outgoing.contains(&s("nft1"), &s("2")));
}

#[test]
fn batch_mixes_burns_and_escrows() {
    let mut state = Ics721State::new();
    // vouchers "a" and "b" of class "remote" arrive over channel-1
    let p = NonFungibleTokenPacketData {
        class_id: s("remote"),
        class_uri: None,
        class_data: None,
        token_ids: vec![s("a"), s("b")],
        token_uris: None,
        token_data: None,
        sender: s("far"),
        receiver: s("ekez"),
        memo: None,
    };
    receive_packet(&mut state, &AccessState { paused: false, proxy: None }, &s("relayer"), p, true, s("channel-1"), 1).unwrap();
    on_reply(&mut state, FIRST_REPLY_ID, ReplyOutcome::Created(s("vouchers"))).unwrap();
    on_reply(&mut state, FIRST_REPLY_ID + 1, ReplyOutcome::Succeeded).unwrap();
    on_reply(&mut state, FIRST_REPLY_ID + 2, ReplyOutcome::Succeeded).unwrap();
    // "b" goes back, and "c" (minted here by other means) goes out for the first time
    let out = send_batch(&mut state, "vouchers", vec![token("b", None, None), token("c", None, None)]).unwrap();
    assert_eq!(out.packet.class_id, "remote");
    assert_eq!(out.messages.len(), 1);
    assert_eq!(out.messages[0].contract_addr, "vouchers");
    assert!(!state.incoming.contains(&s("remote"), &s("b")));
    assert!(state.incoming.contains(&s("remote"), &s("a")));
    assert_eq!(state.outgoing.channel_of(&s("remote"), &s("c")), Some(s("channel-1")));
    assert!(!state.outgoing.contains(&s("remote"), &s("b")));
}
