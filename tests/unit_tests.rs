use cosmwasm_std::{from_json, to_json_vec, Empty};
use cw721::msg::{Cw721ExecuteMsg, NftExtensionMsg};
use cw721::{DefaultOptionalCollectionExtensionMsg, DefaultOptionalNftExtensionMsg, NftExtension};
use ics721::access::AccessState;
use ics721::msg::mint;
use ics721::outbound::{receive_nft, NftMetadata, OutboundTransfer};
use ics721::packet::IbcOutgoingMsg;
use ics721::registry::ClassRegistry;
use ics721::state::Ics721State;

type ExecuteMsg =
    Cw721ExecuteMsg<DefaultOptionalNftExtensionMsg, DefaultOptionalCollectionExtensionMsg, Empty>;

const NFT_CONTRACT_1: &str = "nft1";

fn nft_extension() -> NftExtension {
    NftExtension {
        image: Some("https://ark.pass/image.png".to_string()),
        external_url: Some("https://interchain.arkprotocol.io".to_string()),
        description: Some("description".to_string()),
        ..Default::default()
    }
}

fn unknown_metadata() -> Vec<u8> {
    br#"{"unknown":"unknown"}"#.to_vec()
}

fn class_data() -> Vec<u8> {
    br#"{"name":"name","symbol":"symbol","num_tokens":1}"#.to_vec()
}

fn open_access() -> AccessState {
    AccessState { paused: false, proxy: None }
}

fn outgoing_msg(receiver: &str, timeout: u64) -> IbcOutgoingMsg {
    IbcOutgoingMsg {
        receiver: receiver.to_string(),
        channel_id: "channel-1".to_string(),
        timeout,
        memo: None,
    }
}

fn send(state: &mut Ics721State, token_id: &str, data: Option<Vec<u8>>) -> OutboundTransfer {
    receive_nft(
        state,
        &open_access(),
        &NFT_CONTRACT_1.to_string(),
        NFT_CONTRACT_1.to_string(),
        token_id.to_string(),
        "ekez".to_string(),
        outgoing_msg("callum", 42_000_000_000),
        NftMetadata { uri: Some("https://moonphase.is/image.svg".to_string()), data },
        Some(class_data()),
    )
    .unwrap()
}

fn check_sent(state: &Ics721State, out: &OutboundTransfer, token_data: Option<Vec<Vec<u8>>>) {
    let token_id = "1";
    assert_eq!(out.messages.len(), 0);
    assert_eq!(out.channel_id, "channel-1");
    assert_eq!(out.timeout, 42_000_000_000);
    let packet = &out.packet;
    assert_eq!(packet.class_id, NFT_CONTRACT_1);
    assert_eq!(packet.class_uri, None);
    assert_eq!(packet.class_data, Some(class_data()));
    assert_eq!(packet.token_ids, vec![token_id.to_string()]);
    assert_eq!(packet.token_data, token_data);
    assert_eq!(packet.token_uris, Some(vec!["https://moonphase.is/image.svg".to_string()]));
    assert_eq!(packet.sender, "ekez");
    assert_eq!(packet.receiver, "callum");
    assert_eq!(packet.memo, None);
    // check outgoing class id and token id, and the channel
    assert!(state.outgoing.contains(&NFT_CONTRACT_1.to_string(), &token_id.to_string()));
    assert_eq!(
        state.outgoing.channel_of(&NFT_CONTRACT_1.to_string(), &token_id.to_string()),
        Some("channel-1".to_string())
    );
}

#[test]
fn test_receive_nft() {
    // test case: receive nft whose contract reports an on-chain extension
    {
        let mut state = Ics721State::new();
        let data = to_json_vec(&nft_extension()).unwrap();
        let out = send(&mut state, "1", Some(data.clone()));
        check_sent(&state, &out, Some(vec![data]));
    }
    // test case: receive nft with metadata kept from an earlier receive
    {
        let mut state = Ics721State::new();
        let out = send(&mut state, "1", Some(unknown_metadata()));
        check_sent(&state, &out, Some(vec![unknown_metadata()]));
    }
    // test case: receive nft from a contract that reports no extension
    {
        let mut state = Ics721State::new();
        let out = send(&mut state, "1", None);
        check_sent(&state, &out, None);
    }
}

fn mint_of(classes: &ClassRegistry, data: Vec<u8>) -> ExecuteMsg {
    let sub_msg = mint(
        classes,
        &NFT_CONTRACT_1.to_string(),
        "1".to_string(),
        None,
        Some(data),
        "receiver".to_string(),
        0,
    )
    .unwrap();
    assert_eq!(sub_msg.contract_addr, NFT_CONTRACT_1);
    from_json(&sub_msg.msg).unwrap()
}

#[test]
fn test_callback_mint() {
    let mut classes = ClassRegistry::new();
    classes.bind(NFT_CONTRACT_1.to_string(), NFT_CONTRACT_1.to_string()).unwrap();
    // test case: token data is NftExtension
    match mint_of(&classes, to_json_vec(&nft_extension()).unwrap()) {
        ExecuteMsg::Mint { token_id, token_uri, owner, extension } => {
            assert_eq!(token_id, "1");
            assert_eq!(token_uri, None);
            assert_eq!(owner, "receiver");
            assert_eq!(
                extension,
                Some(NftExtensionMsg {
                    image: Some("https://ark.pass/image.png".to_string()),
                    external_url: Some("https://interchain.arkprotocol.io".to_string()),
                    description: Some("description".to_string()),
                    ..Default::default()
                })
            );
        }
        _ => panic!("unexpected message type"),
    }
    // test case: token data is unknown
    match mint_of(&classes, unknown_metadata()) {
        ExecuteMsg::Mint { token_id, token_uri, owner, extension } => {
            assert_eq!(token_id, "1");
            assert_eq!(token_uri, None);
            assert_eq!(owner, "receiver");
            assert_eq!(extension, None);
        }
        _ => panic!("unexpected message type"),
    }
}

#[test]
fn mint_without_json_data_has_no_extension() {
    let mut classes = ClassRegistry::new();
    classes.bind(NFT_CONTRACT_1.to_string(), NFT_CONTRACT_1.to_string()).unwrap();
    match mint_of(&classes, b"not json".to_vec()) {
        ExecuteMsg::Mint { token_id, extension, .. } => {
            assert_eq!(token_id, "1");
            assert_eq!(extension, None);
        }
        _ => panic!("unexpected message type"),
    }
}

#[test]
fn test_receive_sets_uri() {
    let mut state = Ics721State::new();
    let out = receive_nft(
        &mut state,
        &open_access(),
        &NFT_CONTRACT_1.to_string(),
        NFT_CONTRACT_1.to_string(),
        "1".to_string(),
        "ekez".to_string(),
        outgoing_msg("ekez", 42),
        NftMetadata { uri: None, data: None },
        Some(class_data()),
    )
    .unwrap();
    assert_eq!(out.packet.class_uri, None);
    assert_eq!(out.packet.class_data, Some(class_data()));
    assert_eq!(
        state.classes.address_of(&NFT_CONTRACT_1.to_string()),
        Some(NFT_CONTRACT_1.to_string())
    );
}
