use ics721::contract::{
    CollectionData, CollectionExtension, ContractInfoResponse, Ics721Contract,
    Ics721ContractNoClassData, RoyaltyInfo, RoyaltyInfoResponse, SgCollectionInfo,
    SgIcs721Contract,
};

const ONE: u128 = 1_000_000_000_000_000_000;

fn s(x: &str) -> String {
    x.to_string()
}

fn bridge_info(admin: Option<&str>) -> ContractInfoResponse {
    ContractInfoResponse {
        code_id: 0,
        creator: s("creator"),
        admin: admin.map(s),
        pinned: false,
        ibc_port: None,
    }
}

fn collection(extension: Option<CollectionExtension>) -> CollectionData {
    CollectionData {
        owner: Some(s("owner")),
        contract_info: Some(bridge_info(None)),
        name: s("name"),
        symbol: s("symbol"),
        extension,
        num_tokens: Some(1),
    }
}

fn extension() -> CollectionExtension {
    CollectionExtension {
        description: s("description"),
        image: s("https://ark.pass/image.png"),
        external_link: Some(s("https://interchain.arkprotocol.io")),
        explicit_content: Some(false),
        start_trading_time: Some(42_000_000_000),
        royalty_info: Some(RoyaltyInfo { payment_address: s("payment_address"), share: ONE }),
    }
}

fn sg() -> SgIcs721Contract {
    SgIcs721Contract { placeholder_image: s("ipfs://placeholder") }
}

#[test]
fn flavours_choose_class_data() {
    let with = Ics721Contract::default().get_class_data(collection(None)).unwrap();
    assert_eq!(with.name, "name");
    assert_eq!(with.num_tokens, Some(1));
    assert!(Ics721ContractNoClassData::default().get_class_data(collection(None)).is_none());
}

#[test]
fn stargaze_class_data_takes_collection_info() {
    let info = SgCollectionInfo {
        creator: s("sg-creator"),
        description: s("description"),
        image: s("https://ark.pass/image.png"),
        external_link: None,
        explicit_content: Some(true),
        start_trading_time: Some(7),
        royalty_info: Some(RoyaltyInfoResponse { payment_address: s("payment_address"), share: ONE / 10 }),
    };
    let data = sg().get_class_data(collection(None), info).unwrap();
    assert_eq!(data.owner, Some(s("owner")));
    assert_eq!(data.name, "name");
    assert_eq!(data.symbol, "symbol");
    assert_eq!(data.num_tokens, Some(1));
    let ext = data.extension.unwrap();
    assert_eq!(ext.description, "description");
    assert_eq!(ext.image, "https://ark.pass/image.png");
    assert_eq!(ext.external_link, None);
    assert_eq!(ext.explicit_content, Some(true));
    assert_eq!(ext.start_trading_time, Some(7));
    let royalty = ext.royalty_info.unwrap();
    assert_eq!(royalty.payment_address, "payment_address");
    assert_eq!(royalty.share, ONE / 10);
}

#[test]
fn stargaze_init_msg_without_class_data() {
    let msg = sg().init_msg(&bridge_info(None), s("bridge"), s("some/class/id1"), None, None);
    assert_eq!(msg.name, "some/class/id1");
    assert_eq!(msg.symbol, "some/class/id1");
    assert_eq!(msg.minter, "bridge");
    assert_eq!(msg.collection_info.creator, "creator");
    assert_eq!(msg.collection_info.description, "");
    assert_eq!(msg.collection_info.image, "ipfs://placeholder");
    assert!(msg.collection_info.royalty_info.is_none());
    // the bridge's admin comes before its creator
    let msg = sg().init_msg(&bridge_info(Some("admin")), s("bridge"), s("c"), None, None);
    assert_eq!(msg.collection_info.creator, "admin");
    // a configured collection admin comes first
    let msg = sg().init_msg(&bridge_info(Some("admin")), s("bridge"), s("c"), None, Some(s("cw721_admin")));
    assert_eq!(msg.collection_info.creator, "cw721_admin");
}

#[test]
fn stargaze_init_msg_with_class_data() {
    let msg = sg().init_msg(&bridge_info(None), s("bridge"), s("c"), Some(collection(Some(extension()))), Some(s("admin")));
    assert_eq!(msg.name, "name");
    assert_eq!(msg.symbol, "symbol");
    let info = msg.collection_info;
    assert_eq!(info.creator, "admin");
    assert_eq!(info.description, "description");
    assert_eq!(info.image, "https://ark.pass/image.png");
    assert_eq!(info.external_link, Some(s("https://interchain.arkprotocol.io")));
    assert_eq!(info.explicit_content, Some(false));
    assert_eq!(info.start_trading_time, Some(42_000_000_000));
    // royalties are paid to the local owner, not the remote address
    let royalty = info.royalty_info.unwrap();
    assert_eq!(royalty.payment_address, "admin");
    assert_eq!(royalty.share, ONE);
    // class data without an extension keeps the placeholder info
    let msg = sg().init_msg(&bridge_info(None), s("bridge"), s("c"), Some(collection(None)), None);
    assert_eq!(msg.name, "name");
    assert_eq!(msg.collection_info.image, "ipfs://placeholder");
    assert_eq!(msg.collection_info.creator, "creator");
}
