use vstd::prelude::*;

verus! {

/// What the chain reports of a contract.
pub struct ContractInfoResponse {
    pub code_id: u64,
    /// The address that instantiated the contract.
    pub creator: String,
    /// The admin that may migrate it, if any.
    pub admin: Option<String>,
    /// Whether the contract is pinned to the cache.
    pub pinned: bool,
    /// The IBC port the contract has bound, if any.
    pub ibc_port: Option<String>,
}

/// Royalties of a collection; `share` is a decimal with 18 fractional
/// digits, as its atomic units.
pub struct RoyaltyInfo {
    pub payment_address: String,
    pub share: u128,
}

/// Collection-level extension data.
pub struct CollectionExtension {
    pub description: String,
    pub image: String,
    pub external_link: Option<String>,
    pub explicit_content: Option<bool>,
    /// Timestamp in nanoseconds.
    pub start_trading_time: Option<u64>,
    pub royalty_info: Option<RoyaltyInfo>,
}

/// The collection data that travels as a packet's class data.
pub struct CollectionData {
    pub owner: Option<String>,
    pub contract_info: Option<ContractInfoResponse>,
    pub name: String,
    pub symbol: String,
    pub extension: Option<CollectionExtension>,
    pub num_tokens: Option<u64>,
}

/// The bridge for cw721 collections: packets carry the collection data.
#[derive(Default)]
pub struct Ics721Contract {}

/// The bridge variant whose packets carry no collection data.
#[derive(Default)]
pub struct Ics721ContractNoClassData {}

impl Ics721Contract {
    /// The class data to send for a collection: all of it.
    pub fn get_class_data(&self, collection: CollectionData) -> (r: Option<CollectionData>)
        ensures
            r == Some(collection),
    {
        Some(collection)
    }
}

impl Ics721ContractNoClassData {
    /// The class data to send for a collection: none.
    pub fn get_class_data(&self, _collection: CollectionData) -> (r: Option<CollectionData>)
        ensures
            r is None,
    {
        None
    }
}

/// Royalties as a Stargaze collection states them; `share` as in [`RoyaltyInfo`].
pub struct RoyaltyInfoResponse {
    pub payment_address: String,
    pub share: u128,
}

/// Collection info of a Stargaze (sg721) collection.
pub struct SgCollectionInfo {
    pub creator: String,
    pub description: String,
    pub image: String,
    pub external_link: Option<String>,
    pub explicit_content: Option<bool>,
    /// Timestamp in nanoseconds.
    pub start_trading_time: Option<u64>,
    pub royalty_info: Option<RoyaltyInfoResponse>,
}

/// The message that instantiates a Stargaze (sg721) collection.
pub struct Sg721InstantiateMsg {
    pub name: String,
    pub symbol: String,
    pub minter: String,
    pub collection_info: SgCollectionInfo,
}

/// The bridge for Stargaze collections. Collections it creates without
/// collection data show `placeholder_image`.
pub struct SgIcs721Contract {
    pub placeholder_image: String,
}

/// Royalties as the packet carries them, from Stargaze's.
pub open spec fn royalty_from_sg(r: Option<RoyaltyInfoResponse>) -> Option<RoyaltyInfo> {
    match r {
        Some(x) => Some(RoyaltyInfo { payment_address: x.payment_address, share: x.share }),
        None => None,
    }
}

/// The owner of a created collection: the configured collection admin, else
/// the bridge's admin, else the bridge's creator.
pub open spec fn admin_or_creator(cw721_admin: Option<String>, info: ContractInfoResponse) -> String {
    match cw721_admin {
        Some(a) => a,
        None => match info.admin {
            Some(a) => a,
            None => info.creator,
        },
    }
}

/// Stargaze royalties of a created collection: paid to `owner`, since the
/// address from the other chain means nothing here.
pub open spec fn royalty_to_sg(r: Option<RoyaltyInfo>, owner: String) -> Option<RoyaltyInfoResponse> {
    match r {
        Some(x) => Some(RoyaltyInfoResponse { payment_address: owner, share: x.share }),
        None => None,
    }
}

impl SgIcs721Contract {
    /// The class data to send for a Stargaze collection: its cw721 data,
    /// with the extension taken from its Stargaze collection info.
    pub fn get_class_data(&self, collection: CollectionData, info: SgCollectionInfo) -> (r: Option<
        CollectionData,
    >)
        ensures
            r == Some(
                CollectionData {
                    extension: Some(
                        CollectionExtension {
                            description: info.description,
                            image: info.image,
                            external_link: info.external_link,
                            explicit_content: info.explicit_content,
                            start_trading_time: info.start_trading_time,
                            royalty_info: royalty_from_sg(info.royalty_info),
                        },
                    ),
                    ..collection
                },
            ),
    {
        let royalty_info = match info.royalty_info {
            Some(x) => Some(RoyaltyInfo { payment_address: x.payment_address, share: x.share }),
            None => None,
        };
        let extension = Some(
            CollectionExtension {
                description: info.description,
                image: info.image,
                external_link: info.external_link,
                explicit_content: info.explicit_content,
                start_trading_time: info.start_trading_time,
                royalty_info,
            },
        );
        Some(
            CollectionData {
                owner: collection.owner,
                contract_info: collection.contract_info,
                name: collection.name,
                symbol: collection.symbol,
                extension,
                num_tokens: collection.num_tokens,
            },
        )
    }

    /// The message that creates the Stargaze collection for `class_id`,
    /// minted by the bridge at `bridge_address`. Name and symbol are the
    /// class id unless the class data (decoded as `collection_data`) gives
    /// them; its extension, if any, gives the collection info.
    pub fn init_msg(
        &self,
        bridge_info: &ContractInfoResponse,
        bridge_address: String,
        class_id: String,
        collection_data: Option<CollectionData>,
        cw721_admin: Option<String>,
    ) -> (r: Sg721InstantiateMsg)
        ensures
            ({
                let owner = admin_or_creator(cw721_admin, *bridge_info);
                &&& r.minter == bridge_address
                &&& r.collection_info.creator == owner
                &&& match collection_data {
                    None => {
                        &&& r.name == class_id
                        &&& r.symbol == class_id
                    },
                    Some(cd) => {
                        &&& r.name == cd.name
                        &&& r.symbol == cd.symbol
                    },
                }
                &&& match collection_data {
                    Some(cd) if cd.extension is Some => {
                        let ext = cd.extension->0;
                        &&& r.collection_info.description == ext.description
                        &&& r.collection_info.image == ext.image
                        &&& r.collection_info.external_link == ext.external_link
                        &&& r.collection_info.explicit_content == ext.explicit_content
                        &&& r.collection_info.start_trading_time == ext.start_trading_time
                        &&& r.collection_info.royalty_info == royalty_to_sg(ext.royalty_info, owner)
                    },
                    _ => {
                        &&& r.collection_info.description@ == Seq::<char>::empty()
                        &&& r.collection_info.image == self.placeholder_image
                        &&& r.collection_info.external_link is None
                        &&& r.collection_info.explicit_content is None
                        &&& r.collection_info.start_trading_time is None
                        &&& r.collection_info.royalty_info is None
                    },
                }
            }),
    {
        let owner = match cw721_admin {
            Some(a) => a,
            None => match &bridge_info.admin {
                Some(a) => a.clone(),
                None => bridge_info.creator.clone(),
            },
        };
        match collection_data {
            None => Sg721InstantiateMsg {
                name: class_id.clone(),
                symbol: class_id,
                minter: bridge_address,
                collection_info: SgCollectionInfo {
                    creator: owner,
                    description: String::new(),
                    image: self.placeholder_image.clone(),
                    external_link: None,
                    explicit_content: None,
                    start_trading_time: None,
                    royalty_info: None,
                },
            },
            Some(cd) => {
                let collection_info = match cd.extension {
                    Some(ext) => {
                        let royalty_info = match ext.royalty_info {
                            Some(x) => Some(RoyaltyInfoResponse { payment_address: owner.clone(), share: x.share }),
                            None => None,
                        };
                        SgCollectionInfo {
                            creator: owner,
                            description: ext.description,
                            image: ext.image,
                            external_link: ext.external_link,
                            explicit_content: ext.explicit_content,
                            start_trading_time: ext.start_trading_time,
                            royalty_info,
                        }
                    },
                    None => SgCollectionInfo {
                        creator: owner,
                        description: String::new(),
                        image: self.placeholder_image.clone(),
                        external_link: None,
                        explicit_content: None,
                        start_trading_time: None,
                        royalty_info: None,
                    },
                };
                Sg721InstantiateMsg { name: cd.name, symbol: cd.symbol, minter: bridge_address, collection_info }
            },
        }
    }
}

} // verus!
