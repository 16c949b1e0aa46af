use vstd::prelude::*;

use crate::error::ContractError;
use crate::registry::ClassRegistry;

verus! {

/// A nested request to an NFT contract: the contract, the JSON body of the
/// execute message, and the correlation token under which its completion
/// comes back.
pub struct SubMsg {
    pub contract_addr: String,
    pub msg: Vec<u8>,
    pub reply_id: u64,
}

/// The plain-value form of a [`SubMsg`].
pub struct SubMsgView {
    pub contract_addr: Seq<char>,
    pub msg: Seq<u8>,
    pub reply_id: u64,
}

impl View for SubMsg {
    type V = SubMsgView;

    open spec fn view(&self) -> SubMsgView {
        SubMsgView { contract_addr: self.contract_addr@, msg: self.msg@, reply_id: self.reply_id }
    }
}

/// The JSON of the cw721 `NftExtension` that `data` reads as, if it reads as one.
pub uninterp spec fn nft_extension_json(data: Seq<u8>) -> Option<Seq<u8>>;

/// The JSON body of a cw721 `Mint` message whose on-chain extension, if
/// any, is the `NftExtension` written in `extension`.
pub uninterp spec fn mint_msg_json(
    token_id: Seq<char>,
    owner: Seq<char>,
    token_uri: Option<Seq<char>>,
    extension: Option<Seq<u8>>,
) -> Seq<u8>;

/// The JSON body of a cw721 `TransferNft` message.
pub uninterp spec fn transfer_msg_json(token_id: Seq<char>, recipient: Seq<char>) -> Seq<u8>;

/// The JSON body of a cw721 `Burn` message.
pub uninterp spec fn burn_msg_json(token_id: Seq<char>) -> Seq<u8>;

/// Relies on cosmwasm_std::from_json to read `data` as a cw721 `NftExtension`,
/// and on cosmwasm_std::to_json_vec to write that extension back as JSON.
#[verifier::external_body]
fn read_nft_extension(data: &Vec<u8>) -> (r: Option<Vec<u8>>)
    ensures
        r.deep_view() == nft_extension_json(data@),
{
    cosmwasm_std::from_json::<cw721::NftExtension>(data)
        .ok()
        .and_then(|e| cosmwasm_std::to_json_vec(&e).ok())
}

/// Relies on cosmwasm_std::to_json_vec to encode cw721's `Cw721ExecuteMsg::Mint`,
/// which has no field that its serializer refuses; the extension, given as
/// the JSON of an `NftExtension`, is read with cosmwasm_std::from_json.
#[verifier::external_body]
fn encode_mint(
    token_id: String,
    owner: String,
    token_uri: Option<String>,
    extension: Option<Vec<u8>>,
) -> (r: Option<Vec<u8>>)
    ensures
        r is Some,
        r matches Some(b) ==> b@ == mint_msg_json(
            token_id@,
            owner@,
            token_uri.deep_view(),
            extension.deep_view(),
        ),
{
    let extension: cw721::DefaultOptionalNftExtensionMsg = extension
        .and_then(|d| cosmwasm_std::from_json::<cw721::NftExtension>(d).ok())
        .map(cw721::msg::NftExtensionMsg::from);
    let msg = cw721::msg::Cw721ExecuteMsg::<
        cw721::DefaultOptionalNftExtensionMsg,
        cw721::DefaultOptionalCollectionExtensionMsg,
        cosmwasm_std::Empty,
    >::Mint { token_id, owner, token_uri, extension };
    cosmwasm_std::to_json_vec(&msg).ok()
}

/// Relies on cosmwasm_std::to_json_vec to encode cw721-base's
/// `ExecuteMsg::TransferNft`, which holds strings only.
#[verifier::external_body]
fn encode_transfer(token_id: String, recipient: String) -> (r: Option<Vec<u8>>)
    ensures
        r is Some,
        r matches Some(b) ==> b@ == transfer_msg_json(token_id@, recipient@),
{
    let msg = cw721_base::msg::ExecuteMsg::TransferNft { recipient, token_id };
    cosmwasm_std::to_json_vec(&msg).ok()
}

/// Relies on cosmwasm_std::to_json_vec to encode cw721-base's
/// `ExecuteMsg::Burn`, which holds a string only.
#[verifier::external_body]
fn encode_burn(token_id: String) -> (r: Option<Vec<u8>>)
    ensures
        r is Some,
        r matches Some(b) ==> b@ == burn_msg_json(token_id@),
{
    let msg = cw721_base::msg::ExecuteMsg::Burn { token_id };
    cosmwasm_std::to_json_vec(&msg).ok()
}

/// The on-chain extension that token data gives a minted voucher: the data
/// itself when it is exactly the JSON of a cw721 `NftExtension`, and none
/// otherwise (other data still travels in packets, but the NFT contract
/// cannot hold it).
pub open spec fn mint_extension(data: Option<Seq<u8>>) -> Option<Seq<u8>> {
    match data {
        Some(d) => if nft_extension_json(d) == Some(d) {
            Some(d)
        } else {
            None
        },
        None => None,
    }
}

/// Whether two byte strings are equal.
fn same_bytes(a: &Vec<u8>, b: &Vec<u8>) -> (r: bool)
    ensures
        r == (a@ == b@),
{
    if a.len() != b.len() {
        return false;
    }
    let mut i: usize = 0;
    while i < a.len()
        invariant
            a@.len() == b@.len(),
            i <= a@.len(),
            forall|j: int| 0 <= j < i ==> a@[j] == b@[j],
        decreases a@.len() - i,
    {
        if a[i] != b[i] {
            return false;
        }
        i = i + 1;
    }
    proof {
        assert(a@ =~= b@);
    }
    true
}

/// The on-chain extension for minting a token with `data`.
pub fn extension_of(data: Option<Vec<u8>>) -> (r: Option<Vec<u8>>)
    ensures
        r.deep_view() == mint_extension(data.deep_view()),
{
    match data {
        Some(d) => {
            proof {
                assert(d.deep_view() =~= d@);
            }
            match read_nft_extension(&d) {
                Some(c) => {
                    proof {
                        assert(c.deep_view() =~= c@);
                    }
                    if same_bytes(&c, &d) {
                        Some(d)
                    } else {
                        None
                    }
                },
                None => None,
            }
        },
        None => None,
    }
}

/// The request to the NFT contract at `contract_addr` that mints `token_id`
/// for `receiver`.
pub fn mint_at(
    contract_addr: String,
    token_id: String,
    token_uri: Option<String>,
    token_data: Option<Vec<u8>>,
    receiver: String,
    reply_id: u64,
) -> (r: SubMsg)
    ensures
        r@ == (SubMsgView {
            contract_addr: contract_addr@,
            msg: mint_msg_json(
                token_id@,
                receiver@,
                token_uri.deep_view(),
                mint_extension(token_data.deep_view()),
            ),
            reply_id,
        }),
{
    let extension = extension_of(token_data);
    let msg = encode_mint(token_id, receiver, token_uri, extension).unwrap();
    SubMsg { contract_addr, msg, reply_id }
}

/// The request to the NFT contract at `contract_addr` that moves `token_id`
/// to `receiver`.
pub fn transfer_at(contract_addr: String, token_id: String, receiver: String, reply_id: u64) -> (r: SubMsg)
    ensures
        r@ == (SubMsgView {
            contract_addr: contract_addr@,
            msg: transfer_msg_json(token_id@, receiver@),
            reply_id,
        }),
{
    let msg = encode_transfer(token_id, receiver).unwrap();
    SubMsg { contract_addr, msg, reply_id }
}

/// The NFT contract bound to `class_id`.
pub fn get_class(classes: &ClassRegistry, class_id: &String) -> (r: Result<String, ContractError>)
    requires
        classes.wf(),
    ensures
        match r {
            Ok(a) => classes@.contains_key(class_id@) && a@ == classes@[class_id@],
            Err(e) => !classes@.contains_key(class_id@) && e == ContractError::UnrecognisedClassId,
        },
{
    match classes.address_of(class_id) {
        Some(a) => Ok(a),
        None => Err(ContractError::UnrecognisedClassId),
    }
}

/// Whether `class_id` is bound to an NFT contract.
pub fn has_class(classes: &ClassRegistry, class_id: &String) -> (r: bool)
    requires
        classes.wf(),
    ensures
        r == classes@.contains_key(class_id@),
{
    classes.has_class(class_id)
}

/// The request that mints `token_id` of `class_id` for `receiver`.
pub fn mint(
    classes: &ClassRegistry,
    class_id: &String,
    token_id: String,
    token_uri: Option<String>,
    token_data: Option<Vec<u8>>,
    receiver: String,
    reply_id: u64,
) -> (r: Result<SubMsg, ContractError>)
    requires
        classes.wf(),
    ensures
        !classes@.contains_key(class_id@) ==> r == Err::<SubMsg, ContractError>(
            ContractError::UnrecognisedClassId,
        ),
        classes@.contains_key(class_id@) ==> (r matches Ok(m) && m@ == (SubMsgView {
            contract_addr: classes@[class_id@],
            msg: mint_msg_json(
                token_id@,
                receiver@,
                token_uri.deep_view(),
                mint_extension(token_data.deep_view()),
            ),
            reply_id,
        })),
{
    let contract_addr = get_class(classes, class_id)?;
    Ok(mint_at(contract_addr, token_id, token_uri, token_data, receiver, reply_id))
}

/// The request that moves `token_id` of `class_id` to `receiver`; refused
/// when the host found that `receiver` is not a valid address here
/// (`receiver_valid`).
pub fn transfer(
    classes: &ClassRegistry,
    class_id: &String,
    token_id: String,
    receiver: String,
    receiver_valid: bool,
    reply_id: u64,
) -> (r: Result<SubMsg, ContractError>)
    requires
        classes.wf(),
    ensures
        !classes@.contains_key(class_id@) ==> r == Err::<SubMsg, ContractError>(
            ContractError::UnrecognisedClassId,
        ),
        classes@.contains_key(class_id@) && !receiver_valid ==> r == Err::<SubMsg, ContractError>(
            ContractError::InvalidAddress,
        ),
        classes@.contains_key(class_id@) && receiver_valid ==> (r matches Ok(m) && m@ == (SubMsgView {
            contract_addr: classes@[class_id@],
            msg: transfer_msg_json(token_id@, receiver@),
            reply_id,
        })),
{
    let contract_addr = get_class(classes, class_id)?;
    if !receiver_valid {
        return Err(ContractError::InvalidAddress);
    }
    Ok(transfer_at(contract_addr, token_id, receiver, reply_id))
}

/// The request that burns `token_id` of `class_id`.
pub fn burn(classes: &ClassRegistry, class_id: &String, token_id: String, reply_id: u64) -> (r: Result<
    SubMsg,
    ContractError,
>)
    requires
        classes.wf(),
    ensures
        !classes@.contains_key(class_id@) ==> r == Err::<SubMsg, ContractError>(
            ContractError::UnrecognisedClassId,
        ),
        classes@.contains_key(class_id@) ==> (r matches Ok(m) && m@ == (SubMsgView {
            contract_addr: classes@[class_id@],
            msg: burn_msg_json(token_id@),
            reply_id,
        })),
{
    let contract_addr = get_class(classes, class_id)?;
    let msg = encode_burn(token_id).unwrap();
    Ok(SubMsg { contract_addr, msg, reply_id })
}

} // verus!
