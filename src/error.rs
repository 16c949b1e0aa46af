use vstd::prelude::*;

verus! {

/// Every way a protocol request can be refused.
#[derive(Clone, Copy, Debug, PartialEq, Eq, Structural)]
pub enum ContractError {
    /// Transfers are paused.
    Paused,
    /// The caller is not the configured proxy.
    Unauthorized,
    /// A packet or a send carries no token.
    EmptyTokenIds,
    /// A send names a token twice.
    DuplicateTokenIds,
    /// Token uris or token data do not match the token ids in length.
    TokenInfoLenMismatch,
    /// An address does not have an acceptable shape.
    InvalidAddress,
    /// The class id is not bound to an NFT contract here.
    UnrecognisedClassId,
    /// The class id or the contract address is already bound.
    ClassAlreadyBound,
    /// A custody record already exists for the asset.
    AlreadyEscrowed,
    /// No custody record exists for the asset.
    NotEscrowed,
    /// The custody record names another channel.
    ChannelMismatch,
    /// A packet already has an open reply context.
    PacketInProgress,
    /// No open reply context expects this correlation token.
    UnknownReply,
    /// No correlation token is left.
    ReplyIdsExhausted,
}

} // verus!
