use vstd::prelude::*;

use crate::error::ContractError;

verus! {

/// A token with its metadata, carried through uninterpreted.
pub struct Token {
    pub id: String,
    pub uri: Option<String>,
    pub data: Option<Vec<u8>>,
}

/// The plain-value form of a [`Token`].
pub struct TokenView {
    pub id: Seq<char>,
    pub uri: Option<Seq<char>>,
    pub data: Option<Seq<u8>>,
}

impl View for Token {
    type V = TokenView;

    open spec fn view(&self) -> TokenView {
        TokenView { id: self.id@, uri: self.uri.deep_view(), data: self.data.deep_view() }
    }
}

/// A copy of an optional string.
pub fn copy_opt_string(o: &Option<String>) -> (r: Option<String>)
    ensures
        r.deep_view() == o.deep_view(),
{
    match o {
        Some(s) => Some(s.clone()),
        None => None,
    }
}

/// A copy of a byte string.
pub fn copy_bytes(b: &Vec<u8>) -> (r: Vec<u8>)
    ensures
        r@ == b@,
{
    let mut r: Vec<u8> = Vec::new();
    let mut i: usize = 0;
    while i < b.len()
        invariant
            i <= b@.len(),
            r@ == b@.take(i as int),
        decreases b@.len() - i,
    {
        r.push(b[i]);
        i = i + 1;
        proof {
            assert(r@ =~= b@.take(i as int));
        }
    }
    proof {
        assert(b@.take(b@.len() as int) =~= b@);
    }
    r
}

/// A copy of optional bytes.
pub fn copy_opt_bytes(o: &Option<Vec<u8>>) -> (r: Option<Vec<u8>>)
    ensures
        r.deep_view() == o.deep_view(),
{
    match o {
        Some(b) => {
            let c = copy_bytes(b);
            proof {
                assert(c.deep_view() =~= b.deep_view());
            }
            Some(c)
        },
        None => None,
    }
}

/// The wire packet: a request to create or redeem vouchers for tokens of one
/// collection.
pub struct NonFungibleTokenPacketData {
    pub class_id: String,
    pub class_uri: Option<String>,
    pub class_data: Option<Vec<u8>>,
    pub token_ids: Vec<String>,
    pub token_uris: Option<Vec<String>>,
    pub token_data: Option<Vec<Vec<u8>>>,
    /// The sender on the sending chain.
    pub sender: String,
    /// The receiver on the receiving chain.
    pub receiver: String,
    pub memo: Option<String>,
}

/// What a deposit asks of the outbound engine.
pub struct IbcOutgoingMsg {
    /// The receiver on the destination chain.
    pub receiver: String,
    /// The local channel to send over.
    pub channel_id: String,
    /// The timeout, as a timestamp in nanoseconds.
    pub timeout: u64,
    pub memo: Option<String>,
}

impl NonFungibleTokenPacketData {
    /// The ids of the tokens, as plain values.
    pub open spec fn ids(&self) -> Seq<Seq<char>> {
        self.token_ids@.map_values(|t: String| t@)
    }

    /// The structural fault of the packet, if any: no token, or a list of
    /// uris or data whose length differs from that of the ids.
    pub open spec fn shape_error(&self) -> Option<ContractError> {
        if self.token_ids@.len() == 0 {
            Some(ContractError::EmptyTokenIds)
        } else if (self.token_uris is Some && self.token_uris->0@.len() != self.token_ids@.len())
            || (self.token_data is Some && self.token_data->0@.len() != self.token_ids@.len()) {
            Some(ContractError::TokenInfoLenMismatch)
        } else {
            None
        }
    }

    /// Structural validation.
    pub fn validate(&self) -> (r: Result<(), ContractError>)
        ensures
            match self.shape_error() {
                Some(e) => r == Err::<(), ContractError>(e),
                None => r is Ok,
            },
    {
        let n = self.token_ids.len();
        if n == 0 {
            return Err(ContractError::EmptyTokenIds);
        }
        match &self.token_uris {
            Some(u) => {
                if u.len() != n {
                    return Err(ContractError::TokenInfoLenMismatch);
                }
            },
            None => {},
        }
        match &self.token_data {
            Some(d) => {
                if d.len() != n {
                    return Err(ContractError::TokenInfoLenMismatch);
                }
            },
            None => {},
        }
        Ok(())
    }
}

} // verus!
