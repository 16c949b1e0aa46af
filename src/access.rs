use vstd::prelude::*;

use crate::error::ContractError;

verus! {

/// Process-wide access configuration, read at every protocol entry.
pub struct AccessState {
    /// No transfer in either direction while set.
    pub paused: bool,
    /// When set, only this address may invoke sends and receives.
    pub proxy: Option<String>,
}

/// The refusal that the access guard gives `caller`, if any: pausing first,
/// then the proxy.
pub open spec fn access_error(access: AccessState, caller: Seq<char>) -> Option<ContractError> {
    if access.paused {
        Some(ContractError::Paused)
    } else if access.proxy is Some && access.proxy->0@ != caller {
        Some(ContractError::Unauthorized)
    } else {
        None
    }
}

/// The access guard.
pub fn check_access(access: &AccessState, caller: &String) -> (r: Result<(), ContractError>)
    ensures
        match access_error(*access, caller@) {
            Some(e) => r == Err::<(), ContractError>(e),
            None => r is Ok,
        },
{
    if access.paused {
        return Err(ContractError::Paused);
    }
    match &access.proxy {
        Some(p) => {
            if *p != *caller {
                return Err(ContractError::Unauthorized);
            }
        },
        None => {},
    }
    Ok(())
}

/// Whitespace, which no address holds.
pub open spec fn is_space(c: char) -> bool {
    c == ' ' || c == '\t' || c == '\n' || c == '\r'
}

/// The shape of an address: not empty, and no whitespace.
pub open spec fn valid_address(s: Seq<char>) -> bool {
    s.len() > 0 && forall|i: int| 0 <= i < s.len() ==> !is_space(#[trigger] s[i])
}

/// Whether `s` has the shape of an address.
pub fn check_address(s: &String) -> (r: bool)
    ensures
        r == valid_address(s@),
{
    let t = s.as_str();
    let n = t.unicode_len();
    if n == 0 {
        return false;
    }
    let mut i: usize = 0;
    while i < n
        invariant
            n == t@.len(),
            t@ == s@,
            i <= n,
            forall|j: int| 0 <= j < i ==> !is_space(#[trigger] t@[j]),
        decreases n - i,
    {
        let c = t.get_char(i);
        if c == ' ' || c == '\t' || c == '\n' || c == '\r' {
            return false;
        }
        i = i + 1;
    }
    true
}

} // verus!
