use vstd::prelude::*;
use crate::address::Address;
use crate::error::HookError;
use crate::whitelist::{Whitelist, WhitelistView};

verus! {

/// The bumps of the addresses that were derived for `AddToWhitelist`.
#[derive(Clone, Copy, Debug)]
pub struct AddToWhitelistBumps {
    /// Bump of the address of the record.
    pub whitelist: u8,
}

/// The accounts of the instruction that puts an identity on the allow-list:
/// the administrative authority, who pays, and the record, whose storage was
/// reserved and paid before the instruction runs.
#[derive(Clone, Copy, Debug)]
pub struct AddToWhitelist {
    pub admin: Address,
    pub whitelist: Whitelist,
}

/// The accounts of the instruction that takes an identity off the
/// allow-list: the administrative authority, who gets the reserved funds, and
/// the record, whose storage is given back after the instruction has run.
#[derive(Clone, Copy, Debug)]
pub struct RemoveFromWhitelist {
    pub admin: Address,
    pub whitelist: Whitelist,
}

impl AddToWhitelist {
    /// Fills the record: it allows `user`, and keeps the bump of its address.
    pub fn add_to_whitelist(&mut self, user: Address, bumps: &AddToWhitelistBumps) -> (r: Result<(), HookError>)
        ensures
            r is Ok,
            final(self).whitelist@ == (WhitelistView {
                user: user@,
                bump: bumps.whitelist,
                is_whitelisted: true,
            }),
            final(self).admin == old(self).admin,
    {
        self.whitelist = Whitelist { user, is_whitelisted: true, bump: bumps.whitelist };
        Ok(())
    }
}

impl RemoveFromWhitelist {
    /// Leaves the record as it is: giving its storage back is all that
    /// removal takes.
    pub fn remove_from_whitelist(&mut self) -> (r: Result<(), HookError>)
        ensures
            r is Ok,
            *final(self) == *old(self),
    {
        Ok(())
    }
}

} // verus!
