use vstd::prelude::*;
use crate::address::Address;
use crate::error::HookError;
use crate::pda::whitelist_address;
use crate::resolver::{address_views, lemma_whitelist_rule_resolves, resolve, whitelist_rule};
use crate::whitelist::{is_record, Whitelist};

verus! {

/// What the hook says of a transfer. Both are final.
#[derive(Clone, Copy, Debug, PartialEq, Eq, Structural)]
pub enum Decision {
    /// The transfer goes on.
    Allow,
    /// The transfer is aborted, with nothing changed.
    Reject,
}

/// The accounts that every transfer brings, in the order in which the hook
/// gets them. The receiving owner stands at position 3.
#[derive(Clone, Copy, Debug)]
pub struct TransferAccounts {
    pub source_token: Address,
    pub mint: Address,
    pub destination_token: Address,
    pub owner: Address,
    pub extra_account_meta_list: Address,
}

/// An auxiliary account as the transfer engine attached it: where it lives
/// and what is stored there.
#[derive(Debug)]
pub struct ResolvedAccount {
    pub key: Address,
    pub data: Vec<u8>,
}

/// An auxiliary account as a mathematical value.
pub ghost struct ResolvedAccountView {
    pub key: Seq<u8>,
    pub data: Seq<u8>,
}

impl View for ResolvedAccount {
    type V = ResolvedAccountView;

    open spec fn view(&self) -> ResolvedAccountView {
        ResolvedAccountView { key: self.key@, data: self.data@ }
    }
}

/// The view of an account that may be missing.
pub open spec fn attached_view(account: Option<ResolvedAccount>) -> Option<ResolvedAccountView> {
    match account {
        Some(a) => Some(a@),
        None => None,
    }
}

/// Whether the hook of `program_id` lets a transfer to `owner` pass, given
/// the auxiliary account that came with it: the account is there, it lives
/// where the allow-list record of `owner` belongs, and it holds a record that
/// names `owner` and allows.
pub open spec fn allows(owner: Seq<u8>, program_id: Seq<u8>, account: Option<ResolvedAccountView>) -> bool {
    &&& account matches Some(a)
    &&& whitelist_address(owner, program_id) matches Some((address, bump))
    &&& a.key == address
    &&& is_record(a.data)
    &&& a.data.subrange(8, 40) == owner
    &&& a.data[41] == 1
}

/// The accounts of the hook: the program that runs it, the accounts of the
/// transfer, and the allow-list record of the receiving owner as the
/// transfer engine resolved it, if it found one.
#[derive(Debug)]
pub struct TransferHook {
    pub program_id: Address,
    pub transfer: TransferAccounts,
    pub whitelist: Option<ResolvedAccount>,
}

impl TransferAccounts {
    /// The addresses of the accounts, in order.
    pub fn keys(&self) -> (keys: Vec<Address>)
        ensures
            keys@ == seq![
                self.source_token,
                self.mint,
                self.destination_token,
                self.owner,
                self.extra_account_meta_list,
            ],
    {
        let mut keys: Vec<Address> = Vec::new();
        keys.push(self.source_token);
        keys.push(self.mint);
        keys.push(self.destination_token);
        keys.push(self.owner);
        keys.push(self.extra_account_meta_list);
        assert(keys@ =~= seq![
            self.source_token,
            self.mint,
            self.destination_token,
            self.owner,
            self.extra_account_meta_list,
        ]);
        keys
    }
}

impl TransferHook {
    /// Decides on the transfer. The amount plays no part; nothing is
    /// changed.
    pub fn decide(&self, amount: u64) -> (d: Decision)
        ensures
            d == Decision::Allow <==> allows(
                self.transfer.owner@,
                self.program_id@,
                attached_view(self.whitelist),
            ),
    {
        let keys = self.transfer.keys();
        let seeds = whitelist_rule();
        proof {
            lemma_whitelist_rule_resolves(address_views(keys@), self.program_id@);
        }
        let expected = match resolve(&seeds, &keys, &self.program_id) {
            Some((address, _)) => address,
            None => {
                return Decision::Reject;
            },
        };
        let account = match &self.whitelist {
            Some(account) => account,
            None => {
                return Decision::Reject;
            },
        };
        if account.key != expected {
            return Decision::Reject;
        }
        match Whitelist::from_bytes(&account.data) {
            Some(record) => {
                if record.user == self.transfer.owner && record.is_whitelisted {
                    Decision::Allow
                } else {
                    Decision::Reject
                }
            },
            None => Decision::Reject,
        }
    }

    /// The hook itself: lets the transfer pass, or aborts it.
    pub fn transfer_hook(&self, amount: u64) -> (r: Result<(), HookError>)
        ensures
            r is Ok <==> allows(
                self.transfer.owner@,
                self.program_id@,
                attached_view(self.whitelist),
            ),
            r matches Err(e) ==> e == HookError::ValidationRejection,
    {
        match self.decide(amount) {
            Decision::Allow => Ok(()),
            Decision::Reject => Err(HookError::ValidationRejection),
        }
    }
}

} // verus!
