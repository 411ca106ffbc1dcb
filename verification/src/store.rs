use vstd::prelude::*;
use crate::address::Address;
use crate::error::HookError;
use crate::instructions::transfer_hook::{
    allows, attached_view, ResolvedAccount, ResolvedAccountView, TransferAccounts, TransferHook,
};
use crate::instructions::whitelist_operations::{
    AddToWhitelist, AddToWhitelistBumps, RemoveFromWhitelist,
};
use crate::pda::{find_whitelist_address, whitelist_address};
use crate::resolver::{address_views, lemma_whitelist_rule_resolves, resolve, whitelist_rule};
use crate::whitelist::{Whitelist, WhitelistView};

verus! {

/// One record of the allow-list as the ledger keeps it: where it lives, the
/// funds reserved for its storage, and what it says.
#[derive(Clone, Copy, Debug)]
struct StoredAccount {
    key: Address,
    lamports: u64,
    record: Whitelist,
}

/// A stored record as a mathematical value.
pub ghost struct AccountView {
    pub lamports: nat,
    pub record: WhitelistView,
}

impl View for StoredAccount {
    type V = AccountView;

    closed spec fn view(&self) -> AccountView {
        AccountView { lamports: self.lamports as nat, record: self.record@ }
    }
}

/// The allow-list of one hook: its records on the ledger, one for each
/// allowed identity, with the funds of the administrative authority who pays
/// for their storage and gets the payment back.
///
/// Who may change the list is not decided here: whoever holds the list
/// mutably acts as its administrative authority, named when the list is
/// made. The hook only ever reads it.
#[derive(Debug)]
pub struct AllowListStore {
    program_id: Address,
    admin: Address,
    admin_lamports: u64,
    rent_minimum: u64,
    accounts: Vec<StoredAccount>,
}

/// The allow-list as a mathematical value.
pub ghost struct StoreView {
    /// The program that runs the hook and owns the records.
    pub program_id: Seq<u8>,
    /// The administrative authority.
    pub admin: Seq<u8>,
    /// The funds of the administrative authority.
    pub admin_lamports: nat,
    /// What the ledger asks to be reserved for the storage of one record.
    pub rent_minimum: nat,
    /// The records, by the address at which each lives.
    pub accounts: Map<Seq<u8>, AccountView>,
    /// The funds reserved for all the records together.
    pub reserved: nat,
    /// The number of records.
    pub records: nat,
}

impl StoreView {
    /// Whether every record allows the identity that it names, and names one.
    pub open spec fn records_valid(self) -> bool {
        forall|key: Seq<u8>| #[trigger]
            self.accounts.contains_key(key) ==> {
                &&& self.accounts[key].record.is_whitelisted
                &&& self.accounts[key].record.user.len() == 32
            }
    }

    /// Whether the funds are in order: all of them fit the ledger's 64 bits,
    /// and each record has at least the minimum reserved, and so have all
    /// together.
    pub open spec fn funds_valid(self) -> bool {
        &&& self.admin_lamports + self.reserved <= u64::MAX
        &&& self.reserved >= self.rent_minimum * self.records
        &&& forall|key: Seq<u8>| #[trigger]
            self.accounts.contains_key(key) ==> self.accounts[key].lamports >= self.rent_minimum
    }

    /// What holds of every allow-list.
    pub open spec fn wf(self) -> bool {
        self.records_valid() && self.funds_valid()
    }

    /// Whether `user` is on the allow-list: at the address of its record
    /// there is a record, and it names `user`.
    pub open spec fn is_member(self, user: Seq<u8>) -> bool {
        &&& whitelist_address(user, self.program_id) matches Some((address, bump))
        &&& self.accounts.contains_key(address)
        &&& self.accounts[address].record.user == user
    }

    /// How adding `user` ends. It fails where the ledger derives no address
    /// for the record, where the address holds the record of another
    /// identity, and where `user` is not a member yet and the administrative
    /// authority cannot pay.
    pub open spec fn add_outcome(self, user: Seq<u8>) -> Result<(), HookError> {
        match whitelist_address(user, self.program_id) {
            None => Err(HookError::DuplicateOrMissingEntry),
            Some((address, bump)) => if self.accounts.contains_key(address) {
                if self.accounts[address].record.user == user {
                    Ok(())
                } else {
                    Err(HookError::DuplicateOrMissingEntry)
                }
            } else if self.admin_lamports < self.rent_minimum {
                Err(HookError::ResourceAccountingFailure)
            } else {
                Ok(())
            },
        }
    }

    /// The allow-list after adding `user`: as before where adding fails or
    /// `user` is a member already; else with one record more, paid by the
    /// administrative authority with exactly the minimum.
    pub open spec fn after_add(self, user: Seq<u8>) -> StoreView {
        if self.add_outcome(user) is Ok && !self.is_member(user) {
            let (address, bump) = whitelist_address(user, self.program_id).unwrap();
            StoreView {
                admin_lamports: (self.admin_lamports - self.rent_minimum) as nat,
                accounts: self.accounts.insert(
                    address,
                    AccountView {
                        lamports: self.rent_minimum,
                        record: WhitelistView { user, bump, is_whitelisted: true },
                    },
                ),
                reserved: self.reserved + self.rent_minimum,
                records: self.records + 1,
                ..self
            }
        } else {
            self
        }
    }

    /// The allow-list after removing `user`: as before where `user` is no
    /// member; else without its record, whose reserved funds are back with
    /// the administrative authority.
    pub open spec fn after_remove(self, user: Seq<u8>) -> StoreView {
        if self.is_member(user) {
            let (address, bump) = whitelist_address(user, self.program_id).unwrap();
            StoreView {
                admin_lamports: self.admin_lamports + self.accounts[address].lamports,
                accounts: self.accounts.remove(address),
                reserved: (self.reserved - self.accounts[address].lamports) as nat,
                records: (self.records - 1) as nat,
                ..self
            }
        } else {
            self
        }
    }

    /// What the ledger holds at `key`, as the transfer engine reads it.
    pub open spec fn fetched(self, key: Seq<u8>) -> Option<ResolvedAccountView> {
        if self.accounts.contains_key(key) {
            Some(ResolvedAccountView { key, data: self.accounts[key].record.packed() })
        } else {
            None
        }
    }

    /// The auxiliary account that the transfer engine attaches to a transfer
    /// to `owner`: what the ledger holds where the rule of the hook points.
    pub open spec fn attached(self, owner: Seq<u8>) -> Option<ResolvedAccountView> {
        match whitelist_address(owner, self.program_id) {
            Some((address, bump)) => self.fetched(address),
            None => None,
        }
    }
}

/// The sum of the funds reserved for the records.
spec fn total_lamports(accounts: Seq<StoredAccount>) -> nat
    decreases accounts.len(),
{
    if accounts.len() == 0 {
        0
    } else {
        total_lamports(accounts.drop_last()) + accounts.last().lamports as nat
    }
}

/// Whether the record at position `i` lives at `key`.
spec fn lives_at(accounts: Seq<StoredAccount>, i: int, key: Seq<u8>) -> bool {
    0 <= i < accounts.len() && accounts[i].key@ == key
}

/// Whether no two records live at the same address.
spec fn keys_unique(accounts: Seq<StoredAccount>) -> bool {
    forall|i: int, j: int|
        0 <= i < accounts.len() && 0 <= j < accounts.len() && i != j ==> (
        #[trigger] accounts[i]).key@ != (#[trigger] accounts[j]).key@
}

/// The records by address.
spec fn accounts_map(accounts: Seq<StoredAccount>) -> Map<Seq<u8>, AccountView> {
    Map::new(
        |key: Seq<u8>| exists|i: int| lives_at(accounts, i, key),
        |key: Seq<u8>| accounts[choose|i: int| lives_at(accounts, i, key)]@,
    )
}

proof fn lemma_lookup(accounts: Seq<StoredAccount>, i: int)
    requires
        keys_unique(accounts),
        0 <= i < accounts.len(),
    ensures
        accounts_map(accounts).contains_key(accounts[i].key@),
        accounts_map(accounts)[accounts[i].key@] == accounts[i]@,
{
    let key = accounts[i].key@;
    assert(lives_at(accounts, i, key));
    let j = choose|j: int| lives_at(accounts, j, key);
    assert(j == i);
}

proof fn lemma_push(accounts: Seq<StoredAccount>, account: StoredAccount)
    requires
        keys_unique(accounts),
        !accounts_map(accounts).contains_key(account.key@),
    ensures
        keys_unique(accounts.push(account)),
        accounts_map(accounts.push(account)) == accounts_map(accounts).insert(
            account.key@,
            account@,
        ),
        total_lamports(accounts.push(account)) == total_lamports(accounts) + account.lamports,
{
    let after = accounts.push(account);
    assert(after.drop_last() =~= accounts);
    assert forall|i: int, j: int|
        0 <= i < after.len() && 0 <= j < after.len() && i != j implies (#[trigger] after[i]).key@
        != (#[trigger] after[j]).key@ by {
        if i < accounts.len() {
            assert(lives_at(accounts, i, accounts[i].key@));
        }
        if j < accounts.len() {
            assert(lives_at(accounts, j, accounts[j].key@));
        }
    }
    let expected = accounts_map(accounts).insert(account.key@, account@);
    assert forall|key: Seq<u8>| accounts_map(after).contains_key(key) <==> expected.contains_key(
        key,
    ) by {
        if accounts_map(after).contains_key(key) {
            let i = choose|i: int| lives_at(after, i, key);
            if i < accounts.len() {
                assert(lives_at(accounts, i, key));
            }
        }
        if expected.contains_key(key) {
            if key == account.key@ {
                assert(lives_at(after, accounts.len() as int, key));
            } else {
                let i = choose|i: int| lives_at(accounts, i, key);
                assert(lives_at(after, i, key));
            }
        }
    }
    assert forall|key: Seq<u8>| accounts_map(after).contains_key(key) implies accounts_map(
        after,
    )[key] == expected[key] by {
        let i = choose|i: int| lives_at(after, i, key);
        lemma_lookup(after, i);
        if i < accounts.len() {
            lemma_lookup(accounts, i);
        }
    }
    assert(accounts_map(after) =~= expected);
}

proof fn lemma_total_remove(accounts: Seq<StoredAccount>, i: int)
    requires
        0 <= i < accounts.len(),
    ensures
        total_lamports(accounts.remove(i)) + accounts[i].lamports == total_lamports(accounts),
    decreases accounts.len(),
{
    if i == accounts.len() - 1 {
        assert(accounts.remove(i) =~= accounts.drop_last());
    } else {
        lemma_total_remove(accounts.drop_last(), i);
        assert(accounts.remove(i).drop_last() =~= accounts.drop_last().remove(i));
        assert(accounts.remove(i).last() == accounts.last());
    }
}

proof fn lemma_remove(accounts: Seq<StoredAccount>, i: int)
    requires
        keys_unique(accounts),
        0 <= i < accounts.len(),
    ensures
        keys_unique(accounts.remove(i)),
        accounts_map(accounts.remove(i)) == accounts_map(accounts).remove(accounts[i].key@),
        total_lamports(accounts.remove(i)) + accounts[i].lamports == total_lamports(accounts),
{
    lemma_total_remove(accounts, i);
    let after = accounts.remove(i);
    let gone = accounts[i].key@;
    assert forall|j: int| 0 <= j < after.len() implies #[trigger] after[j] == accounts[if j < i {
        j
    } else {
        j + 1
    }] by {}
    assert forall|a: int, b: int|
        0 <= a < after.len() && 0 <= b < after.len() && a != b implies (#[trigger] after[a]).key@
        != (#[trigger] after[b]).key@ by {
        let a0 = if a < i { a } else { a + 1 };
        let b0 = if b < i { b } else { b + 1 };
        assert(after[a] == accounts[a0]);
        assert(after[b] == accounts[b0]);
    }
    let expected = accounts_map(accounts).remove(gone);
    assert forall|key: Seq<u8>| accounts_map(after).contains_key(key) <==> expected.contains_key(
        key,
    ) by {
        if accounts_map(after).contains_key(key) {
            let j = choose|j: int| lives_at(after, j, key);
            let j0 = if j < i { j } else { j + 1 };
            assert(after[j] == accounts[j0]);
            assert(lives_at(accounts, j0, key));
            assert(accounts[j0].key@ != accounts[i].key@);
        }
        if expected.contains_key(key) {
            let j0 = choose|j: int| lives_at(accounts, j, key);
            assert(j0 != i);
            let j = if j0 < i { j0 } else { j0 - 1 };
            assert(after[j] == accounts[j0]);
            assert(lives_at(after, j, key));
        }
    }
    assert forall|key: Seq<u8>| accounts_map(after).contains_key(key) implies accounts_map(
        after,
    )[key] == expected[key] by {
        let j = choose|j: int| lives_at(after, j, key);
        let j0 = if j < i { j } else { j + 1 };
        assert(after[j] == accounts[j0]);
        lemma_lookup(after, j);
        lemma_lookup(accounts, j0);
    }
    assert(accounts_map(after) =~= expected);
}

proof fn lemma_total_covers(accounts: Seq<StoredAccount>, i: int)
    requires
        0 <= i < accounts.len(),
    ensures
        accounts[i].lamports <= total_lamports(accounts),
{
    lemma_total_remove(accounts, i);
}

proof fn lemma_total_at_least(accounts: Seq<StoredAccount>, minimum: nat)
    requires
        forall|i: int| 0 <= i < accounts.len() ==> (#[trigger] accounts[i]).lamports >= minimum,
    ensures
        total_lamports(accounts) >= minimum * accounts.len(),
    decreases accounts.len(),
{
    if accounts.len() > 0 {
        lemma_total_at_least(accounts.drop_last(), minimum);
        assert(minimum * accounts.len() == minimum * (accounts.len() - 1) + minimum)
            by (nonlinear_arith);
    } else {
        assert(minimum * accounts.len() == 0) by (nonlinear_arith)
            requires
                accounts.len() == 0,
        ;
    }
}

impl View for AllowListStore {
    type V = StoreView;

    closed spec fn view(&self) -> StoreView {
        StoreView {
            program_id: self.program_id@,
            admin: self.admin@,
            admin_lamports: self.admin_lamports as nat,
            rent_minimum: self.rent_minimum as nat,
            accounts: accounts_map(self.accounts@),
            reserved: total_lamports(self.accounts@),
            records: self.accounts@.len(),
        }
    }
}

impl AllowListStore {
    /// Whether the allow-list is in order: no two records live at one
    /// address, and what holds of every allow-list holds of this one.
    pub closed spec fn wf(&self) -> bool {
        keys_unique(self.accounts@) && self@.wf()
    }

    /// An allow-list in order has a view of which holds what holds of every
    /// allow-list.
    pub proof fn lemma_view_wf(&self)
        requires
            self.wf(),
        ensures
            self@.wf(),
    {
    }

    /// The empty allow-list of the hook `program_id`, whose administrative
    /// authority `admin` has `admin_lamports` to spend on records that cost
    /// `rent_minimum` each.
    pub fn new(program_id: Address, admin: Address, admin_lamports: u64, rent_minimum: u64) -> (store: AllowListStore)
        ensures
            store.wf(),
            store@ == (StoreView {
                program_id: program_id@,
                admin: admin@,
                admin_lamports: admin_lamports as nat,
                rent_minimum: rent_minimum as nat,
                accounts: Map::empty(),
                reserved: 0,
                records: 0,
            }),
    {
        let store = AllowListStore {
            program_id,
            admin,
            admin_lamports,
            rent_minimum,
            accounts: Vec::new(),
        };
        assert(accounts_map(store.accounts@) =~= Map::empty());
        assert(store@.rent_minimum * store@.records == 0) by (nonlinear_arith)
            requires
                store@.records == 0,
        ;
        store
    }

    /// The program that runs the hook.
    pub fn program_id(&self) -> (r: Address)
        ensures
            r@ == self@.program_id,
    {
        self.program_id
    }

    /// The administrative authority.
    pub fn admin(&self) -> (r: Address)
        ensures
            r@ == self@.admin,
    {
        self.admin
    }

    /// The funds of the administrative authority.
    pub fn admin_lamports(&self) -> (r: u64)
        ensures
            r == self@.admin_lamports,
    {
        self.admin_lamports
    }

    /// What the ledger asks to be reserved for one record.
    pub fn rent_minimum(&self) -> (r: u64)
        ensures
            r == self@.rent_minimum,
    {
        self.rent_minimum
    }

    /// The number of records.
    pub fn len(&self) -> (r: usize)
        ensures
            r == self@.records,
    {
        self.accounts.len()
    }

    /// The funds reserved for all the records together.
    pub fn reserved(&self) -> (r: u64)
        requires
            self.wf(),
        ensures
            r == self@.reserved,
    {
        let mut sum: u64 = 0;
        let mut i: usize = 0;
        assert(self.accounts@.take(0) =~= Seq::empty());
        while i < self.accounts.len()
            invariant
                i <= self.accounts@.len(),
                sum == total_lamports(self.accounts@.take(i as int)),
                total_lamports(self.accounts@) <= u64::MAX,
            decreases self.accounts@.len() - i,
        {
            proof {
                let next = self.accounts@.take(i + 1);
                assert(next.drop_last() =~= self.accounts@.take(i as int));
                lemma_total_prefix(self.accounts@, i + 1);
            }
            sum = sum + self.accounts[i].lamports;
            i += 1;
        }
        assert(self.accounts@.take(i as int) =~= self.accounts@);
        sum
    }

    /// Where the record that lives at `key` stands among the records.
    fn position(&self, key: &Address) -> (r: Option<usize>)
        ensures
            r matches Some(i) ==> lives_at(self.accounts@, i as int, key@),
            r is None ==> !accounts_map(self.accounts@).contains_key(key@),
    {
        let mut i: usize = 0;
        while i < self.accounts.len()
            invariant
                i <= self.accounts@.len(),
                forall|k: int| 0 <= k < i ==> (#[trigger] self.accounts@[k]).key@ != key@,
            decreases self.accounts@.len() - i,
        {
            if self.accounts[i].key == *key {
                return Some(i);
            }
            i += 1;
        }
        assert forall|k: int| !lives_at(self.accounts@, k, key@) by {
            if 0 <= k < self.accounts@.len() {
                assert(self.accounts@[k].key@ != key@);
            }
        }
        None
    }

    /// Whether `user` is on the allow-list.
    pub fn is_member(&self, user: &Address) -> (r: bool)
        requires
            self.wf(),
        ensures
            r == self@.is_member(user@),
    {
        match find_whitelist_address(user, &self.program_id) {
            Some((key, _)) => match self.position(&key) {
                Some(i) => {
                    proof {
                        lemma_lookup(self.accounts@, i as int);
                    }
                    self.accounts[i].record.user == *user
                },
                None => false,
            },
            None => false,
        }
    }

    /// Puts `user` on the allow-list. Where `user` is on it already, nothing
    /// changes and nothing is paid. Else the administrative authority pays the
    /// minimum for the storage of the record, and only then is the record
    /// made. On failure nothing changes.
    pub fn add(&mut self, user: Address) -> (r: Result<(), HookError>)
        requires
            old(self).wf(),
        ensures
            final(self).wf(),
            final(self)@ == old(self)@.after_add(user@),
            r == old(self)@.add_outcome(user@),
    {
        let (key, bump) = match find_whitelist_address(&user, &self.program_id) {
            Some(derived) => derived,
            None => {
                return Err(HookError::DuplicateOrMissingEntry);
            },
        };
        match self.position(&key) {
            Some(i) => {
                proof {
                    lemma_lookup(self.accounts@, i as int);
                }
                if self.accounts[i].record.user == user {
                    Ok(())
                } else {
                    Err(HookError::DuplicateOrMissingEntry)
                }
            },
            None => {
                if self.admin_lamports < self.rent_minimum {
                    return Err(HookError::ResourceAccountingFailure);
                }
                let mut accounts = AddToWhitelist { admin: self.admin, whitelist: Whitelist::blank() };
                let bumps = AddToWhitelistBumps { whitelist: bump };
                match accounts.add_to_whitelist(user, &bumps) {
                    Ok(()) => {},
                    Err(e) => {
                        return Err(e);
                    },
                }
                let account = StoredAccount {
                    key,
                    lamports: self.rent_minimum,
                    record: accounts.whitelist,
                };
                proof {
                    lemma_push(self.accounts@, account);
                    Address::lemma_view_injective(user, user);
                    assert(self@.rent_minimum * (self@.records + 1) == self@.rent_minimum
                        * self@.records + self@.rent_minimum) by (nonlinear_arith);
                }
                self.admin_lamports = self.admin_lamports - self.rent_minimum;
                self.accounts.push(account);
                Ok(())
            },
        }
    }

    /// Takes `user` off the allow-list: its record is closed, and what was
    /// reserved for it goes back to the administrative authority. Where
    /// `user` is not on the list, nothing changes. Never fails.
    pub fn remove(&mut self, user: Address) -> (r: Result<(), HookError>)
        requires
            old(self).wf(),
        ensures
            final(self).wf(),
            final(self)@ == old(self)@.after_remove(user@),
            r is Ok,
    {
        let key = match find_whitelist_address(&user, &self.program_id) {
            Some((key, _)) => key,
            None => {
                return Ok(());
            },
        };
        match self.position(&key) {
            Some(i) => {
                proof {
                    lemma_lookup(self.accounts@, i as int);
                }
                if self.accounts[i].record.user == user {
                    let mut accounts = RemoveFromWhitelist {
                        admin: self.admin,
                        whitelist: self.accounts[i].record,
                    };
                    match accounts.remove_from_whitelist() {
                        Ok(()) => {},
                        Err(e) => {
                            return Err(e);
                        },
                    }
                    proof {
                        lemma_remove(self.accounts@, i as int);
                        lemma_total_covers(self.accounts@, i as int);
                        let rest = self.accounts@.remove(i as int);
                        assert forall|k: int| 0 <= k < rest.len() implies (#[trigger] rest[k]).lamports
                            >= self@.rent_minimum by {
                            lemma_lookup(rest, k);
                        }
                        lemma_total_at_least(rest, self@.rent_minimum);
                    }
                    let closed = self.accounts.remove(i);
                    self.admin_lamports = self.admin_lamports + closed.lamports;
                    Ok(())
                } else {
                    Ok(())
                }
            },
            None => Ok(()),
        }
    }

    /// What the ledger holds at `key`, as the transfer engine reads it.
    pub fn fetch(&self, key: &Address) -> (r: Option<ResolvedAccount>)
        requires
            self.wf(),
        ensures
            attached_view(r) == self@.fetched(key@),
    {
        match self.position(key) {
            Some(i) => {
                proof {
                    lemma_lookup(self.accounts@, i as int);
                }
                Some(ResolvedAccount { key: *key, data: self.accounts[i].record.to_bytes() })
            },
            None => None,
        }
    }

    /// The transfer engine's part in a transfer: it resolves the rule of the
    /// hook against the accounts of the transfer, reads the ledger at the
    /// address that the rule names, and hands the hook what it found.
    pub fn attach(&self, transfer: TransferAccounts) -> (hook: TransferHook)
        requires
            self.wf(),
        ensures
            hook.program_id@ == self@.program_id,
            hook.transfer == transfer,
            attached_view(hook.whitelist) == self@.attached(transfer.owner@),
    {
        let keys = transfer.keys();
        let seeds = whitelist_rule();
        proof {
            lemma_whitelist_rule_resolves(address_views(keys@), self.program_id@);
        }
        let whitelist = match resolve(&seeds, &keys, &self.program_id) {
            Some((address, _)) => self.fetch(&address),
            None => None,
        };
        TransferHook { program_id: self.program_id, transfer, whitelist }
    }

    /// A whole transfer, from the accounts that it brings to the hook's
    /// decision: it passes where the receiving owner is on the allow-list, and
    /// is aborted else.
    pub fn check_transfer(&self, transfer: TransferAccounts, amount: u64) -> (r: Result<(), HookError>)
        requires
            self.wf(),
        ensures
            r is Ok <==> self@.is_member(transfer.owner@),
            r matches Err(e) ==> e == HookError::ValidationRejection,
    {
        let hook = self.attach(transfer);
        proof {
            lemma_hook_follows_membership(self@, transfer.owner);
        }
        hook.transfer_hook(amount)
    }
}

proof fn lemma_total_prefix(accounts: Seq<StoredAccount>, n: int)
    requires
        0 <= n <= accounts.len(),
    ensures
        total_lamports(accounts.take(n)) <= total_lamports(accounts),
    decreases accounts.len() - n,
{
    if n < accounts.len() {
        lemma_total_prefix(accounts, n + 1);
        assert(accounts.take(n + 1).drop_last() =~= accounts.take(n));
    } else {
        assert(accounts.take(n) =~= accounts);
    }
}

/// The hook lets a transfer pass exactly where the receiving owner is on the
/// allow-list, given the account that the transfer engine attaches.
pub proof fn lemma_hook_follows_membership(store: StoreView, owner: Address)
    requires
        store.records_valid(),
    ensures
        allows(owner@, store.program_id, store.attached(owner@)) <==> store.is_member(owner@),
{
    Address::lemma_view_injective(owner, owner);
    match whitelist_address(owner@, store.program_id) {
        Some((address, bump)) => {
            if store.accounts.contains_key(address) {
                let record = store.accounts[address].record;
                record.lemma_round_trip();
            }
        },
        None => {},
    }
}


} // verus!
