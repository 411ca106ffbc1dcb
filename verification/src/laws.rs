use vstd::prelude::*;
use crate::address::Address;
use crate::instructions::transfer_hook::allows;
use crate::pda::whitelist_address;
use crate::resolver::{is_whitelist_rules, ExtraAccountMeta};
use crate::store::{lemma_hook_follows_membership, StoreView};

verus! {

/// One change to an allow-list.
pub ghost enum Operation {
    Add { user: Address },
    Remove { user: Address },
}

impl StoreView {
    /// The allow-list after one change.
    pub open spec fn after(self, op: Operation) -> StoreView {
        match op {
            Operation::Add { user } => self.after_add(user@),
            Operation::Remove { user } => self.after_remove(user@),
        }
    }

    /// The allow-list after the changes, made in order.
    pub open spec fn after_all(self, ops: Seq<Operation>) -> StoreView
        decreases ops.len(),
    {
        if ops.len() == 0 {
            self
        } else {
            self.after_all(ops.drop_last()).after(ops.last())
        }
    }
}

/// A change leaves every record in order.
pub proof fn lemma_records_stay_valid(store: StoreView, op: Operation)
    requires
        store.records_valid(),
    ensures
        store.after(op).records_valid(),
{
    match op {
        Operation::Add { user } => {
            Address::lemma_view_injective(user, user);
        },
        Operation::Remove { user } => {},
    }
}

/// Adding or removing one identity does not change whether another is on
/// the allow-list.
pub proof fn law_others_untouched(store: StoreView, op: Operation, x: Address)
    requires
        op != (Operation::Add { user: x }),
        op != (Operation::Remove { user: x }),
    ensures
        store.after(op).is_member(x@) == store.is_member(x@),
{
    match op {
        Operation::Add { user } => {
            Address::lemma_view_injective(user, x);
        },
        Operation::Remove { user } => {
            Address::lemma_view_injective(user, x);
        },
    }
}

/// An allow-list without records has no member, and its hook rejects every
/// transfer.
pub proof fn law_empty_rejects(store: StoreView, x: Address)
    requires
        store.accounts == Map::<Seq<u8>, crate::store::AccountView>::empty(),
    ensures
        !store.is_member(x@),
        !allows(x@, store.program_id, store.attached(x@)),
{
}

/// An identity that is not on the allow-list and is not added stays off it,
/// whatever else is added and removed, and a transfer to it is rejected.
pub proof fn law_never_added_is_rejected(store: StoreView, ops: Seq<Operation>, x: Address)
    requires
        store.records_valid(),
        !store.is_member(x@),
        forall|i: int| 0 <= i < ops.len() ==> ops[i] != (Operation::Add { user: x }),
    ensures
        store.after_all(ops).records_valid(),
        !store.after_all(ops).is_member(x@),
        !allows(x@, store.after_all(ops).program_id, store.after_all(ops).attached(x@)),
    decreases ops.len(),
{
    if ops.len() > 0 {
        let before = store.after_all(ops.drop_last());
        law_never_added_is_rejected(store, ops.drop_last(), x);
        lemma_records_stay_valid(before, ops.last());
        if ops.last() != (Operation::Remove { user: x }) {
            law_others_untouched(before, ops.last(), x);
        }
    }
    lemma_hook_follows_membership(store.after_all(ops), x);
}

/// Once an identity was added, it is on the allow-list, and a transfer to
/// it passes.
pub proof fn law_added_is_allowed(store: StoreView, x: Address)
    requires
        store.records_valid(),
        store.add_outcome(x@) is Ok,
    ensures
        store.after_add(x@).is_member(x@),
        allows(x@, store.after_add(x@).program_id, store.after_add(x@).attached(x@)),
{
    lemma_records_stay_valid(store, Operation::Add { user: x });
    lemma_hook_follows_membership(store.after_add(x@), x);
}

/// Adding an identity twice is adding it once: the second time nothing is
/// made, nothing is paid, and nothing fails that did not fail before.
pub proof fn law_add_is_idempotent(store: StoreView, x: Address)
    ensures
        store.after_add(x@).after_add(x@) == store.after_add(x@),
        store.add_outcome(x@) is Ok ==> store.after_add(x@).add_outcome(x@) is Ok,
{
}

/// Removing an identity that is not on the allow-list changes nothing.
pub proof fn law_remove_of_non_member(store: StoreView, x: Address)
    requires
        !store.is_member(x@),
    ensures
        store.after_remove(x@) == store,
{
}

/// An identity that was removed is not on the allow-list.
pub proof fn law_removed_is_no_member(store: StoreView, x: Address)
    ensures
        !store.after_remove(x@).is_member(x@),
{
}

/// Adding an identity and removing it again leaves the allow-list as it was
/// before: the record is gone, and what was reserved for it is back with the
/// administrative authority.
pub proof fn law_add_then_remove(store: StoreView, x: Address)
    requires
        !store.is_member(x@),
    ensures
        store.after_add(x@).after_remove(x@) == store,
{
    if store.add_outcome(x@) is Ok {
        let (address, bump) = whitelist_address(x@, store.program_id).unwrap();
        assert(store.accounts.insert(address, store.after_add(x@).accounts[address]).remove(address)
            =~= store.accounts);
    }
}

/// After an identity was added, the funds are in order as before: the new
/// record has at least the minimum reserved, and all records together have
/// at least the minimum for their number.
pub proof fn law_reserve_covers_storage(store: StoreView, x: Address)
    requires
        store.funds_valid(),
    ensures
        store.after_add(x@).funds_valid(),
        store.after_add(x@).reserved >= store.after_add(x@).rent_minimum * store.after_add(
            x@,
        ).records,
        store.after_add(x@).admin_lamports + store.after_add(x@).reserved == store.admin_lamports
            + store.reserved,
{
    assert(store.rent_minimum * (store.records + 1) == store.rent_minimum * store.records
        + store.rent_minimum) by (nonlinear_arith);
}

/// The rule list of the hook is one list: whoever computes it, and however
/// often, gets the same rules.
pub proof fn law_rule_list_is_unique(a: Seq<ExtraAccountMeta>, b: Seq<ExtraAccountMeta>)
    requires
        is_whitelist_rules(a),
        is_whitelist_rules(b),
    ensures
        a == b,
{
    ExtraAccountMeta::lemma_derived_unique(a[0], b[0], crate::resolver::whitelist_rule_seeds(), false, false);
    assert(a =~= b);
}

} // verus!
