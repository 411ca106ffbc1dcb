use vstd::prelude::*;
use crate::address::Address;

verus! {

/// Type tag at the start of a stored allow-list record: the first eight
/// bytes of the SHA-256 digest of `account:Whitelist`.
pub const WHITELIST_DISCRIMINATOR: [u8; 8] = [204, 176, 52, 79, 146, 121, 54, 247];

/// Bytes of a stored allow-list record: the type tag, the identity, the
/// bump and the status flag.
pub const WHITELIST_SPACE: usize = 42;

/// The allow-list record of one identity.
#[derive(Clone, Copy, Debug, Eq)]
pub struct Whitelist {
    /// The identity that may receive.
    pub user: Address,
    /// The bump of the address at which the record lives.
    pub bump: u8,
    /// Whether the identity is allowed. A record that exists says so.
    pub is_whitelisted: bool,
}

/// What a record says, as a mathematical value.
pub ghost struct WhitelistView {
    pub user: Seq<u8>,
    pub bump: u8,
    pub is_whitelisted: bool,
}

impl View for Whitelist {
    type V = WhitelistView;

    open spec fn view(&self) -> WhitelistView {
        WhitelistView {
            user: self.user@,
            bump: self.bump,
            is_whitelisted: self.is_whitelisted,
        }
    }
}

impl PartialEq for Whitelist {
    fn eq(&self, other: &Whitelist) -> (r: bool) {
        self.user == other.user && self.bump == other.bump && self.is_whitelisted
            == other.is_whitelisted
    }
}

impl vstd::std_specs::cmp::PartialEqSpecImpl for Whitelist {
    open spec fn obeys_eq_spec() -> bool {
        true
    }

    open spec fn eq_spec(&self, other: &Whitelist) -> bool {
        self@ == other@
    }
}

/// Whether `data` holds a stored record: long enough, with the type tag at
/// its start and a status byte that is 0 or 1. What follows the record is
/// not looked at.
pub open spec fn is_record(data: Seq<u8>) -> bool {
    &&& data.len() >= 42
    &&& data.subrange(0, 8) == WHITELIST_DISCRIMINATOR@
    &&& data[41] <= 1
}

impl WhitelistView {
    /// The stored form of the record.
    pub open spec fn packed(self) -> Seq<u8> {
        WHITELIST_DISCRIMINATOR@ + self.user + seq![
            self.bump,
            if self.is_whitelisted { 1u8 } else { 0u8 },
        ]
    }

    /// Whether `data` holds this record.
    pub open spec fn is_stored_in(self, data: Seq<u8>) -> bool {
        &&& is_record(data)
        &&& self.user == data.subrange(8, 40)
        &&& self.bump == data[40]
        &&& self.is_whitelisted == (data[41] == 1)
    }

    /// What was stored is what is read back.
    pub proof fn lemma_round_trip(self)
        requires
            self.user.len() == 32,
        ensures
            is_record(self.packed()),
            self.is_stored_in(self.packed()),
    {
        let data = self.packed();
        assert(data.subrange(0, 8) =~= WHITELIST_DISCRIMINATOR@);
        assert(data.subrange(8, 40) =~= self.user);
    }
}

impl Whitelist {
    /// The record of storage that was never written.
    pub fn blank() -> (w: Whitelist)
        ensures
            w@ == (WhitelistView { user: Seq::new(32, |i: int| 0u8), bump: 0, is_whitelisted: false }),
    {
        let w = Whitelist { user: Address { bytes: [0u8; 32] }, bump: 0, is_whitelisted: false };
        assert(w.user@ =~= Seq::new(32, |i: int| 0u8));
        w
    }

    /// The record that allows `user`.
    pub fn new(user: Address, bump: u8) -> (w: Whitelist)
        ensures
            w@ == (WhitelistView { user: user@, bump, is_whitelisted: true }),
    {
        Whitelist { user, bump, is_whitelisted: true }
    }

    /// The stored form of the record.
    pub fn to_bytes(&self) -> (data: Vec<u8>)
        ensures
            data@ == self@.packed(),
            data@.len() == 42,
    {
        let mut data: Vec<u8> = Vec::new();
        let mut i: usize = 0;
        while i < 8
            invariant
                i <= 8,
                data@.len() == i,
                forall|k: int| 0 <= k < i ==> data@[k] == WHITELIST_DISCRIMINATOR[k],
            decreases 8 - i,
        {
            data.push(WHITELIST_DISCRIMINATOR[i]);
            i += 1;
        }
        let mut j: usize = 0;
        while j < 32
            invariant
                j <= 32,
                data@.len() == 8 + j,
                forall|k: int| 0 <= k < 8 ==> data@[k] == WHITELIST_DISCRIMINATOR[k],
                forall|k: int| 0 <= k < j ==> data@[8 + k] == self.user.bytes[k],
            decreases 32 - j,
        {
            data.push(self.user.bytes[j]);
            j += 1;
        }
        data.push(self.bump);
        data.push(if self.is_whitelisted { 1 } else { 0 });
        assert(data@ =~= self@.packed());
        data
    }

    /// Reads a record from stored bytes; `None` where they hold none.
    pub fn from_bytes(data: &Vec<u8>) -> (r: Option<Whitelist>)
        ensures
            r is Some <==> is_record(data@),
            r matches Some(w) ==> w@.is_stored_in(data@),
    {
        if data.len() < WHITELIST_SPACE {
            return None;
        }
        let mut i: usize = 0;
        while i < 8
            invariant
                i <= 8,
                data@.len() >= 42,
                forall|k: int| 0 <= k < i ==> data@[k] == WHITELIST_DISCRIMINATOR[k],
            decreases 8 - i,
        {
            if data[i] != WHITELIST_DISCRIMINATOR[i] {
                assert(data@.subrange(0, 8)[i as int] != WHITELIST_DISCRIMINATOR@[i as int]);
                return None;
            }
            i += 1;
        }
        assert(data@.subrange(0, 8) =~= WHITELIST_DISCRIMINATOR@);
        if data[41] > 1 {
            return None;
        }
        let mut bytes: [u8; 32] = [0u8; 32];
        let mut j: usize = 0;
        while j < 32
            invariant
                j <= 32,
                data@.len() >= 42,
                forall|k: int| 0 <= k < j ==> bytes[k] == data@[8 + k],
            decreases 32 - j,
        {
            bytes[j] = data[8 + j];
            j += 1;
        }
        assert(bytes@ =~= data@.subrange(8, 40));
        Some(Whitelist { user: Address { bytes }, bump: data[40], is_whitelisted: data[41] == 1 })
    }
}

} // verus!
