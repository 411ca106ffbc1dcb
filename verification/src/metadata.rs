use vstd::prelude::*;
use crate::resolver::ExtraAccountMeta;
use crate::error::HookError;
use spl_tlv_account_resolution::solana_program_error::ProgramError;

verus! {

/// Type tag under which the rules of the transfer hook's `execute`
/// instruction are stored: the first eight bytes of the SHA-256 digest of
/// `spl-transfer-hook-interface:execute`.
pub const EXECUTE_DISCRIMINATOR: [u8; 8] = [105, 37, 101, 197, 75, 251, 102, 26];

/// Bytes of one stored rule.
pub const RULE_LEN: usize = 35;

/// Bytes of stored resolver metadata before its first rule: the type tag,
/// the length of what follows, and the number of rules.
pub const HEADER_LEN: usize = 16;

/// The largest number of rules whose metadata can be written: its length
/// field has four bytes.
pub const MAX_RULES: usize = 122_713_351;

/// The four bytes of `n`, least significant first.
pub open spec fn le_u32(n: nat) -> Seq<u8> {
    seq![
        (n % 256) as u8,
        ((n / 256) % 256) as u8,
        ((n / 65536) % 256) as u8,
        ((n / 16777216) % 256) as u8,
    ]
}

/// The byte that stands for a flag.
pub open spec fn flag_byte(b: bool) -> u8 {
    if b { 1 } else { 0 }
}

/// The 35 bytes of one stored rule.
pub open spec fn rule_bytes(meta: ExtraAccountMeta) -> Seq<u8> {
    seq![meta.discriminator] + meta.address_config@ + seq![
        flag_byte(meta.is_signer),
        flag_byte(meta.is_writable),
    ]
}

/// The bytes of the rules, one after the other.
pub open spec fn rules_bytes(metas: Seq<ExtraAccountMeta>) -> Seq<u8>
    decreases metas.len(),
{
    if metas.len() == 0 {
        Seq::empty()
    } else {
        rules_bytes(metas.drop_last()) + rule_bytes(metas.last())
    }
}

/// Number of bytes that the metadata of `n` rules takes.
pub open spec fn metadata_len(n: nat) -> nat {
    16 + 35 * n
}

/// Stored resolver metadata: the type tag, the number of bytes that follow
/// the length field, the number of rules, then the rules.
pub open spec fn metadata_bytes(metas: Seq<ExtraAccountMeta>) -> Seq<u8> {
    EXECUTE_DISCRIMINATOR@ + le_u32(4 + 35 * metas.len()) + le_u32(metas.len()) + rules_bytes(
        metas,
    )
}

/// `n` zero bytes.
pub open spec fn zeros(n: nat) -> Seq<u8> {
    Seq::new(n, |i: int| 0u8)
}

/// Whether every byte is zero: storage as it is handed out, never written.
pub open spec fn is_blank(data: Seq<u8>) -> bool {
    forall|i: int| 0 <= i < data.len() ==> data[i] == 0
}

/// Whether blank storage of `space` bytes can take the metadata of `n` rules.
pub open spec fn metadata_fits(n: nat, space: nat) -> bool {
    n <= MAX_RULES && metadata_len(n) <= space
}

pub proof fn lemma_rules_bytes_len(metas: Seq<ExtraAccountMeta>)
    ensures
        rules_bytes(metas).len() == 35 * metas.len(),
    decreases metas.len(),
{
    if metas.len() > 0 {
        lemma_rules_bytes_len(metas.drop_last());
    }
}

/// Stored metadata is as long as `metadata_len` says.
pub proof fn lemma_metadata_bytes_len(metas: Seq<ExtraAccountMeta>)
    ensures
        metadata_bytes(metas).len() == metadata_len(metas.len()),
{
    lemma_rules_bytes_len(metas);
}

/// The resolver metadata of an asset, as it lies in storage.
pub struct ExtraAccountMetaList;

impl ExtraAccountMetaList {
    /// Number of bytes to reserve for the metadata of `num_items` rules.
    /// Fails where that number does not fit a `usize`.
    pub fn size_of(num_items: usize) -> (r: Result<usize, HookError>)
        ensures
            r is Ok <==> metadata_len(num_items as nat) <= usize::MAX,
            r matches Ok(n) ==> n == metadata_len(num_items as nat),
            r matches Err(e) ==> e == HookError::SerializationSizingFailure,
    {
        if num_items > (usize::MAX - HEADER_LEN) / RULE_LEN {
            return Err(HookError::SerializationSizingFailure);
        }
        match metadata_size(num_items) {
            Ok(n) => Ok(n),
            Err(_) => Err(HookError::SerializationSizingFailure),
        }
    }

    /// Whether no byte of `data` was ever written.
    pub fn is_blank(data: &Vec<u8>) -> (r: bool)
        ensures
            r == is_blank(data@),
    {
        let mut i: usize = 0;
        while i < data.len()
            invariant
                i <= data@.len(),
                forall|k: int| 0 <= k < i ==> data@[k] == 0,
            decreases data@.len() - i,
        {
            if data[i] != 0 {
                return false;
            }
            i += 1;
        }
        true
    }

    /// Writes the rules into blank storage, once and for all: storage that
    /// holds anything already is refused, and so are rules that do not fit.
    /// On failure nothing is written.
    pub fn init(data: &mut Vec<u8>, extra_account_metas: &Vec<ExtraAccountMeta>) -> (r: Result<(), HookError>)
        ensures
            r is Ok <==> is_blank(old(data)@) && metadata_fits(
                extra_account_metas@.len(),
                old(data)@.len(),
            ),
            r is Ok ==> final(data)@ == metadata_bytes(extra_account_metas@) + zeros(
                (old(data)@.len() - metadata_len(extra_account_metas@.len())) as nat,
            ),
            r is Err ==> final(data)@ == old(data)@,
            final(data)@.len() == old(data)@.len(),
            r matches Err(e) ==> e == (if is_blank(old(data)@) {
                HookError::SerializationSizingFailure
            } else {
                HookError::DuplicateOrMissingEntry
            }),
    {
        if !Self::is_blank(data) {
            return Err(HookError::DuplicateOrMissingEntry);
        }
        let n = extra_account_metas.len();
        if n > MAX_RULES || data.len() < HEADER_LEN || (data.len() - HEADER_LEN) / RULE_LEN < n {
            return Err(HookError::SerializationSizingFailure);
        }
        proof {
            lemma_metadata_bytes_len(extra_account_metas@);
        }
        match write_execute_metadata(data, extra_account_metas) {
            Ok(()) => Ok(()),
            Err(_) => Err(HookError::SerializationSizingFailure),
        }
    }
}

/// Calls `ExtraAccountMetaList::size_of` of spl-tlv-account-resolution.
/// Believed of it: it fails exactly where 35 bytes for each item and 4 more
/// do not fit a `usize`, and else gives that number and 12, or the largest
/// `usize` if the sum does not fit.
#[verifier::external_body]
fn metadata_size(num_items: usize) -> (r: Result<usize, ProgramError>)
    ensures
        r is Ok <==> 35 * num_items + 4 <= usize::MAX,
        r matches Ok(n) ==> n == (if metadata_len(num_items as nat) <= usize::MAX {
            metadata_len(num_items as nat)
        } else {
            usize::MAX as nat
        }),
{
    spl_tlv_account_resolution::state::ExtraAccountMetaList::size_of(num_items)
}

/// Calls `ExtraAccountMetaList::init` of spl-tlv-account-resolution for the
/// `ExecuteInstruction` of spl-transfer-hook-interface. Believed of it, on
/// blank storage that has room: it succeeds, writes the type tag at the
/// start, in the next four bytes the number of bytes that it takes after
/// them, then the number of rules in four bytes and each rule in 35, and
/// leaves the rest as it was.
#[verifier::external_body]
fn write_execute_metadata(data: &mut Vec<u8>, metas: &Vec<ExtraAccountMeta>) -> (r: Result<(), ProgramError>)
    requires
        is_blank(old(data)@),
        metadata_fits(metas@.len(), old(data)@.len()),
    ensures
        r is Ok,
        final(data)@ == metadata_bytes(metas@) + zeros(
            (old(data)@.len() - metadata_len(metas@.len())) as nat,
        ),
{
    let outside: Vec<spl_tlv_account_resolution::account::ExtraAccountMeta> = metas.iter().map(|meta| spl_tlv_account_resolution::account::ExtraAccountMeta {
        discriminator: meta.discriminator,
        address_config: meta.address_config,
        is_signer: meta.is_signer.into(),
        is_writable: meta.is_writable.into(),
    }).collect();
    spl_tlv_account_resolution::state::ExtraAccountMetaList::init::<spl_transfer_hook_interface::instruction::ExecuteInstruction>(data.as_mut_slice(), &outside)
}

} // verus!
