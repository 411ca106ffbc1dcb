use vstd::prelude::*;

verus! {

/// One ingredient of a derived address, as a resolution rule names it.
#[derive(Debug)]
pub enum Seed {
    /// The given bytes, as they are.
    Literal { bytes: Vec<u8> },
    /// The address of the account at the given position of the transfer's
    /// account list.
    AccountKey { index: u8 },
}

/// What a seed says, as a mathematical value.
pub ghost enum SeedView {
    Literal { bytes: Seq<u8> },
    AccountKey { index: u8 },
}

impl View for Seed {
    type V = SeedView;

    open spec fn view(&self) -> SeedView {
        match self {
            Seed::Literal { bytes } => SeedView::Literal { bytes: bytes@ },
            Seed::AccountKey { index } => SeedView::AccountKey { index: *index },
        }
    }
}

impl DeepView for Seed {
    type V = SeedView;

    open spec fn deep_view(&self) -> SeedView {
        self@
    }
}

impl SeedView {
    /// The packed form of a seed: a tag, then for a literal its length and
    /// its bytes, for an account key its position.
    pub open spec fn packed(self) -> Seq<u8> {
        match self {
            SeedView::Literal { bytes } => seq![1u8, bytes.len() as u8] + bytes,
            SeedView::AccountKey { index } => seq![3u8, index],
        }
    }

    /// Number of bytes of the packed form.
    pub open spec fn packed_len(self) -> nat {
        match self {
            SeedView::Literal { bytes } => 2 + bytes.len(),
            SeedView::AccountKey { index } => 2,
        }
    }

    /// The bytes that the seed stands for in a transfer whose accounts have
    /// the addresses `keys`, in order.
    pub open spec fn value(self, keys: Seq<Seq<u8>>) -> Seq<u8> {
        match self {
            SeedView::Literal { bytes } => bytes,
            SeedView::AccountKey { index } => keys[index as int],
        }
    }
}

/// The packed forms of the seeds, one after the other.
pub open spec fn packed_seeds(seeds: Seq<SeedView>) -> Seq<u8>
    decreases seeds.len(),
{
    if seeds.len() == 0 {
        Seq::empty()
    } else {
        packed_seeds(seeds.drop_last()) + seeds.last().packed()
    }
}

/// The 32 bytes that stand for the seeds in a rule: their packed forms,
/// then zeros. Meant for seeds whose packed forms take at most 32 bytes.
pub open spec fn address_config(seeds: Seq<SeedView>) -> Seq<u8> {
    packed_seeds(seeds) + Seq::new((32 - packed_seeds(seeds).len()) as nat, |i: int| 0u8)
}

/// Whether the seeds fit a rule.
pub open spec fn seeds_fit(seeds: Seq<SeedView>) -> bool {
    packed_seeds(seeds).len() <= 32
}

/// The packed form of a seed is as long as `packed_len` says.
pub proof fn lemma_packed_len(seed: SeedView)
    ensures
        seed.packed().len() == seed.packed_len(),
{
}

/// Seeds packed together are at least as long as each of them packed alone.
pub proof fn lemma_packed_seeds_covers(seeds: Seq<SeedView>, i: int)
    requires
        0 <= i < seeds.len(),
    ensures
        packed_seeds(seeds).len() >= seeds[i].packed_len(),
    decreases seeds.len(),
{
    lemma_packed_len(seeds.last());
    if i < seeds.len() - 1 {
        lemma_packed_seeds_covers(seeds.drop_last(), i);
    }
}

} // verus!
