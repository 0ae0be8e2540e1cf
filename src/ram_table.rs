use crate::b_field_element::{fpow, lemma_two_power_divides, primitive_root_table, BFieldElement, P};
use crate::x_field_element::XFieldElement;
use vstd::arithmetic::power2::{lemma2_to64, lemma_pow2_unfold, pow2};
use vstd::arithmetic::power::pow;
use vstd::prelude::*;

verus! {

/// Number of base columns of the RAM table.
pub const BASE_WIDTH: usize = 3;

/// Number of columns after extension; no extension columns are defined yet.
pub const FULL_WIDTH: usize = 0;

/// The data and parameters that every table carries.
#[derive(Debug, Clone)]
pub struct BaseTable<T> {
    pub base_width: usize,
    pub full_width: usize,
    pub padded_height: usize,
    pub num_randomizers: usize,
    pub omicron: T,
    pub generator: T,
    pub order: usize,
    pub matrix: Vec<Vec<T>>,
}

/// Whether `n` is `2^k` for some `k`.
pub open spec fn is_power_of_two(n: nat) -> bool {
    exists|k: nat| pow2(k) == n
}

/// The height a table of `height` rows is padded to: the smallest power of two that is
/// not below it, and zero for an empty table.
pub open spec fn padded_height_of(height: nat) -> nat {
    if height == 0 {
        0
    } else {
        choose|p: nat| is_power_of_two(p) && p >= height && (p == 1 || p / 2 < height)
    }
}

/// The padded height of a table of `height` rows, for `height <= 2^31`.
pub fn pad_height(height: usize) -> (r: usize)
    requires
        height <= 0x8000_0000,
    ensures
        height == 0 ==> r == 0,
        height > 0 ==> is_power_of_two(r as nat) && r >= height && (r == 1 || r / 2 < height),
        r <= 0x8000_0000,
{
    if height == 0 {
        return 0;
    }
    let mut p: usize = 1;
    let ghost mut k: nat = 0;
    proof {
        lemma2_to64();
    }
    while p < height
        invariant
            1 <= p <= 0x8000_0000,
            p == pow2(k),
            p == 1 || p / 2 < height,
            height <= 0x8000_0000,
            k <= 31,
        decreases 0x8000_0000 - p,
    {
        proof {
            lemma_pow2_unfold(k + 1);
            lemma2_to64();
            if k < 30 {
                vstd::arithmetic::power2::lemma_pow2_strictly_increases(k, 30);
            }
        }
        p = p * 2;
        proof {
            k = k + 1;
        }
    }
    p
}

/// The generator of the trace domain of a table padded to `padded_height` rows: one
/// for an empty table, else a primitive root of unity of that order (the tabulated one
/// for a power of two).
pub fn derive_omicron(padded_height: u64) -> (r: BFieldElement)
    requires
        padded_height <= 1 || (P - 1) as nat % (padded_height as nat) == 0,
    ensures
        padded_height <= 1 ==> r@ == 1,
        fpow(r@, padded_height as nat) == 1,
        forall|k: nat|
            1 <= k <= 32 && padded_height == pow2(k) ==> r@ == primitive_root_table(k),
{
    if padded_height == 0 {
        proof {
            assert forall|k: nat| 1 <= k <= 32 implies pow2(k) != 0 by {
                vstd::arithmetic::power2::lemma_pow2_pos(k);
            }
            vstd::arithmetic::power::lemma_pow0(1);
            vstd::arithmetic::div_mod::lemma_small_mod(1, P as nat);
            assert(pow(1int, 0) == 1);
        }
        return BFieldElement::ring_one();
    }
    let (root, _primes) = BFieldElement::get_primitive_root_of_unity(padded_height as u128);
    match root {
        Some(r) => r,
        None => BFieldElement::ring_one(),
    }
}

/// The base table of the RAM.
#[derive(Debug, Clone)]
pub struct RAMTable {
    base: BaseTable<BFieldElement>,
}

/// The RAM table after extension.
#[derive(Debug, Clone)]
pub struct ExtRAMTable {
    base: BaseTable<XFieldElement>,
}

impl RAMTable {
    pub closed spec fn spec_base(&self) -> BaseTable<BFieldElement> {
        self.base
    }

    /// A table for the verifier, who knows its padded height but not its rows.
    pub fn new_verifier(
        generator: BFieldElement,
        order: usize,
        num_randomizers: usize,
        padded_height: usize,
    ) -> (r: Self)
        requires
            padded_height <= 1 || (P - 1) as nat % (padded_height as nat) == 0,
        ensures
            r.spec_base().base_width == BASE_WIDTH,
            r.spec_base().full_width == FULL_WIDTH,
            r.spec_base().padded_height == padded_height,
            r.spec_base().num_randomizers == num_randomizers,
            r.spec_base().generator == generator,
            r.spec_base().order == order,
            r.spec_base().matrix@.len() == 0,
            padded_height <= 1 ==> r.spec_base().omicron@ == 1,
            forall|k: nat|
                1 <= k <= 32 && padded_height == pow2(k) ==> r.spec_base().omicron@
                    == primitive_root_table(k),
    {
        let omicron = derive_omicron(padded_height as u64);
        let base = BaseTable {
            base_width: BASE_WIDTH,
            full_width: FULL_WIDTH,
            padded_height,
            num_randomizers,
            omicron,
            generator,
            order,
            matrix: Vec::new(),
        };
        RAMTable { base }
    }

    /// A table for the prover, from its unpadded rows; the padded height is the next
    /// power of two.
    pub fn new_prover(
        generator: BFieldElement,
        order: usize,
        num_randomizers: usize,
        matrix: Vec<Vec<BFieldElement>>,
    ) -> (r: Self)
        requires
            matrix.len() <= 0x8000_0000,
        ensures
            r.spec_base().base_width == BASE_WIDTH,
            r.spec_base().full_width == FULL_WIDTH,
            matrix.len() == 0 ==> r.spec_base().padded_height == 0,
            matrix.len() > 0 ==> r.spec_base().padded_height as nat == padded_height_of(matrix.len() as nat),
            r.spec_base().num_randomizers == num_randomizers,
            r.spec_base().generator == generator,
            r.spec_base().order == order,
            r.spec_base().matrix@ == matrix@,
            forall|k: nat|
                1 <= k <= 32 && r.spec_base().padded_height == pow2(k) ==> r.spec_base().omicron@
                    == primitive_root_table(k),
    {
        let padded_height = pad_height(matrix.len());
        proof {
            lemma_tabulated(padded_height as nat);
            if matrix.len() > 0 {
                lemma_padded_height_unique(matrix.len() as nat, padded_height as nat);
            }
        }
        let omicron = derive_omicron(padded_height as u64);
        let base = BaseTable {
            base_width: BASE_WIDTH,
            full_width: FULL_WIDTH,
            padded_height,
            num_randomizers,
            omicron,
            generator,
            order,
            matrix,
        };
        RAMTable { base }
    }

    pub fn base_width(&self) -> (r: usize)
        ensures
            r == self.spec_base().base_width,
    {
        self.base.base_width
    }

    pub fn full_width(&self) -> (r: usize)
        ensures
            r == self.spec_base().full_width,
    {
        self.base.full_width
    }

    /// The rows of the table.
    pub fn data(&self) -> (r: &Vec<Vec<BFieldElement>>)
        ensures
            r@ == self.spec_base().matrix@,
    {
        &self.base.matrix
    }

    /// Pads a non-empty table with rows of `BASE_WIDTH` zeros up to the next power of
    /// two; an empty table stays empty.
    pub fn pad(&mut self)
        requires
            old(self).spec_base().matrix.len() <= 0x8000_0000,
        ensures
            final(self).spec_base().matrix.len() == if old(self).spec_base().matrix.len() == 0 {
                0
            } else {
                padded_height_of(old(self).spec_base().matrix.len() as nat)
            },
            forall|k: int|
                0 <= k < old(self).spec_base().matrix.len() ==> #[trigger] final(self).spec_base().matrix[k]
                    == old(self).spec_base().matrix[k],
            forall|k: int|
                old(self).spec_base().matrix.len() <= k < final(self).spec_base().matrix.len()
                    ==> #[trigger] final(self).spec_base().matrix[k]@.len() == BASE_WIDTH && forall|j: int|
                    0 <= j < BASE_WIDTH ==> final(self).spec_base().matrix[k]@[j]@ == 0,
            final(self).spec_base().base_width == old(self).spec_base().base_width,
            final(self).spec_base().full_width == old(self).spec_base().full_width,
            final(self).spec_base().padded_height == old(self).spec_base().padded_height,
    {
        let n = self.base.matrix.len();
        let target = pad_height(n);
        proof {
            if n > 0 {
                lemma_padded_height_unique(n as nat, target as nat);
            }
        }
        let ghost before = self.base.matrix@;
        while self.base.matrix.len() < target
            invariant
                n <= self.base.matrix.len() <= target,
                before.len() == n,
                forall|k: int| 0 <= k < n ==> #[trigger] self.base.matrix[k] == before[k],
                forall|k: int|
                    n <= k < self.base.matrix.len() ==> #[trigger] self.base.matrix[k]@.len() == BASE_WIDTH
                        && forall|j: int| 0 <= j < BASE_WIDTH ==> self.base.matrix[k]@[j]@ == 0,
                self.base.base_width == old(self).base.base_width,
                self.base.full_width == old(self).base.full_width,
                self.base.padded_height == old(self).base.padded_height,
            decreases target - self.base.matrix.len(),
        {
            let mut row: Vec<BFieldElement> = Vec::new();
            while row.len() < BASE_WIDTH
                invariant
                    row.len() <= BASE_WIDTH,
                    forall|j: int| 0 <= j < row.len() ==> row[j]@ == 0,
                decreases BASE_WIDTH - row.len(),
            {
                row.push(BFieldElement::ring_zero());
            }
            self.base.matrix.push(row);
        }
    }

    pub fn padded_height(&self) -> (r: usize)
        ensures
            r == self.spec_base().padded_height,
    {
        self.base.padded_height
    }

    pub fn name(&self) -> (r: String)
        ensures
            r@ == "RAMTable"@,
    {
        proof {
            reveal_strlit("RAMTable");
        }
        String::from_str("RAMTable")
    }
}

impl ExtRAMTable {
    pub closed spec fn spec_base(&self) -> BaseTable<XFieldElement> {
        self.base
    }

    /// An extension table with no rows, padded to `max_padded_height`.
    pub fn with_padded_height(
        generator: XFieldElement,
        order: usize,
        num_randomizers: usize,
        max_padded_height: usize,
    ) -> (r: Self)
        ensures
            r.spec_base().base_width == BASE_WIDTH,
            r.spec_base().full_width == FULL_WIDTH,
            r.spec_base().padded_height == max_padded_height,
            r.spec_base().num_randomizers == num_randomizers,
            r.spec_base().generator == generator,
            r.spec_base().order == order,
            r.spec_base().matrix@.len() == 0,
    {
        let base = BaseTable {
            base_width: BASE_WIDTH,
            full_width: FULL_WIDTH,
            padded_height: max_padded_height,
            num_randomizers,
            omicron: XFieldElement::ring_zero(),
            generator,
            order,
            matrix: Vec::new(),
        };
        ExtRAMTable { base }
    }

    pub fn base_width(&self) -> (r: usize)
        ensures
            r == self.spec_base().base_width,
    {
        self.base.base_width
    }

    pub fn full_width(&self) -> (r: usize)
        ensures
            r == self.spec_base().full_width,
    {
        self.base.full_width
    }

    pub fn name(&self) -> (r: String)
        ensures
            r@ == "ExtRAMTable"@,
    {
        proof {
            reveal_strlit("ExtRAMTable");
        }
        String::from_str("ExtRAMTable")
    }
}

proof fn lemma_tabulated(p: nat)
    requires
        p <= 0x8000_0000,
        p == 0 || is_power_of_two(p),
    ensures
        p <= 1 || (P - 1) as nat % p == 0,
{
    if p > 1 {
        let k = choose|k: nat| pow2(k) == p;
        lemma2_to64();
        if k == 0 {
        } else if k > 32 {
            vstd::arithmetic::power2::lemma_pow2_strictly_increases(32, k);
        }
        assert(1 <= k <= 32 && p == pow2(k));
        lemma_two_power_divides(k);
    }
}

proof fn lemma_padded_height_unique(h: nat, p: nat)
    requires
        h > 0,
        is_power_of_two(p) && p >= h && (p == 1 || p / 2 < h),
    ensures
        padded_height_of(h) == p,
{
    let q = padded_height_of(h);
    assert(is_power_of_two(q) && q >= h && (q == 1 || q / 2 < h));
    let a = choose|k: nat| pow2(k) == p;
    let b = choose|k: nat| pow2(k) == q;
    if a < b {
        vstd::arithmetic::power2::lemma_pow2_strictly_increases(a, b);
        lemma_pow2_unfold(b);
        if a < b - 1 {
            vstd::arithmetic::power2::lemma_pow2_strictly_increases(a, (b - 1) as nat);
        }
    } else if b < a {
        vstd::arithmetic::power2::lemma_pow2_strictly_increases(b, a);
        lemma_pow2_unfold(a);
        if b < a - 1 {
            vstd::arithmetic::power2::lemma_pow2_strictly_increases(b, (a - 1) as nat);
        }
    }
}

} // verus!
