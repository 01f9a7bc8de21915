use vstd::prelude::*;
use ark_crypto_primitives::crh::poseidon::CRH;
use ark_crypto_primitives::crh::CRHScheme;
use ark_crypto_primitives::sponge::poseidon::{find_poseidon_ark_and_mds, PoseidonConfig};
use ark_ff::{BigInt, PrimeField};
use ark_bn254::Fr;
use crate::field::Fe;

verus! {

/// One row of the table of Poseidon parameters: the rate it serves, the S-box
/// exponent, the numbers of full and partial rounds, and how many candidate
/// MDS matrices to skip.
#[derive(Clone, Copy, Debug, PartialEq, Eq, Structural)]
pub struct PoseidonEntry {
    pub rate: usize,
    pub alpha: u64,
    pub full_rounds: usize,
    pub partial_rounds: usize,
    pub skip_matrices: usize,
}

/// Parameters of the Poseidon sponge over the scalar field.
#[derive(Clone, Debug)]
pub struct PoseidonParams {
    pub full_rounds: usize,
    pub partial_rounds: usize,
    pub alpha: u64,
    pub ark: Vec<Vec<Fe>>,
    pub mds: Vec<Vec<Fe>>,
    pub rate: usize,
    pub capacity: usize,
}

/// The limbs of every element of a matrix of field elements.
pub open spec fn matrix_view(m: Seq<Vec<Fe>>) -> Seq<Seq<Seq<u64>>> {
    Seq::new(m.len(), |i: int| m[i]@.map_values(|x: Fe| x@))
}

/// Every element of the matrix is canonical.
pub open spec fn matrix_wf(m: Seq<Vec<Fe>>) -> bool {
    forall|i: int, j: int| 0 <= i < m.len() && 0 <= j < m[i]@.len() ==> (#[trigger] m[i]@[j]).wf()
}

/// The matrix has `rows` rows of `cols` elements each.
pub open spec fn matrix_shape(m: Seq<Vec<Fe>>, rows: nat, cols: nat) -> bool {
    &&& m.len() == rows
    &&& forall|i: int| 0 <= i < m.len() ==> (#[trigger] m[i]@).len() == cols
}

/// The round constants and MDS matrix that the Grain LFSR yields for the
/// scalar field and the given rate, round counts and number of skipped
/// matrices.
pub uninterp spec fn ark_and_mds_of(rate: nat, full_rounds: nat, partial_rounds: nat, skip: nat) -> (
    Seq<Seq<Seq<u64>>>,
    Seq<Seq<Seq<u64>>>,
);

/// The Poseidon hash of `input` (absorbed, then one element squeezed) under
/// the given parameters.
pub uninterp spec fn poseidon_of(
    full_rounds: nat,
    partial_rounds: nat,
    alpha: nat,
    ark: Seq<Seq<Seq<u64>>>,
    mds: Seq<Seq<Seq<u64>>>,
    rate: nat,
    capacity: nat,
    input: Seq<Seq<u64>>,
) -> Seq<u64>;

/// The parameter table for rates 2 to 8, for constraint count or for weights.
pub open spec fn entry_table(optimized_for_weights: bool) -> Seq<PoseidonEntry> {
    if !optimized_for_weights {
        seq![
            PoseidonEntry { rate: 2, alpha: 17, full_rounds: 8, partial_rounds: 31, skip_matrices: 0 },
            PoseidonEntry { rate: 3, alpha: 5, full_rounds: 8, partial_rounds: 56, skip_matrices: 0 },
            PoseidonEntry { rate: 4, alpha: 5, full_rounds: 8, partial_rounds: 56, skip_matrices: 0 },
            PoseidonEntry { rate: 5, alpha: 5, full_rounds: 8, partial_rounds: 57, skip_matrices: 0 },
            PoseidonEntry { rate: 6, alpha: 5, full_rounds: 8, partial_rounds: 57, skip_matrices: 0 },
            PoseidonEntry { rate: 7, alpha: 5, full_rounds: 8, partial_rounds: 57, skip_matrices: 0 },
            PoseidonEntry { rate: 8, alpha: 5, full_rounds: 8, partial_rounds: 57, skip_matrices: 0 },
        ]
    } else {
        seq![
            PoseidonEntry { rate: 2, alpha: 257, full_rounds: 8, partial_rounds: 13, skip_matrices: 0 },
            PoseidonEntry { rate: 3, alpha: 257, full_rounds: 8, partial_rounds: 13, skip_matrices: 0 },
            PoseidonEntry { rate: 4, alpha: 257, full_rounds: 8, partial_rounds: 13, skip_matrices: 0 },
            PoseidonEntry { rate: 5, alpha: 257, full_rounds: 8, partial_rounds: 13, skip_matrices: 0 },
            PoseidonEntry { rate: 6, alpha: 257, full_rounds: 8, partial_rounds: 13, skip_matrices: 0 },
            PoseidonEntry { rate: 7, alpha: 257, full_rounds: 8, partial_rounds: 13, skip_matrices: 0 },
            PoseidonEntry { rate: 8, alpha: 257, full_rounds: 8, partial_rounds: 13, skip_matrices: 0 },
        ]
    }
}

/// The entry of the table for `rate`: the one at index `rate - 2`.
pub open spec fn entry_for(rate: usize, optimized_for_weights: bool) -> PoseidonEntry {
    entry_table(optimized_for_weights)[rate - 2]
}

/// The parameters that the table entry for `rate` gives, with capacity one.
pub open spec fn spec_params(rate: usize, optimized_for_weights: bool) -> (
    nat,
    nat,
    nat,
    Seq<Seq<Seq<u64>>>,
    Seq<Seq<Seq<u64>>>,
    nat,
    nat,
) {
    let e = entry_for(rate, optimized_for_weights);
    let am = ark_and_mds_of(
        e.rate as nat,
        e.full_rounds as nat,
        e.partial_rounds as nat,
        e.skip_matrices as nat,
    );
    (e.full_rounds as nat, e.partial_rounds as nat, e.alpha as nat, am.0, am.1, e.rate as nat, 1)
}

impl PoseidonParams {
    /// The parameters as plain values.
    pub open spec fn spec_view(&self) -> (
        nat,
        nat,
        nat,
        Seq<Seq<Seq<u64>>>,
        Seq<Seq<Seq<u64>>>,
        nat,
        nat,
    ) {
        (
            self.full_rounds as nat,
            self.partial_rounds as nat,
            self.alpha as nat,
            matrix_view(self.ark@),
            matrix_view(self.mds@),
            self.rate as nat,
            self.capacity as nat,
        )
    }

    /// The shapes that the sponge indexes by: one row of round constants per
    /// round, a square MDS matrix over the state, a positive rate, and every
    /// element canonical.
    pub open spec fn wf(&self) -> bool {
        &&& self.rate >= 1
        &&& self.full_rounds + self.partial_rounds <= usize::MAX
        &&& self.rate + self.capacity <= usize::MAX
        &&& matrix_shape(
            self.ark@,
            (self.full_rounds + self.partial_rounds) as nat,
            (self.rate + self.capacity) as nat,
        )
        &&& matrix_shape(
            self.mds@,
            (self.rate + self.capacity) as nat,
            (self.rate + self.capacity) as nat,
        )
        &&& matrix_wf(self.ark@)
        &&& matrix_wf(self.mds@)
    }

    /// The hash of a sequence of field elements under these parameters.
    pub open spec fn spec_hash(&self, input: Seq<Fe>) -> Fe {
        let v = self.spec_view();
        Fe::from_limbs(poseidon_of(v.0, v.1, v.2, v.3, v.4, v.5, v.6, input.map_values(|x: Fe| x@)))
    }

    /// Hashes `input` with the Poseidon sponge under these parameters.
    pub fn hash(&self, input: &Vec<Fe>) -> (r: Fe)
        requires
            self.wf(),
            forall|i: int| 0 <= i < input@.len() ==> (#[trigger] input@[i]).wf(),
        ensures
            r == self.spec_hash(input@),
            r.wf(),
    {
        let r = poseidon_hash(self, input);
        proof {
            r.lemma_view_roundtrip();
        }
        r
    }
}

/// The table of parameter entries.
fn entries(optimized_for_weights: bool) -> (r: Vec<PoseidonEntry>)
    ensures
        r@ == entry_table(optimized_for_weights),
{
    let mut v: Vec<PoseidonEntry> = Vec::new();
    if !optimized_for_weights {
        v.push(PoseidonEntry { rate: 2, alpha: 17, full_rounds: 8, partial_rounds: 31, skip_matrices: 0 });
        v.push(PoseidonEntry { rate: 3, alpha: 5, full_rounds: 8, partial_rounds: 56, skip_matrices: 0 });
        v.push(PoseidonEntry { rate: 4, alpha: 5, full_rounds: 8, partial_rounds: 56, skip_matrices: 0 });
        v.push(PoseidonEntry { rate: 5, alpha: 5, full_rounds: 8, partial_rounds: 57, skip_matrices: 0 });
        v.push(PoseidonEntry { rate: 6, alpha: 5, full_rounds: 8, partial_rounds: 57, skip_matrices: 0 });
        v.push(PoseidonEntry { rate: 7, alpha: 5, full_rounds: 8, partial_rounds: 57, skip_matrices: 0 });
        v.push(PoseidonEntry { rate: 8, alpha: 5, full_rounds: 8, partial_rounds: 57, skip_matrices: 0 });
    } else {
        v.push(PoseidonEntry { rate: 2, alpha: 257, full_rounds: 8, partial_rounds: 13, skip_matrices: 0 });
        v.push(PoseidonEntry { rate: 3, alpha: 257, full_rounds: 8, partial_rounds: 13, skip_matrices: 0 });
        v.push(PoseidonEntry { rate: 4, alpha: 257, full_rounds: 8, partial_rounds: 13, skip_matrices: 0 });
        v.push(PoseidonEntry { rate: 5, alpha: 257, full_rounds: 8, partial_rounds: 13, skip_matrices: 0 });
        v.push(PoseidonEntry { rate: 6, alpha: 257, full_rounds: 8, partial_rounds: 13, skip_matrices: 0 });
        v.push(PoseidonEntry { rate: 7, alpha: 257, full_rounds: 8, partial_rounds: 13, skip_matrices: 0 });
        v.push(PoseidonEntry { rate: 8, alpha: 257, full_rounds: 8, partial_rounds: 13, skip_matrices: 0 });
    }
    proof {
        assert(v@ =~= entry_table(optimized_for_weights));
    }
    v
}

/// Generates the Poseidon parameters of the scalar field for `rate`, from the
/// table entry for that rate, with capacity one.
pub fn gen_poseidon_params(rate: usize, optimized_for_weights: bool) -> (r: PoseidonParams)
    requires
        2 <= rate <= 8,
    ensures
        r.spec_view() == spec_params(rate, optimized_for_weights),
        r.wf(),
{
    let params_set = entries(optimized_for_weights);
    let mut i: usize = 0;
    while i < params_set.len()
        invariant
            params_set@ == entry_table(optimized_for_weights),
            0 <= i <= params_set@.len(),
            forall|k: int| 0 <= k < i ==> (#[trigger] params_set@[k]).rate != rate,
        decreases params_set@.len() - i,
    {
        let param = params_set[i];
        if param.rate == rate {
            assert(i == rate - 2);
            let am = ark_and_mds(param.rate, param.full_rounds, param.partial_rounds, param.skip_matrices);
            let r = PoseidonParams {
                full_rounds: param.full_rounds,
                partial_rounds: param.partial_rounds,
                alpha: param.alpha,
                ark: am.0,
                mds: am.1,
                rate: param.rate,
                capacity: 1,
            };
            return r;
        }
        i = i + 1;
    }
    proof {
        assert(params_set@[rate - 2].rate == rate);
    }
    PoseidonParams { full_rounds: 0, partial_rounds: 0, alpha: 0, ark: Vec::new(), mds: Vec::new(), rate: 0, capacity: 0 }
}

/// Relies on `find_poseidon_ark_and_mds` of ark-crypto-primitives, over the
/// BN254 scalar field (`MODULUS_BIT_SIZE` prime bits): its output is a function
/// of its arguments; it yields `full_rounds + partial_rounds` rows of `rate + 1`
/// round constants and a `(rate + 1) x (rate + 1)` MDS matrix, every element a
/// field element (canonical once `into_bigint` is applied). The entries of the
/// table are those for which the LFSR finds an invertible matrix.
#[verifier::external_body]
fn ark_and_mds(rate: usize, full_rounds: usize, partial_rounds: usize, skip: usize) -> (r: (
    Vec<Vec<Fe>>,
    Vec<Vec<Fe>>,
))
    requires
        exists|o: bool, k: int|
            0 <= k < 7 && #[trigger] entry_table(o)[k] == (PoseidonEntry {
                rate,
                alpha: entry_table(o)[k].alpha,
                full_rounds,
                partial_rounds,
                skip_matrices: skip,
            }),
    ensures
        (matrix_view(r.0@), matrix_view(r.1@)) == ark_and_mds_of(
            rate as nat,
            full_rounds as nat,
            partial_rounds as nat,
            skip as nat,
        ),
        matrix_shape(r.0@, (full_rounds + partial_rounds) as nat, (rate + 1) as nat),
        matrix_shape(r.1@, (rate + 1) as nat, (rate + 1) as nat),
        matrix_wf(r.0@),
        matrix_wf(r.1@),
{
    let (a, m) = find_poseidon_ark_and_mds::<Fr>(
        Fr::MODULUS_BIT_SIZE as u64, rate, full_rounds as u64, partial_rounds as u64, skip as u64);
    let to = |v: Vec<Vec<Fr>>| -> Vec<Vec<Fe>> {
        v.iter().map(|r| r.iter().map(|x| {
            let [l0, l1, l2, l3] = x.into_bigint().0;
            Fe { l0, l1, l2, l3 }
        }).collect()).collect()
    };
    (to(a), to(m))
}

/// Relies on `CRH::evaluate` of ark-crypto-primitives' Poseidon CRH over the
/// BN254 scalar field: the output is a function of the parameters and the
/// input, and `evaluate` always returns `Ok`. With the shapes of `wf` the
/// sponge indexes within bounds, and a positive rate lets absorbing finish.
#[verifier::external_body]
fn poseidon_hash(p: &PoseidonParams, input: &Vec<Fe>) -> (r: Fe)
    requires
        p.wf(),
        forall|i: int| 0 <= i < input@.len() ==> (#[trigger] input@[i]).wf(),
    ensures
        ({
            let v = p.spec_view();
            r@ == poseidon_of(v.0, v.1, v.2, v.3, v.4, v.5, v.6, input@.map_values(|x: Fe| x@))
        }),
        r.wf(),
{
    let to = |x: &Fe| Fr::from(BigInt([x.l0, x.l1, x.l2, x.l3]));
    let m = |v: &Vec<Vec<Fe>>| v.iter().map(|r| r.iter().map(to).collect()).collect();
    let c = PoseidonConfig::new(
        p.full_rounds, p.partial_rounds, p.alpha, m(&p.mds), m(&p.ark), p.rate, p.capacity);
    let xs: Vec<Fr> = input.iter().map(to).collect();
    let [l0, l1, l2, l3] = CRH::<Fr>::evaluate(&c, xs).unwrap().into_bigint().0;
    Fe { l0, l1, l2, l3 }
}

} // verus!
