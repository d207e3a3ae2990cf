//! The parameters of the Poseidon sponge and the one use the signature scheme
//! makes of it: absorb a few elements of the base field, squeeze one.
//!
//! The parameters are a value that every call is handed. Nothing here is
//! shared or changed after it was made, so signers and verifiers on different
//! threads can read the same parameters.

use crate::field::{base_modulus, FieldElement};
use ark_crypto_primitives::sponge::poseidon::{PoseidonConfig, PoseidonSponge};
use ark_crypto_primitives::sponge::{CryptographicSponge, FieldBasedCryptographicSponge};
use ark_ff::{BigInteger, PrimeField};
use vstd::prelude::*;

verus! {

/// The parameters of a Poseidon sponge over the base field, as numbers.
pub struct SpongeParameters {
    /// The number of rounds in which every element of the state goes through the S-box.
    pub full_rounds: nat,
    /// The number of rounds in which only the first element does.
    pub partial_rounds: nat,
    /// The exponent of the S-box.
    pub alpha: nat,
    /// The round constants, one row for each round.
    pub ark: Seq<Seq<nat>>,
    /// The matrix that mixes the state.
    pub mds: Seq<Seq<nat>>,
    /// How many elements are absorbed or squeezed between two permutations.
    pub rate: nat,
    /// How many elements of the state are never written or read directly.
    pub capacity: nat,
}

impl SpongeParameters {
    /// The number of elements in the state.
    pub open spec fn state_len(self) -> nat {
        self.rate + self.capacity
    }

    /// Whether the sponge can run on these parameters: it absorbs at least one
    /// element at a time, there is a row of round constants for each round,
    /// and every row and the matrix have the width of the state.
    pub open spec fn well_formed(self) -> bool {
        &&& self.rate >= 1
        &&& self.full_rounds + self.partial_rounds <= usize::MAX
        &&& self.state_len() <= usize::MAX
        &&& self.ark.len() == self.full_rounds + self.partial_rounds
        &&& forall|i: int| 0 <= i < self.ark.len() ==> (#[trigger] self.ark[i]).len() == self.state_len()
        &&& self.mds.len() == self.state_len()
        &&& forall|i: int| 0 <= i < self.mds.len() ==> (#[trigger] self.mds[i]).len() == self.state_len()
    }
}

/// The element that a fresh Poseidon sponge with these parameters gives when
/// it has absorbed `inputs` and is squeezed once.
pub uninterp spec fn poseidon_squeeze(parameters: SpongeParameters, inputs: Seq<nat>) -> nat;

/// The numbers that a row of elements stands for.
pub open spec fn row_values(row: Seq<FieldElement>) -> Seq<nat> {
    Seq::new(row.len(), |i: int| row[i]@)
}

/// The numbers that a matrix of elements stands for.
pub open spec fn matrix_values(rows: Seq<Vec<FieldElement>>) -> Seq<Seq<nat>> {
    Seq::new(rows.len(), |i: int| row_values(rows[i]@))
}

/// The parameters of the sponge that derives the challenge of a signature.
#[derive(Debug)]
pub struct SpongeConfig {
    pub(crate) full_rounds: usize,
    pub(crate) partial_rounds: usize,
    pub(crate) alpha: u64,
    pub(crate) ark: Vec<Vec<FieldElement>>,
    pub(crate) mds: Vec<Vec<FieldElement>>,
    pub(crate) rate: usize,
    pub(crate) capacity: usize,
}

impl View for SpongeConfig {
    type V = SpongeParameters;

    closed spec fn view(&self) -> SpongeParameters {
        SpongeParameters {
            full_rounds: self.full_rounds as nat,
            partial_rounds: self.partial_rounds as nat,
            alpha: self.alpha as nat,
            ark: matrix_values(self.ark@),
            mds: matrix_values(self.mds@),
            rate: self.rate as nat,
            capacity: self.capacity as nat,
        }
    }
}

/// `PoseidonSponge::new`, `absorb` and `squeeze_native_field_elements` of
/// `ark-crypto-primitives`, on a `PoseidonConfig` made by `PoseidonConfig::new`:
/// what a fresh sponge squeezes first after it absorbed `inputs`, an element
/// of the base field. `PoseidonConfig::new` panics on rows that are not as
/// wide as the state, and at a rate of zero `absorb` does not return: the
/// parameters are required to be well formed.
#[verifier::external_body]
fn poseidon_absorb_squeeze(config: &SpongeConfig, inputs: &Vec<FieldElement>) -> (out: FieldElement)
    requires
        config@.well_formed(),
    ensures
        out@ == poseidon_squeeze(config@, row_values(inputs@)),
        out@ < base_modulus(),
{
    let f = |e: &FieldElement| ark_ed_on_bn254::Fq::from_le_bytes_mod_order(&e.bytes);
    let m = |rows: &Vec<Vec<FieldElement>>| -> Vec<Vec<ark_ed_on_bn254::Fq>> {
        rows.iter().map(|row| row.iter().map(f).collect()).collect()
    };
    let mut sponge = PoseidonSponge::new(&PoseidonConfig::new(
        config.full_rounds, config.partial_rounds, config.alpha,
        m(&config.mds), m(&config.ark), config.rate, config.capacity,
    ));
    sponge.absorb(&inputs.iter().map(f).collect::<Vec<_>>());
    let h: ark_ed_on_bn254::Fq = sponge.squeeze_native_field_elements(1)[0];
    FieldElement { bytes: h.into_bigint().to_bytes_le().try_into().unwrap() }
}

/// Whether every row has `width` elements.
fn rows_have_width(rows: &Vec<Vec<FieldElement>>, width: usize) -> (ok: bool)
    ensures
        ok == (forall|i: int| 0 <= i < rows@.len() ==> (#[trigger] rows@[i])@.len() == width),
{
    let mut i: usize = 0;
    while i < rows.len()
        invariant
            i <= rows.len(),
            forall|j: int| 0 <= j < i ==> (#[trigger] rows@[j])@.len() == width,
        decreases rows.len() - i,
    {
        if rows[i].len() != width {
            return false;
        }
        i += 1;
    }
    true
}

impl SpongeConfig {
    /// The sponge can run on every set of parameters.
    #[verifier::type_invariant]
    pub open spec fn valid(self) -> bool {
        self@.well_formed()
    }

    /// The parameters made of these parts, or `None` where the sponge cannot
    /// run on them.
    pub fn new(
        full_rounds: usize,
        partial_rounds: usize,
        alpha: u64,
        mds: Vec<Vec<FieldElement>>,
        ark: Vec<Vec<FieldElement>>,
        rate: usize,
        capacity: usize,
    ) -> (r: Option<SpongeConfig>)
        ensures
            r is Some <==> (SpongeParameters {
                full_rounds: full_rounds as nat,
                partial_rounds: partial_rounds as nat,
                alpha: alpha as nat,
                ark: matrix_values(ark@),
                mds: matrix_values(mds@),
                rate: rate as nat,
                capacity: capacity as nat,
            }).well_formed(),
            r matches Some(config) ==> config@ == (SpongeParameters {
                full_rounds: full_rounds as nat,
                partial_rounds: partial_rounds as nat,
                alpha: alpha as nat,
                ark: matrix_values(ark@),
                mds: matrix_values(mds@),
                rate: rate as nat,
                capacity: capacity as nat,
            }),
    {
        let ghost parameters = SpongeParameters {
            full_rounds: full_rounds as nat,
            partial_rounds: partial_rounds as nat,
            alpha: alpha as nat,
            ark: matrix_values(ark@),
            mds: matrix_values(mds@),
            rate: rate as nat,
            capacity: capacity as nat,
        };
        if rate == 0 {
            return None;
        }
        let rounds: usize = match full_rounds.checked_add(partial_rounds) {
            Some(n) => n,
            None => {
                return None;
            },
        };
        let width: usize = match rate.checked_add(capacity) {
            Some(n) => n,
            None => {
                return None;
            },
        };
        if ark.len() != rounds || mds.len() != width {
            return None;
        }
        let ark_ok: bool = rows_have_width(&ark, width);
        let mds_ok: bool = rows_have_width(&mds, width);
        proof {
            if parameters.well_formed() {
                assert forall|i: int| 0 <= i < ark@.len() implies (#[trigger] ark@[i])@.len()
                    == width by {
                    assert(parameters.ark[i].len() == ark@[i]@.len());
                }
                assert forall|i: int| 0 <= i < mds@.len() implies (#[trigger] mds@[i])@.len()
                    == width by {
                    assert(parameters.mds[i].len() == mds@[i]@.len());
                }
            }
            if ark_ok && mds_ok {
                assert forall|i: int| 0 <= i < parameters.ark.len() implies (
                #[trigger] parameters.ark[i]).len() == parameters.state_len() by {
                    assert(parameters.ark[i].len() == ark@[i]@.len());
                }
                assert forall|i: int| 0 <= i < parameters.mds.len() implies (
                #[trigger] parameters.mds[i]).len() == parameters.state_len() by {
                    assert(parameters.mds[i].len() == mds@[i]@.len());
                }
            }
        }
        if !ark_ok || !mds_ok {
            return None;
        }
        Some(SpongeConfig { full_rounds, partial_rounds, alpha, ark, mds, rate, capacity })
    }

    /// What a fresh sponge with these parameters squeezes first after it
    /// absorbed `inputs`.
    pub fn hash(&self, inputs: &Vec<FieldElement>) -> (out: FieldElement)
        ensures
            out@ == poseidon_squeeze(self@, row_values(inputs@)),
    {
        proof {
            use_type_invariant(self);
        }
        poseidon_absorb_squeeze(self, inputs)
    }

    /// How many elements are absorbed or squeezed between two permutations.
    pub fn rate(&self) -> (rate: usize)
        ensures
            rate == self@.rate,
    {
        self.rate
    }

    /// How many elements of the state are never written or read directly.
    pub fn capacity(&self) -> (capacity: usize)
        ensures
            capacity == self@.capacity,
    {
        self.capacity
    }

    /// The number of rounds in which every element goes through the S-box.
    pub fn full_rounds(&self) -> (rounds: usize)
        ensures
            rounds == self@.full_rounds,
    {
        self.full_rounds
    }

    /// The number of rounds in which only the first element does.
    pub fn partial_rounds(&self) -> (rounds: usize)
        ensures
            rounds == self@.partial_rounds,
    {
        self.partial_rounds
    }

    /// The exponent of the S-box.
    pub fn alpha(&self) -> (alpha: u64)
        ensures
            alpha == self@.alpha,
    {
        self.alpha
    }
}

} // verus!
