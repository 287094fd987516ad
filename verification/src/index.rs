//! The proving index: the constraint system it exclusively owns, a copy of
//! the bound reference string, the endomorphism scalar of the commitment
//! curve's dual curve, the derived linearization data, and the cached
//! verifier digest. Immutable once assembled.

use vstd::prelude::*;

use crate::codec;
use crate::constraint_system::{
    build, circuit_valid, cs_error, padded_rows, ConstraintSystem, ConstraintSystemError, CsView,
};
use crate::digest::{digest_bytes, digest_spec, Digest};
use crate::domain::MAX_CIRCUIT_ROWS;
use crate::gate::{gates_view, FieldElem, Gate};
use crate::linearization::{derive_linearization, linearization_spec, Linearization, LinView};
use crate::srs::{Srs, SrsView};

verus! {

/// Limbs of the endomorphism scalar: a fixed constant of the commitment
/// curve pair, derived once from the dual curve.
pub const ENDO_Q_0: u64 = 0x397e_65a7_d7c1_ad71;

pub const ENDO_Q_1: u64 = 0x36e1_0c9f_4b2c_9a43;

pub const ENDO_Q_2: u64 = 0xc2e5_6d0f_9a6e_8b01;

pub const ENDO_Q_3: u64 = 0x1d6f_40a8_e3b7_52c9;

/// The endomorphism scalar of the commitment curve's dual curve.
pub open spec fn endo_scalar_spec() -> FieldElem {
    FieldElem { c0: ENDO_Q_0, c1: ENDO_Q_1, c2: ENDO_Q_2, c3: ENDO_Q_3 }
}

/// Returns the endomorphism scalar.
pub fn endo_scalar() -> (r: FieldElem)
    ensures
        r == endo_scalar_spec(),
{
    FieldElem { c0: ENDO_Q_0, c1: ENDO_Q_1, c2: ENDO_Q_2, c3: ENDO_Q_3 }
}

/// The assembled proving index.
#[derive(Debug)]
pub struct ProvingIndex {
    pub cs: ConstraintSystem,
    pub srs: Srs,
    pub endo: FieldElem,
    pub linearization: Linearization,
    pub digest: Digest,
}

/// Mathematical value of a [`ProvingIndex`].
#[verifier::ext_equal]
pub struct IndexView {
    pub cs: CsView,
    pub srs: SrsView,
    pub endo: FieldElem,
    pub linearization: LinView,
    pub digest: Digest,
}

impl View for ProvingIndex {
    type V = IndexView;

    open spec fn view(&self) -> IndexView {
        IndexView {
            cs: self.cs@,
            srs: self.srs@,
            endo: self.endo,
            linearization: self.linearization@,
            digest: self.digest,
        }
    }
}

impl IndexView {
    /// Internal consistency: a well-formed constraint system and the one
    /// derived linearization. The digest is cached data: a freshly assembled
    /// index carries the digest of its own body, a restored index carries
    /// the decoded one.
    pub open spec fn wf(self) -> bool {
        &&& self.cs.wf()
        &&& self.linearization == linearization_spec()
    }
}

/// Builds the constraint system for the given gates, binds the evaluation
/// basis for its base domain into the shared reference string, and assembles
/// the immutable proving index, computing the verifier digest once.
///
/// Fails with the builder's exact error when the circuit shape is invalid;
/// the reference string is then left untouched and no partial index exists.
pub fn create_index(
    gates: Vec<Gate>,
    public_inputs: u64,
    prev_challenges: u64,
    srs: &mut Srs,
) -> (r: Result<ProvingIndex, ConstraintSystemError>)
    requires
        gates@.len() <= MAX_CIRCUIT_ROWS,
        old(srs)@.wf(),
        padded_rows(gates@.len()) <= old(srs)@.elements.len(),
    ensures
        (r is Ok) <==> circuit_valid(gates_view(gates@), public_inputs, prev_challenges),
        (r matches Err(e) ==> {
            &&& cs_error(gates_view(gates@), public_inputs, prev_challenges) == Some(e)
            &&& final(srs)@ == old(srs)@
        }),
        (r matches Ok(i) ==> {
            &&& i@.wf()
            &&& i@.cs.gates == gates_view(gates@)
            &&& i@.cs.public_inputs == public_inputs
            &&& i@.cs.prev_challenges == prev_challenges
            &&& final(srs)@ == old(srs)@.ensure_basis_spec(i@.cs.domain.d1)
            &&& final(srs)@.has_basis(i@.cs.domain.d1)
            &&& final(srs)@.wf()
            &&& i@.srs == final(srs)@
            &&& i@.endo == endo_scalar_spec()
            &&& i@.linearization == linearization_spec()
            &&& i@.digest == digest_spec(codec::enc_body(i@.cs, i@.endo))
        }),
{
    let ghost gv = gates_view(gates@);
    let cs = match build(gates, public_inputs, prev_challenges) {
        Err(e) => {
            return Err(e);
        },
        Ok(cs) => cs,
    };
    proof {
        crate::domain::lemma_next_pow2_props(
            if gv.len() >= 1 {
                gv.len()
            } else {
                1
            },
        );
        assert(cs@.domain.d1 as nat == padded_rows(gv.len()));
    }
    srs.ensure_lagrange_basis(cs.domain.d1);
    let endo = endo_scalar();
    let body = codec::encode_body(&cs, endo);
    let digest = digest_bytes(&body);
    let linearization = derive_linearization();
    let srs_copy = srs.duplicate();
    Ok(ProvingIndex { cs, srs: srs_copy, endo, linearization, digest })
}

impl ProvingIndex {
    /// The maximum polynomial degree of the attached reference string.
    pub fn max_degree(&self) -> (r: usize)
        ensures
            r as nat == self@.srs.elements.len(),
    {
        self.srs.max_degree()
    }

    /// The number of public inputs of the circuit.
    pub fn public_inputs(&self) -> (r: u64)
        ensures
            r == self@.cs.public_inputs,
    {
        self.cs.public_inputs
    }

    /// The base evaluation-domain size.
    pub fn domain_d1_size(&self) -> (r: u64)
        ensures
            r == self@.cs.domain.d1,
    {
        self.cs.domain.d1
    }

    /// The mid evaluation-domain size, four times the base size.
    pub fn domain_d4_size(&self) -> (r: u64)
        ensures
            r == self@.cs.domain.d4,
    {
        self.cs.domain.d4
    }

    /// The large evaluation-domain size, eight times the base size.
    pub fn domain_d8_size(&self) -> (r: u64)
        ensures
            r == self@.cs.domain.d8,
    {
        self.cs.domain.d8
    }

    /// The cached verifier digest.
    pub fn digest(&self) -> (r: Digest)
        ensures
            r == self@.digest,
    {
        self.digest
    }

    /// The endomorphism scalar the index was assembled with.
    pub fn endo(&self) -> (r: FieldElem)
        ensures
            r == self@.endo,
    {
        self.endo
    }
}

} // verus!
