//! Linearization data: symbolic polynomial-expression descriptors and the
//! count of "powers of alpha" challenge placeholders. The data is derived
//! from a fixed, parameter-free configuration (no previous-challenge folding,
//! no lookup customization), so deriving it again always reproduces the same
//! structure; it is never persisted.

use vstd::prelude::*;

use crate::gate::GateType;

verus! {

/// Powers of alpha claimed by the permutation argument.
pub const PERMUTATION_ALPHAS: u64 = 3;

/// Powers of alpha claimed by each gate family's constraints.
pub const GENERIC_ALPHAS: u64 = 1;

pub const POSEIDON_ALPHAS: u64 = 15;

pub const COMPLETE_ADD_ALPHAS: u64 = 7;

pub const VAR_BASE_MUL_ALPHAS: u64 = 21;

pub const ENDO_MUL_ALPHAS: u64 = 11;

pub const ENDO_MUL_SCALAR_ALPHAS: u64 = 11;

/// One symbolic descriptor: the constraints of one gate family and the
/// number of alpha powers they claim.
#[derive(Clone, Copy, PartialEq, Eq, Structural, Debug)]
pub struct LinTerm {
    pub gate: GateType,
    pub alpha_powers: u64,
}

/// The derived linearization: the descriptor list and the total number of
/// alpha placeholders.
#[derive(Clone, PartialEq, Eq, Debug)]
pub struct Linearization {
    pub terms: Vec<LinTerm>,
    pub powers_of_alpha: u64,
}

/// Mathematical value of a [`Linearization`].
#[verifier::ext_equal]
pub struct LinView {
    pub terms: Seq<LinTerm>,
    pub powers_of_alpha: u64,
}

impl View for Linearization {
    type V = LinView;

    open spec fn view(&self) -> LinView {
        LinView { terms: self.terms@, powers_of_alpha: self.powers_of_alpha }
    }
}

/// The one linearization this build derives: one descriptor per constrained
/// gate family, in a fixed order, plus the permutation argument's share in
/// the placeholder total.
pub open spec fn linearization_spec() -> LinView {
    LinView {
        terms: seq![
            LinTerm { gate: GateType::Generic, alpha_powers: GENERIC_ALPHAS },
            LinTerm { gate: GateType::Poseidon, alpha_powers: POSEIDON_ALPHAS },
            LinTerm { gate: GateType::CompleteAdd, alpha_powers: COMPLETE_ADD_ALPHAS },
            LinTerm { gate: GateType::VarBaseMul, alpha_powers: VAR_BASE_MUL_ALPHAS },
            LinTerm { gate: GateType::EndoMul, alpha_powers: ENDO_MUL_ALPHAS },
            LinTerm { gate: GateType::EndoMulScalar, alpha_powers: ENDO_MUL_SCALAR_ALPHAS },
        ],
        powers_of_alpha: (GENERIC_ALPHAS + POSEIDON_ALPHAS + COMPLETE_ADD_ALPHAS
            + VAR_BASE_MUL_ALPHAS + ENDO_MUL_ALPHAS + ENDO_MUL_SCALAR_ALPHAS
            + PERMUTATION_ALPHAS) as u64,
    }
}

/// Derives the linearization from the fixed configuration. Shared by the
/// fresh-build and the post-decode paths, which must not drift apart.
pub fn derive_linearization() -> (r: Linearization)
    ensures
        r@ == linearization_spec(),
{
    let mut terms: Vec<LinTerm> = Vec::new();
    terms.push(LinTerm { gate: GateType::Generic, alpha_powers: GENERIC_ALPHAS });
    terms.push(LinTerm { gate: GateType::Poseidon, alpha_powers: POSEIDON_ALPHAS });
    terms.push(LinTerm { gate: GateType::CompleteAdd, alpha_powers: COMPLETE_ADD_ALPHAS });
    terms.push(LinTerm { gate: GateType::VarBaseMul, alpha_powers: VAR_BASE_MUL_ALPHAS });
    terms.push(LinTerm { gate: GateType::EndoMul, alpha_powers: ENDO_MUL_ALPHAS });
    terms.push(LinTerm { gate: GateType::EndoMulScalar, alpha_powers: ENDO_MUL_SCALAR_ALPHAS });
    let powers_of_alpha: u64 = GENERIC_ALPHAS + POSEIDON_ALPHAS + COMPLETE_ADD_ALPHAS
        + VAR_BASE_MUL_ALPHAS + ENDO_MUL_ALPHAS + ENDO_MUL_SCALAR_ALPHAS + PERMUTATION_ALPHAS;
    let r = Linearization { terms, powers_of_alpha };
    proof {
        assert(r@.terms =~= linearization_spec().terms);
        assert(r@ =~= linearization_spec());
    }
    r
}

} // verus!
