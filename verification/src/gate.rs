//! Canonical circuit gates: one gate per trace row, carrying a gate type, a
//! fixed-width set of wire references for the copy/permutation argument, and a
//! list of field-element coefficients.

use vstd::prelude::*;

verus! {

/// Number of wired columns per trace row: every gate carries exactly this many
/// wire references, and a wire's column must lie below it.
pub const WIRE_COLUMNS: u64 = 7;

/// A scalar of the proving field, held as four 64-bit limbs, least significant
/// first. The codec and the digest treat it as opaque data.
#[derive(Clone, Copy, PartialEq, Eq, Structural, Debug)]
pub struct FieldElem {
    pub c0: u64,
    pub c1: u64,
    pub c2: u64,
    pub c3: u64,
}

/// A wire reference: the (row, column) trace coordinate this position is
/// copy-constrained to.
#[derive(Clone, Copy, PartialEq, Eq, Structural, Debug)]
pub struct Wire {
    pub row: u64,
    pub col: u64,
}

/// The instruction kind of a gate row.
#[derive(Clone, Copy, PartialEq, Eq, Structural, Debug)]
pub enum GateType {
    Zero,
    Generic,
    Poseidon,
    CompleteAdd,
    VarBaseMul,
    EndoMul,
    EndoMulScalar,
}

/// One row of the circuit: its gate type, its seven wire references (one per
/// wired column), and its coefficients.
#[derive(Clone, PartialEq, Eq, Debug)]
pub struct Gate {
    pub typ: GateType,
    pub w0: Wire,
    pub w1: Wire,
    pub w2: Wire,
    pub w3: Wire,
    pub w4: Wire,
    pub w5: Wire,
    pub w6: Wire,
    pub coeffs: Vec<FieldElem>,
}

/// Mathematical value of a [`Gate`]: the same fields with the coefficient
/// vector abstracted to a sequence.
#[verifier::ext_equal]
pub struct GateView {
    pub typ: GateType,
    pub w0: Wire,
    pub w1: Wire,
    pub w2: Wire,
    pub w3: Wire,
    pub w4: Wire,
    pub w5: Wire,
    pub w6: Wire,
    pub coeffs: Seq<FieldElem>,
}

impl View for Gate {
    type V = GateView;

    open spec fn view(&self) -> GateView {
        GateView {
            typ: self.typ,
            w0: self.w0,
            w1: self.w1,
            w2: self.w2,
            w3: self.w3,
            w4: self.w4,
            w5: self.w5,
            w6: self.w6,
            coeffs: self.coeffs@,
        }
    }
}

/// The views of a sequence of gates.
pub open spec fn gates_view(gates: Seq<Gate>) -> Seq<GateView> {
    gates.map(|i: int, g: Gate| g@)
}

impl Gate {
    /// Copies this gate, field for field.
    pub fn duplicate(&self) -> (r: Gate)
        ensures
            r@ == self@,
    {
        let mut coeffs: Vec<FieldElem> = Vec::new();
        let mut i: usize = 0;
        while i < self.coeffs.len()
            invariant
                i <= self.coeffs.len(),
                coeffs@ == self.coeffs@.take(i as int),
            decreases self.coeffs.len() - i,
        {
            coeffs.push(self.coeffs[i]);
            proof {
                assert(coeffs@ =~= self.coeffs@.take(i + 1));
            }
            i = i + 1;
        }
        proof {
            assert(coeffs@ =~= self.coeffs@);
        }
        let r = Gate {
            typ: self.typ,
            w0: self.w0,
            w1: self.w1,
            w2: self.w2,
            w3: self.w3,
            w4: self.w4,
            w5: self.w5,
            w6: self.w6,
            coeffs,
        };
        proof {
            assert(r@ == self@);
        }
        r
    }
}

/// An externally assembled ordered gate sequence, as handed over by a
/// gate-vector collaborator. The wrapper carries no guarantees of its own;
/// all validity checks are deferred to the constraint-system builder.
pub struct GateVector(pub Vec<Gate>);

impl GateVector {
    /// Normalizes the externally supplied sequence into the canonical gate
    /// representation, preserving order and every per-gate field exactly and
    /// discarding the wrapper.
    pub fn normalize(&self) -> (r: Vec<Gate>)
        ensures
            gates_view(r@) == gates_view(self.0@),
    {
        let mut out: Vec<Gate> = Vec::new();
        let mut i: usize = 0;
        while i < self.0.len()
            invariant
                i <= self.0.len(),
                out@.len() == i,
                forall|j: int| 0 <= j < i ==> #[trigger] out@[j]@ == self.0@[j]@,
            decreases self.0.len() - i,
        {
            out.push(self.0[i].duplicate());
            i = i + 1;
        }
        proof {
            assert forall|j: int| 0 <= j < self.0@.len() implies gates_view(out@)[j] == gates_view(
                self.0@,
            )[j] by {
                assert(gates_view(out@)[j] == out@[j]@);
                assert(gates_view(self.0@)[j] == self.0@[j]@);
            }
            assert(gates_view(out@) =~= gates_view(self.0@));
        }
        out
    }
}

} // verus!
