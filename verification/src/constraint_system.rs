//! Constraint-system construction: validates every gate against the
//! padded trace, fixes the circuit-shape parameters, and sizes the three
//! evaluation domains.

use vstd::prelude::*;

use crate::domain::{is_pow2, next_pow2_spec, domains_for, Domains, MAX_CIRCUIT_ROWS};
use crate::gate::{gates_view, Gate, GateView, WIRE_COLUMNS};

verus! {

/// Deepest recursive composition supported: no circuit may fold more
/// previous-proof challenges than this.
pub const MAX_PREV_CHALLENGES: u64 = 2;

/// Why a constraint system could not be built from the given circuit shape.
#[derive(Clone, Copy, PartialEq, Eq, Structural, Debug)]
pub enum ConstraintSystemError {
    /// A wire references a column at or beyond the wired-column count.
    WireColumnOutOfRange,
    /// A wire references a row at or beyond the padded trace length.
    WireRowOutOfRange,
    /// More public inputs were requested than the circuit has rows.
    PublicInputsExceedRows,
    /// More previous-proof challenges were requested than are supported.
    TooManyPrevChallenges,
}

/// The canonical constraint system: the validated gate sequence, the
/// circuit-shape parameters, and the three evaluation-domain sizes.
/// Immutable once built; owned by the proving index that builds it.
#[derive(Debug)]
pub struct ConstraintSystem {
    pub gates: Vec<Gate>,
    pub public_inputs: u64,
    pub prev_challenges: u64,
    pub domain: Domains,
}

/// Mathematical value of a [`ConstraintSystem`].
#[verifier::ext_equal]
pub struct CsView {
    pub gates: Seq<GateView>,
    pub public_inputs: u64,
    pub prev_challenges: u64,
    pub domain: Domains,
}

impl View for ConstraintSystem {
    type V = CsView;

    open spec fn view(&self) -> CsView {
        CsView {
            gates: gates_view(self.gates@),
            public_inputs: self.public_inputs,
            prev_challenges: self.prev_challenges,
            domain: self.domain,
        }
    }
}

/// A gate's wires stay inside the wired columns, and its coefficient count
/// fits the persisted format's 64-bit length field.
pub open spec fn gate_shape_ok(g: GateView) -> bool {
    &&& g.w0.col < WIRE_COLUMNS
    &&& g.w1.col < WIRE_COLUMNS
    &&& g.w2.col < WIRE_COLUMNS
    &&& g.w3.col < WIRE_COLUMNS
    &&& g.w4.col < WIRE_COLUMNS
    &&& g.w5.col < WIRE_COLUMNS
    &&& g.w6.col < WIRE_COLUMNS
    &&& g.coeffs.len() <= u64::MAX
}

/// A gate's wires stay inside the padded trace of length `d1`.
pub open spec fn gate_rows_ok(g: GateView, d1: nat) -> bool {
    &&& g.w0.row < d1
    &&& g.w1.row < d1
    &&& g.w2.row < d1
    &&& g.w3.row < d1
    &&& g.w4.row < d1
    &&& g.w5.row < d1
    &&& g.w6.row < d1
}

/// Every gate of the sequence satisfies [`gate_shape_ok`].
pub open spec fn all_shapes_ok(gates: Seq<GateView>) -> bool {
    forall|i: int| 0 <= i < gates.len() ==> #[trigger] gate_shape_ok(gates[i])
}

/// Every gate of the sequence satisfies [`gate_rows_ok`] for trace length `d1`.
pub open spec fn all_rows_ok(gates: Seq<GateView>, d1: nat) -> bool {
    forall|i: int| 0 <= i < gates.len() ==> #[trigger] gate_rows_ok(gates[i], d1)
}

/// The padded trace length of a circuit with `rows` gate rows.
pub open spec fn padded_rows(rows: nat) -> nat {
    next_pow2_spec(
        if rows >= 1 {
            rows
        } else {
            1
        },
    )
}

/// The circuit shape admits a constraint system: the challenge and
/// public-input counts are in range and every wire resolves inside the
/// padded trace.
pub open spec fn circuit_valid(gates: Seq<GateView>, public_inputs: u64, prev_challenges: u64) -> bool {
    &&& prev_challenges <= MAX_PREV_CHALLENGES
    &&& public_inputs <= gates.len()
    &&& all_shapes_ok(gates)
    &&& all_rows_ok(gates, padded_rows(gates.len()))
}

/// The exact failure the builder reports for a circuit shape, or `None` when
/// a constraint system can be built: the challenge bound is checked first,
/// then the public-input count, then the wired columns, then the wire rows.
pub open spec fn cs_error(gates: Seq<GateView>, public_inputs: u64, prev_challenges: u64) -> Option<
    ConstraintSystemError,
> {
    if prev_challenges > MAX_PREV_CHALLENGES {
        Some(ConstraintSystemError::TooManyPrevChallenges)
    } else if public_inputs > gates.len() {
        Some(ConstraintSystemError::PublicInputsExceedRows)
    } else if !all_shapes_ok(gates) {
        Some(ConstraintSystemError::WireColumnOutOfRange)
    } else if !all_rows_ok(gates, padded_rows(gates.len())) {
        Some(ConstraintSystemError::WireRowOutOfRange)
    } else {
        None
    }
}

/// A circuit shape is valid exactly when the builder reports no failure for
/// it.
pub proof fn lemma_valid_iff_no_error(gates: Seq<GateView>, public_inputs: u64, prev_challenges: u64)
    ensures
        circuit_valid(gates, public_inputs, prev_challenges) <==> cs_error(
            gates,
            public_inputs,
            prev_challenges,
        ) is None,
{
}

impl CsView {
    /// Internal consistency of a constraint system: domain sizes derived from
    /// the number of gates, and a valid circuit shape.
    pub open spec fn wf(self) -> bool {
        &&& self.gates.len() <= MAX_CIRCUIT_ROWS
        &&& self.domain.wf(self.gates.len())
        &&& circuit_valid(self.gates, self.public_inputs, self.prev_challenges)
    }
}

/// Checks that every gate keeps its wires inside the wired columns.
pub(crate) fn check_shapes(gates: &Vec<Gate>) -> (b: bool)
    ensures
        b == all_shapes_ok(gates_view(gates@)),
{
    let gv = Ghost(gates_view(gates@));
    let mut i: usize = 0;
    while i < gates.len()
        invariant
            i <= gates.len(),
            gv@ == gates_view(gates@),
            forall|j: int| 0 <= j < i ==> #[trigger] gate_shape_ok(gv@[j]),
        decreases gates.len() - i,
    {
        let g = &gates[i];
        let cols_ok = g.w0.col < WIRE_COLUMNS && g.w1.col < WIRE_COLUMNS && g.w2.col < WIRE_COLUMNS
            && g.w3.col < WIRE_COLUMNS && g.w4.col < WIRE_COLUMNS && g.w5.col < WIRE_COLUMNS
            && g.w6.col < WIRE_COLUMNS;
        let n_coeffs: usize = g.coeffs.len();
        proof {
            assert(gv@[i as int] == gates@[i as int]@);
            assert(g@.coeffs.len() == n_coeffs);
        }
        if !cols_ok {
            proof {
                assert(!gate_shape_ok(gv@[i as int]));
            }
            return false;
        }
        proof {
            assert(gate_shape_ok(gv@[i as int]));
        }
        i = i + 1;
    }
    true
}

/// Checks that every gate keeps its wires inside the padded trace of length
/// `d1`.
pub(crate) fn check_rows(gates: &Vec<Gate>, d1: u64) -> (b: bool)
    ensures
        b == all_rows_ok(gates_view(gates@), d1 as nat),
{
    let gv = Ghost(gates_view(gates@));
    let mut i: usize = 0;
    while i < gates.len()
        invariant
            i <= gates.len(),
            gv@ == gates_view(gates@),
            forall|j: int| 0 <= j < i ==> #[trigger] gate_rows_ok(gv@[j], d1 as nat),
        decreases gates.len() - i,
    {
        let g = &gates[i];
        let rows_ok = g.w0.row < d1 && g.w1.row < d1 && g.w2.row < d1 && g.w3.row < d1
            && g.w4.row < d1 && g.w5.row < d1 && g.w6.row < d1;
        proof {
            assert(gv@[i as int] == gates@[i as int]@);
        }
        if !rows_ok {
            proof {
                assert(!gate_rows_ok(gv@[i as int], d1 as nat));
            }
            return false;
        }
        proof {
            assert(gate_rows_ok(gv@[i as int], d1 as nat));
        }
        i = i + 1;
    }
    true
}

/// Builds the constraint system for a circuit: checks the challenge bound,
/// the public-input count and every wire reference, and fixes the three
/// evaluation-domain sizes. Fails with the reason as a
/// [`ConstraintSystemError`] exactly when the circuit shape is invalid; no
/// partial result is ever returned.
pub fn build(gates: Vec<Gate>, public_inputs: u64, prev_challenges: u64) -> (r: Result<
    ConstraintSystem,
    ConstraintSystemError,
>)
    requires
        gates@.len() <= MAX_CIRCUIT_ROWS,
    ensures
        (r is Ok) <==> circuit_valid(gates_view(gates@), public_inputs, prev_challenges),
        (r matches Ok(cs) ==> {
            &&& cs@.gates == gates_view(gates@)
            &&& cs@.public_inputs == public_inputs
            &&& cs@.prev_challenges == prev_challenges
            &&& cs@.wf()
        }),
        (r matches Err(e) ==> cs_error(gates_view(gates@), public_inputs, prev_challenges) == Some(
            e,
        )),
{
    if prev_challenges > MAX_PREV_CHALLENGES {
        return Err(ConstraintSystemError::TooManyPrevChallenges);
    }
    let n: usize = gates.len();
    if public_inputs > n as u64 {
        return Err(ConstraintSystemError::PublicInputsExceedRows);
    }
    if !check_shapes(&gates) {
        return Err(ConstraintSystemError::WireColumnOutOfRange);
    }
    let domain = domains_for(n as u64);
    if !check_rows(&gates, domain.d1) {
        return Err(ConstraintSystemError::WireRowOutOfRange);
    }
    Ok(ConstraintSystem { gates, public_inputs, prev_challenges, domain })
}

/// Domain scaling: in every well-formed constraint system the mid and large
/// domains are exactly four and eight times the base domain, and all three
/// sizes are powers of two.
pub proof fn lemma_domain_scaling(cs: CsView)
    requires
        cs.wf(),
    ensures
        cs.domain.d4 == 4 * cs.domain.d1,
        cs.domain.d8 == 8 * cs.domain.d1,
        is_pow2(cs.domain.d1 as nat),
        is_pow2(cs.domain.d4 as nat),
        is_pow2(cs.domain.d8 as nat),
{
    crate::domain::lemma_next_pow2_props(
        if cs.gates.len() >= 1 {
            cs.gates.len()
        } else {
            1
        },
    );
    crate::domain::lemma_pow2_double(cs.domain.d1 as nat);
    assert(2 * cs.domain.d1 as nat == (2 * cs.domain.d1) as nat);
    crate::domain::lemma_pow2_double((2 * cs.domain.d1) as nat);
    assert(cs.domain.d4 as nat == 2 * (2 * cs.domain.d1) as nat);
    crate::domain::lemma_pow2_double(cs.domain.d4 as nat);
    assert(cs.domain.d8 as nat == 2 * cs.domain.d4 as nat);
}

} // verus!
