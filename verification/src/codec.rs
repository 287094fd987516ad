//! Persistence codec: a self-describing binary encoding of a proving index.
//!
//! The format is little-endian throughout: a four-byte magic, a format
//! version, the constraint system (gate count, gates, public-input count,
//! previous-challenge count, base domain size), the endomorphism scalar and
//! the cached verifier digest. Reference-string material and linearization
//! data are deliberately not part of the format: the string is re-attached
//! and the linearization re-derived on every read.

use vstd::bytes::{spec_u64_from_le_bytes, spec_u64_to_le_bytes, u64_from_le_bytes, u64_to_le_bytes};
use vstd::prelude::*;
use vstd::slice::slice_subrange;

use crate::constraint_system::{
    check_rows, check_shapes, circuit_valid, gate_shape_ok, all_shapes_ok, padded_rows,
    ConstraintSystem, CsView, MAX_PREV_CHALLENGES,
};
use crate::digest::Digest;
use crate::domain::{domains_for, Domains, MAX_CIRCUIT_ROWS};
use crate::gate::{gates_view, FieldElem, Gate, GateView, Wire};
use crate::index::{IndexView, ProvingIndex};
use crate::linearization::{derive_linearization, linearization_spec};
use crate::srs::Srs;

verus! {

/// The format's magic bytes, "pidx", and its version.
pub const MAGIC_0: u8 = 0x70;

pub const MAGIC_1: u8 = 0x69;

pub const MAGIC_2: u8 = 0x64;

pub const MAGIC_3: u8 = 0x78;

pub const FORMAT_VERSION: u8 = 1;

/// Encoding of one 64-bit word.
pub open spec fn enc_u64(x: u64) -> Seq<u8> {
    spec_u64_to_le_bytes(x)
}

/// Encoding of a field element: its four limbs.
pub open spec fn enc_field(f: FieldElem) -> Seq<u8> {
    enc_u64(f.c0) + enc_u64(f.c1) + enc_u64(f.c2) + enc_u64(f.c3)
}

/// Encoding of a wire reference.
pub open spec fn enc_wire(w: Wire) -> Seq<u8> {
    enc_u64(w.row) + enc_u64(w.col)
}

/// The tag byte of a gate type.
pub open spec fn gate_type_tag(t: crate::gate::GateType) -> u8 {
    match t {
        crate::gate::GateType::Zero => 0,
        crate::gate::GateType::Generic => 1,
        crate::gate::GateType::Poseidon => 2,
        crate::gate::GateType::CompleteAdd => 3,
        crate::gate::GateType::VarBaseMul => 4,
        crate::gate::GateType::EndoMul => 5,
        crate::gate::GateType::EndoMulScalar => 6,
    }
}

/// Which gate type a tag byte stands for, if any.
pub open spec fn tag_gate_type(b: u8) -> Option<crate::gate::GateType> {
    if b == 0 {
        Some(crate::gate::GateType::Zero)
    } else if b == 1 {
        Some(crate::gate::GateType::Generic)
    } else if b == 2 {
        Some(crate::gate::GateType::Poseidon)
    } else if b == 3 {
        Some(crate::gate::GateType::CompleteAdd)
    } else if b == 4 {
        Some(crate::gate::GateType::VarBaseMul)
    } else if b == 5 {
        Some(crate::gate::GateType::EndoMul)
    } else if b == 6 {
        Some(crate::gate::GateType::EndoMulScalar)
    } else {
        None
    }
}

/// Encoding of a coefficient list, front to back.
pub open spec fn enc_fields(s: Seq<FieldElem>) -> Seq<u8>
    decreases s.len(),
{
    if s.len() == 0 {
        Seq::empty()
    } else {
        enc_field(s[0]) + enc_fields(s.skip(1))
    }
}

/// Encoding of one gate: tag, the seven wires, the coefficient count and the
/// coefficients.
pub open spec fn enc_gate(g: GateView) -> Seq<u8> {
    seq![gate_type_tag(g.typ)] + enc_wire(g.w0) + enc_wire(g.w1) + enc_wire(g.w2) + enc_wire(g.w3)
        + enc_wire(g.w4) + enc_wire(g.w5) + enc_wire(g.w6) + enc_u64(g.coeffs.len() as u64)
        + enc_fields(g.coeffs)
}

/// Encoding of a gate sequence, front to back.
pub open spec fn enc_gates(s: Seq<GateView>) -> Seq<u8>
    decreases s.len(),
{
    if s.len() == 0 {
        Seq::empty()
    } else {
        enc_gate(s[0]) + enc_gates(s.skip(1))
    }
}

/// Encoding of a constraint system. Only the base domain size is written;
/// the larger domains are its fixed multiples.
pub open spec fn enc_cs(cs: CsView) -> Seq<u8> {
    enc_u64(cs.gates.len() as u64) + enc_gates(cs.gates) + enc_u64(cs.public_inputs) + enc_u64(
        cs.prev_challenges,
    ) + enc_u64(cs.domain.d1)
}

/// Encoding of the digest.
pub open spec fn enc_digest(d: Digest) -> Seq<u8> {
    enc_u64(d.h0) + enc_u64(d.h1) + enc_u64(d.h2) + enc_u64(d.h3)
}

/// The digest-covered body of the format: the constraint system and the
/// endomorphism scalar.
pub open spec fn enc_body(cs: CsView, endo: FieldElem) -> Seq<u8> {
    enc_cs(cs) + enc_field(endo)
}

/// The format's header.
pub open spec fn enc_header() -> Seq<u8> {
    seq![MAGIC_0, MAGIC_1, MAGIC_2, MAGIC_3, FORMAT_VERSION]
}

/// The full encoding of a proving index.
pub open spec fn enc_index(i: IndexView) -> Seq<u8> {
    enc_header() + enc_body(i.cs, i.endo) + enc_digest(i.digest)
}

/// Why a byte stream does not decode to a proving index. Distinct from the
/// I/O failures of the surrounding application: a missing source is not a
/// corrupt one.
#[derive(Clone, Copy, PartialEq, Eq, Structural, Debug)]
pub enum DecodingError {
    /// The source ends before the encoding is complete.
    Truncated,
    /// The magic bytes are not the format's.
    BadMagic,
    /// The format version is not this build's.
    UnsupportedVersion,
    /// The stored gate count exceeds the supported trace length.
    CircuitTooLarge,
    /// A gate-type tag stands for no gate type.
    InvalidGateType,
    /// The stored base domain size is not the padded trace length.
    MalformedDomain,
    /// The decoded circuit shape fails validation.
    InvalidCircuit,
}

/// Reads one 64-bit word from the front of a stream.
pub open spec fn parse_u64(s: Seq<u8>) -> Result<(u64, Seq<u8>), DecodingError> {
    if s.len() < 8 {
        Err(DecodingError::Truncated)
    } else {
        Ok((spec_u64_from_le_bytes(s.take(8)), s.skip(8)))
    }
}

/// Reads a field element from the front of a stream.
pub open spec fn parse_field(s: Seq<u8>) -> Result<(FieldElem, Seq<u8>), DecodingError> {
    match parse_u64(s) {
        Err(e) => Err(e),
        Ok((c0, s1)) => match parse_u64(s1) {
            Err(e) => Err(e),
            Ok((c1, s2)) => match parse_u64(s2) {
                Err(e) => Err(e),
                Ok((c2, s3)) => match parse_u64(s3) {
                    Err(e) => Err(e),
                    Ok((c3, s4)) => Ok((FieldElem { c0, c1, c2, c3 }, s4)),
                },
            },
        },
    }
}

/// Reads a wire reference from the front of a stream.
pub open spec fn parse_wire(s: Seq<u8>) -> Result<(Wire, Seq<u8>), DecodingError> {
    match parse_u64(s) {
        Err(e) => Err(e),
        Ok((row, s1)) => match parse_u64(s1) {
            Err(e) => Err(e),
            Ok((col, s2)) => Ok((Wire { row, col }, s2)),
        },
    }
}

/// Reads a gate-type tag from the front of a stream.
pub open spec fn parse_gate_type(s: Seq<u8>) -> Result<
    (crate::gate::GateType, Seq<u8>),
    DecodingError,
> {
    if s.len() < 1 {
        Err(DecodingError::Truncated)
    } else {
        match tag_gate_type(s[0]) {
            None => Err(DecodingError::InvalidGateType),
            Some(t) => Ok((t, s.skip(1))),
        }
    }
}

/// Reads `n` field elements from the front of a stream.
pub open spec fn parse_fields(s: Seq<u8>, n: u64) -> Result<(Seq<FieldElem>, Seq<u8>), DecodingError>
    decreases n,
{
    if n == 0 {
        Ok((Seq::empty(), s))
    } else {
        match parse_field(s) {
            Err(e) => Err(e),
            Ok((f, s1)) => match parse_fields(s1, (n - 1) as u64) {
                Err(e) => Err(e),
                Ok((fs, s2)) => Ok((seq![f] + fs, s2)),
            },
        }
    }
}

/// Reads one gate from the front of a stream.
pub open spec fn parse_gate(s: Seq<u8>) -> Result<(GateView, Seq<u8>), DecodingError> {
    match parse_gate_type(s) {
        Err(e) => Err(e),
        Ok((typ, s1)) => match parse_wire(s1) {
            Err(e) => Err(e),
            Ok((w0, s2)) => match parse_wire(s2) {
                Err(e) => Err(e),
                Ok((w1, s3)) => match parse_wire(s3) {
                    Err(e) => Err(e),
                    Ok((w2, s4)) => match parse_wire(s4) {
                        Err(e) => Err(e),
                        Ok((w3, s5)) => match parse_wire(s5) {
                            Err(e) => Err(e),
                            Ok((w4, s6)) => match parse_wire(s6) {
                                Err(e) => Err(e),
                                Ok((w5, s7)) => match parse_wire(s7) {
                                    Err(e) => Err(e),
                                    Ok((w6, s8)) => match parse_u64(s8) {
                                        Err(e) => Err(e),
                                        Ok((cnt, s9)) => match parse_fields(s9, cnt) {
                                            Err(e) => Err(e),
                                            Ok((coeffs, s10)) => Ok(
                                                (GateView { typ, w0, w1, w2, w3, w4, w5, w6, coeffs }, s10),
                                            ),
                                        },
                                    },
                                },
                            },
                        },
                    },
                },
            },
        },
    }
}

/// Reads `n` gates from the front of a stream.
pub open spec fn parse_gates(s: Seq<u8>, n: u64) -> Result<(Seq<GateView>, Seq<u8>), DecodingError>
    decreases n,
{
    if n == 0 {
        Ok((Seq::empty(), s))
    } else {
        match parse_gate(s) {
            Err(e) => Err(e),
            Ok((g, s1)) => match parse_gates(s1, (n - 1) as u64) {
                Err(e) => Err(e),
                Ok((gs, s2)) => Ok((seq![g] + gs, s2)),
            },
        }
    }
}

/// Reads the digest from the front of a stream.
pub open spec fn parse_digest(s: Seq<u8>) -> Result<(Digest, Seq<u8>), DecodingError> {
    match parse_u64(s) {
        Err(e) => Err(e),
        Ok((h0, s1)) => match parse_u64(s1) {
            Err(e) => Err(e),
            Ok((h1, s2)) => match parse_u64(s2) {
                Err(e) => Err(e),
                Ok((h2, s3)) => match parse_u64(s3) {
                    Err(e) => Err(e),
                    Ok((h3, s4)) => Ok((Digest { h0, h1, h2, h3 }, s4)),
                },
            },
        },
    }
}

/// Decodes the persisted form of a proving index from the front of a stream:
/// header, constraint system (validated as on a fresh build), endomorphism
/// scalar and cached digest. Trailing bytes are left for the caller.
pub open spec fn parse_index(s: Seq<u8>) -> Result<(CsView, FieldElem, Digest), DecodingError> {
    if s.len() < 5 {
        Err(DecodingError::Truncated)
    } else if !(s[0] == MAGIC_0 && s[1] == MAGIC_1 && s[2] == MAGIC_2 && s[3] == MAGIC_3) {
        Err(DecodingError::BadMagic)
    } else if s[4] != FORMAT_VERSION {
        Err(DecodingError::UnsupportedVersion)
    } else {
        match parse_u64(s.skip(5)) {
            Err(e) => Err(e),
            Ok((count, s1)) => if count > MAX_CIRCUIT_ROWS {
                Err(DecodingError::CircuitTooLarge)
            } else {
                match parse_gates(s1, count) {
                    Err(e) => Err(e),
                    Ok((gates, s2)) => match parse_u64(s2) {
                        Err(e) => Err(e),
                        Ok((public_inputs, s3)) => match parse_u64(s3) {
                            Err(e) => Err(e),
                            Ok((prev_challenges, s4)) => match parse_u64(s4) {
                                Err(e) => Err(e),
                                Ok((d1, s5)) => if d1 as nat != padded_rows(gates.len()) {
                                    Err(DecodingError::MalformedDomain)
                                } else if !circuit_valid(gates, public_inputs, prev_challenges) {
                                    Err(DecodingError::InvalidCircuit)
                                } else {
                                    match parse_field(s5) {
                                        Err(e) => Err(e),
                                        Ok((endo, s6)) => match parse_digest(s6) {
                                            Err(e) => Err(e),
                                            Ok((dg, s7)) => Ok(
                                                (
                                                    CsView {
                                                        gates,
                                                        public_inputs,
                                                        prev_challenges,
                                                        domain: Domains {
                                                            d1,
                                                            d4: (4 * d1) as u64,
                                                            d8: (8 * d1) as u64,
                                                        },
                                                    },
                                                    endo,
                                                    dg,
                                                ),
                                            ),
                                        },
                                    }
                                },
                            },
                        },
                    },
                }
            },
        }
    }
}

/// The byte position a read starts at: the given offset, or the stream's
/// start.
pub open spec fn offset_of(offset: Option<u64>) -> int {
    match offset {
        None => 0,
        Some(v) => v as int,
    }
}

/// Encoding of a one-coefficient list.
pub proof fn lemma_enc_fields_single(f: FieldElem)
    ensures
        enc_fields(seq![f]) == enc_field(f),
{
    assert(seq![f].skip(1) =~= Seq::<FieldElem>::empty());
    assert(enc_fields(Seq::<FieldElem>::empty()) == Seq::<u8>::empty());
    assert(seq![f][0] == f);
    assert(enc_fields(seq![f]) =~= enc_field(f));
}

/// Encoding of a one-gate sequence.
pub proof fn lemma_enc_gates_single(g: GateView)
    ensures
        enc_gates(seq![g]) == enc_gate(g),
{
    assert(seq![g].skip(1) =~= Seq::<GateView>::empty());
    assert(enc_gates(Seq::<GateView>::empty()) == Seq::<u8>::empty());
    assert(seq![g][0] == g);
    assert(enc_gates(seq![g]) =~= enc_gate(g));
}

/// Coefficient-list encodings concatenate.
pub proof fn lemma_enc_fields_app(a: Seq<FieldElem>, b: Seq<FieldElem>)
    ensures
        enc_fields(a + b) == enc_fields(a) + enc_fields(b),
    decreases a.len(),
{
    if a.len() == 0 {
        assert(a + b =~= b);
        assert(enc_fields(a) + enc_fields(b) =~= enc_fields(b));
    } else {
        assert((a + b)[0] == a[0]);
        assert((a + b).skip(1) =~= a.skip(1) + b);
        lemma_enc_fields_app(a.skip(1), b);
        assert(enc_fields(a + b) =~= enc_fields(a) + enc_fields(b));
    }
}

/// Gate-sequence encodings concatenate.
pub proof fn lemma_enc_gates_app(a: Seq<GateView>, b: Seq<GateView>)
    ensures
        enc_gates(a + b) == enc_gates(a) + enc_gates(b),
    decreases a.len(),
{
    if a.len() == 0 {
        assert(a + b =~= b);
        assert(enc_gates(a) + enc_gates(b) =~= enc_gates(b));
    } else {
        assert((a + b)[0] == a[0]);
        assert((a + b).skip(1) =~= a.skip(1) + b);
        lemma_enc_gates_app(a.skip(1), b);
        assert(enc_gates(a + b) =~= enc_gates(a) + enc_gates(b));
    }
}

/// Appends the encoding of one 64-bit word.
fn push_u64(out: &mut Vec<u8>, x: u64)
    ensures
        final(out)@ == old(out)@ + enc_u64(x),
{
    let mut b = u64_to_le_bytes(x);
    out.append(&mut b);
}

/// Appends the encoding of a field element.
fn push_field(out: &mut Vec<u8>, f: FieldElem)
    ensures
        final(out)@ == old(out)@ + enc_field(f),
{
    push_u64(out, f.c0);
    push_u64(out, f.c1);
    push_u64(out, f.c2);
    push_u64(out, f.c3);
    proof {
        assert(out@ =~= old(out)@ + enc_field(f));
    }
}

/// Appends the encoding of a wire reference.
fn push_wire(out: &mut Vec<u8>, w: Wire)
    ensures
        final(out)@ == old(out)@ + enc_wire(w),
{
    push_u64(out, w.row);
    push_u64(out, w.col);
    proof {
        assert(out@ =~= old(out)@ + enc_wire(w));
    }
}

/// The tag byte of a gate type.
fn gate_type_tag_of(t: crate::gate::GateType) -> (r: u8)
    ensures
        r == gate_type_tag(t),
{
    match t {
        crate::gate::GateType::Zero => 0,
        crate::gate::GateType::Generic => 1,
        crate::gate::GateType::Poseidon => 2,
        crate::gate::GateType::CompleteAdd => 3,
        crate::gate::GateType::VarBaseMul => 4,
        crate::gate::GateType::EndoMul => 5,
        crate::gate::GateType::EndoMulScalar => 6,
    }
}

/// Appends the encoding of one gate.
fn push_gate(out: &mut Vec<u8>, g: &Gate)
    requires
        g@.coeffs.len() <= u64::MAX,
    ensures
        final(out)@ == old(out)@ + enc_gate(g@),
{
    out.push(gate_type_tag_of(g.typ));
    proof {
        assert(out@ =~= old(out)@ + seq![gate_type_tag(g@.typ)]);
    }
    push_wire(out, g.w0);
    push_wire(out, g.w1);
    push_wire(out, g.w2);
    push_wire(out, g.w3);
    push_wire(out, g.w4);
    push_wire(out, g.w5);
    push_wire(out, g.w6);
    let n: usize = g.coeffs.len();
    push_u64(out, n as u64);
    let ghost base = out@;
    let mut i: usize = 0;
    while i < g.coeffs.len()
        invariant
            i <= g.coeffs.len(),
            g@.coeffs.len() <= u64::MAX,
            out@ == base + enc_fields(g@.coeffs.take(i as int)),
        decreases g.coeffs.len() - i,
    {
        push_field(out, g.coeffs[i]);
        proof {
            assert(g@.coeffs.take(i + 1) =~= g@.coeffs.take(i as int) + seq![g@.coeffs[i as int]]);
            lemma_enc_fields_app(g@.coeffs.take(i as int), seq![g@.coeffs[i as int]]);
            lemma_enc_fields_single(g@.coeffs[i as int]);
            assert(out@ =~= base + enc_fields(g@.coeffs.take(i + 1)));
        }
        i = i + 1;
    }
    proof {
        assert(g@.coeffs.take(g@.coeffs.len() as int) =~= g@.coeffs);
        assert(out@ =~= old(out)@ + enc_gate(g@));
    }
}

/// Appends the encoding of a constraint system.
fn push_cs(out: &mut Vec<u8>, cs: &ConstraintSystem)
    requires
        all_shapes_ok(cs@.gates),
    ensures
        final(out)@ == old(out)@ + enc_cs(cs@),
{
    let n: usize = cs.gates.len();
    push_u64(out, n as u64);
    let ghost base = out@;
    let mut i: usize = 0;
    while i < cs.gates.len()
        invariant
            i <= cs.gates.len(),
            all_shapes_ok(cs@.gates),
            cs@.gates.len() == cs.gates@.len(),
            out@ == base + enc_gates(cs@.gates.take(i as int)),
        decreases cs.gates.len() - i,
    {
        proof {
            assert(gate_shape_ok(cs@.gates[i as int]));
            assert(cs@.gates[i as int] == cs.gates@[i as int]@);
        }
        push_gate(out, &cs.gates[i]);
        proof {
            assert(cs@.gates.take(i + 1) =~= cs@.gates.take(i as int) + seq![cs@.gates[i as int]]);
            lemma_enc_gates_app(cs@.gates.take(i as int), seq![cs@.gates[i as int]]);
            lemma_enc_gates_single(cs@.gates[i as int]);
            assert(out@ =~= base + enc_gates(cs@.gates.take(i + 1)));
        }
        i = i + 1;
    }
    proof {
        assert(cs@.gates.take(cs@.gates.len() as int) =~= cs@.gates);
    }
    push_u64(out, cs.public_inputs);
    push_u64(out, cs.prev_challenges);
    push_u64(out, cs.domain.d1);
    proof {
        assert(out@ =~= old(out)@ + enc_cs(cs@));
    }
}

/// Encodes the digest-covered body of the format: the constraint system and
/// the endomorphism scalar. The verifier digest is the digest of exactly
/// these bytes.
pub fn encode_body(cs: &ConstraintSystem, endo: FieldElem) -> (out: Vec<u8>)
    requires
        all_shapes_ok(cs@.gates),
    ensures
        out@ == enc_body(cs@, endo),
{
    let mut out: Vec<u8> = Vec::new();
    push_cs(&mut out, cs);
    push_field(&mut out, endo);
    proof {
        assert(out@ =~= enc_body(cs@, endo));
    }
    out
}

/// Serializes a proving index to its byte encoding. Reference-string
/// material is excluded from the format by design. Encoding a well-formed
/// index cannot fail.
pub fn write_index(index: &crate::index::ProvingIndex) -> (out: Vec<u8>)
    requires
        index@.wf(),
    ensures
        out@ == enc_index(index@),
{
    let mut out: Vec<u8> = Vec::new();
    out.push(MAGIC_0);
    out.push(MAGIC_1);
    out.push(MAGIC_2);
    out.push(MAGIC_3);
    out.push(FORMAT_VERSION);
    proof {
        assert(out@ =~= enc_header());
    }
    push_cs(&mut out, &index.cs);
    push_field(&mut out, index.endo);
    push_u64(&mut out, index.digest.h0);
    push_u64(&mut out, index.digest.h1);
    push_u64(&mut out, index.digest.h2);
    push_u64(&mut out, index.digest.h3);
    proof {
        assert(out@ =~= enc_index(index@));
    }
    out
}

/// Reads one 64-bit word at a byte position.
fn take_u64(bytes: &Vec<u8>, pos: usize) -> (r: Result<(u64, usize), DecodingError>)
    requires
        pos <= bytes@.len(),
    ensures
        ({
            let rem = bytes@.skip(pos as int);
            &&& (parse_u64(rem) matches Ok(pv) ==> r matches Ok(rv) && rv.0 == pv.0 && rv.1 == pos
                + 8 && rv.1 <= bytes@.len() && bytes@.skip(rv.1 as int) == pv.1)
            &&& (parse_u64(rem) matches Err(e) ==> r == Err::<(u64, usize), DecodingError>(e))
        }),
{
    let len = bytes.len();
    if len - pos < 8 {
        return Err(DecodingError::Truncated);
    }
    let sl = slice_subrange(bytes.as_slice(), pos, pos + 8);
    let v = u64_from_le_bytes(sl);
    proof {
        let rem = bytes@.skip(pos as int);
        assert(sl@ =~= rem.take(8));
        assert(bytes@.skip(pos + 8) =~= rem.skip(8));
    }
    Ok((v, pos + 8))
}

/// Reads a field element at a byte position.
fn take_field(bytes: &Vec<u8>, pos: usize) -> (r: Result<(FieldElem, usize), DecodingError>)
    requires
        pos <= bytes@.len(),
    ensures
        ({
            let rem = bytes@.skip(pos as int);
            &&& (parse_field(rem) matches Ok(pv) ==> r matches Ok(rv) && rv.0 == pv.0 && rv.1
                <= bytes@.len() && bytes@.skip(rv.1 as int) == pv.1)
            &&& (parse_field(rem) matches Err(e) ==> r == Err::<(FieldElem, usize), DecodingError>(
                e,
            ))
        }),
{
    let (c0, p1) = match take_u64(bytes, pos) {
        Err(e) => {
            return Err(e);
        },
        Ok(q) => q,
    };
    let (c1, p2) = match take_u64(bytes, p1) {
        Err(e) => {
            return Err(e);
        },
        Ok(q) => q,
    };
    let (c2, p3) = match take_u64(bytes, p2) {
        Err(e) => {
            return Err(e);
        },
        Ok(q) => q,
    };
    let (c3, p4) = match take_u64(bytes, p3) {
        Err(e) => {
            return Err(e);
        },
        Ok(q) => q,
    };
    Ok((FieldElem { c0, c1, c2, c3 }, p4))
}

/// Reads a wire reference at a byte position.
fn take_wire(bytes: &Vec<u8>, pos: usize) -> (r: Result<(Wire, usize), DecodingError>)
    requires
        pos <= bytes@.len(),
    ensures
        ({
            let rem = bytes@.skip(pos as int);
            &&& (parse_wire(rem) matches Ok(pv) ==> r matches Ok(rv) && rv.0 == pv.0 && rv.1
                <= bytes@.len() && bytes@.skip(rv.1 as int) == pv.1)
            &&& (parse_wire(rem) matches Err(e) ==> r == Err::<(Wire, usize), DecodingError>(e))
        }),
{
    let (row, p1) = match take_u64(bytes, pos) {
        Err(e) => {
            return Err(e);
        },
        Ok(q) => q,
    };
    let (col, p2) = match take_u64(bytes, p1) {
        Err(e) => {
            return Err(e);
        },
        Ok(q) => q,
    };
    Ok((Wire { row, col }, p2))
}

/// Reads the digest at a byte position.
fn take_digest(bytes: &Vec<u8>, pos: usize) -> (r: Result<(Digest, usize), DecodingError>)
    requires
        pos <= bytes@.len(),
    ensures
        ({
            let rem = bytes@.skip(pos as int);
            &&& (parse_digest(rem) matches Ok(pv) ==> r matches Ok(rv) && rv.0 == pv.0 && rv.1
                <= bytes@.len() && bytes@.skip(rv.1 as int) == pv.1)
            &&& (parse_digest(rem) matches Err(e) ==> r == Err::<(Digest, usize), DecodingError>(
                e,
            ))
        }),
{
    let (h0, p1) = match take_u64(bytes, pos) {
        Err(e) => {
            return Err(e);
        },
        Ok(q) => q,
    };
    let (h1, p2) = match take_u64(bytes, p1) {
        Err(e) => {
            return Err(e);
        },
        Ok(q) => q,
    };
    let (h2, p3) = match take_u64(bytes, p2) {
        Err(e) => {
            return Err(e);
        },
        Ok(q) => q,
    };
    let (h3, p4) = match take_u64(bytes, p3) {
        Err(e) => {
            return Err(e);
        },
        Ok(q) => q,
    };
    Ok((Digest { h0, h1, h2, h3 }, p4))
}

/// Which gate type a tag byte stands for, if any.
fn gate_type_of_tag(b: u8) -> (r: Option<crate::gate::GateType>)
    ensures
        r == tag_gate_type(b),
{
    if b == 0 {
        Some(crate::gate::GateType::Zero)
    } else if b == 1 {
        Some(crate::gate::GateType::Generic)
    } else if b == 2 {
        Some(crate::gate::GateType::Poseidon)
    } else if b == 3 {
        Some(crate::gate::GateType::CompleteAdd)
    } else if b == 4 {
        Some(crate::gate::GateType::VarBaseMul)
    } else if b == 5 {
        Some(crate::gate::GateType::EndoMul)
    } else if b == 6 {
        Some(crate::gate::GateType::EndoMulScalar)
    } else {
        None
    }
}

/// Reads a gate-type tag at a byte position.
fn take_gate_type(bytes: &Vec<u8>, pos: usize) -> (r: Result<
    (crate::gate::GateType, usize),
    DecodingError,
>)
    requires
        pos <= bytes@.len(),
    ensures
        ({
            let rem = bytes@.skip(pos as int);
            &&& (parse_gate_type(rem) matches Ok(pv) ==> r matches Ok(rv) && rv.0 == pv.0 && rv.1
                == pos + 1 && rv.1 <= bytes@.len() && bytes@.skip(rv.1 as int) == pv.1)
            &&& (parse_gate_type(rem) matches Err(e) ==> r == Err::<
                (crate::gate::GateType, usize),
                DecodingError,
            >(e))
        }),
{
    let len = bytes.len();
    if len - pos < 1 {
        return Err(DecodingError::Truncated);
    }
    let b = bytes[pos];
    proof {
        let rem = bytes@.skip(pos as int);
        assert(rem[0] == bytes@[pos as int]);
        assert(bytes@.skip(pos + 1) =~= rem.skip(1));
    }
    match gate_type_of_tag(b) {
        None => Err(DecodingError::InvalidGateType),
        Some(t) => Ok((t, pos + 1)),
    }
}

/// Reads `n` field elements at a byte position.
fn take_fields(bytes: &Vec<u8>, pos: usize, n: u64) -> (r: Result<
    (Vec<FieldElem>, usize),
    DecodingError,
>)
    requires
        pos <= bytes@.len(),
    ensures
        ({
            let rem = bytes@.skip(pos as int);
            &&& (parse_fields(rem, n) matches Ok(pv) ==> r matches Ok(rv) && rv.0@ == pv.0
                && rv.0@.len() == n && rv.1 <= bytes@.len() && bytes@.skip(rv.1 as int) == pv.1)
            &&& (parse_fields(rem, n) matches Err(e) ==> r == Err::<
                (Vec<FieldElem>, usize),
                DecodingError,
            >(e))
        }),
{
    let ghost rem0 = bytes@.skip(pos as int);
    let mut out: Vec<FieldElem> = Vec::new();
    let mut p: usize = pos;
    let mut i: u64 = 0;
    while i < n
        invariant
            i <= n,
            p <= bytes@.len(),
            out@.len() == i as nat,
            rem0 == bytes@.skip(pos as int),
            ({
                let cur = bytes@.skip(p as int);
                &&& (parse_fields(cur, (n - i) as u64) matches Ok(q) ==> parse_fields(rem0, n)
                    matches Ok(q0) && q0.0 == out@ + q.0 && q0.1 == q.1)
                &&& (parse_fields(cur, (n - i) as u64) matches Err(e) ==> parse_fields(rem0, n)
                    == Err::<(Seq<FieldElem>, Seq<u8>), DecodingError>(e))
            }),
        decreases n - i,
    {
        let ghost cur = bytes@.skip(p as int);
        let ghost k = (n - i) as u64;
        let (f, p2) = match take_field(bytes, p) {
            Err(e) => {
                proof {
                    assert(parse_fields(cur, k) == Err::<(Seq<FieldElem>, Seq<u8>), DecodingError>(
                        e,
                    ));
                }
                return Err(e);
            },
            Ok(q) => q,
        };
        let ghost prev_out = out@;
        out.push(f);
        proof {
            let cur2 = bytes@.skip(p2 as int);
            match parse_fields(cur2, (k - 1) as u64) {
                Err(e) => {
                    assert(parse_fields(cur, k) == Err::<(Seq<FieldElem>, Seq<u8>), DecodingError>(
                        e,
                    ));
                },
                Ok((fs, s2)) => {
                    assert(parse_fields(cur, k) == Ok::<(Seq<FieldElem>, Seq<u8>), DecodingError>(
                        (seq![f] + fs, s2),
                    ));
                    assert(prev_out + (seq![f] + fs) =~= (prev_out + seq![f]) + fs);
                    assert(out@ =~= prev_out + seq![f]);
                },
            }
        }
        p = p2;
        i = i + 1;
    }
    proof {
        let cur = bytes@.skip(p as int);
        assert(parse_fields(cur, 0) == Ok::<(Seq<FieldElem>, Seq<u8>), DecodingError>(
            (Seq::empty(), cur),
        ));
        assert(out@ + Seq::<FieldElem>::empty() =~= out@);
    }
    Ok((out, p))
}

/// Reads one gate at a byte position.
fn take_gate(bytes: &Vec<u8>, pos: usize) -> (r: Result<(Gate, usize), DecodingError>)
    requires
        pos <= bytes@.len(),
    ensures
        ({
            let rem = bytes@.skip(pos as int);
            &&& (parse_gate(rem) matches Ok(pv) ==> r matches Ok(rv) && rv.0@ == pv.0 && rv.1
                <= bytes@.len() && bytes@.skip(rv.1 as int) == pv.1)
            &&& (parse_gate(rem) matches Err(e) ==> r == Err::<(Gate, usize), DecodingError>(e))
        }),
{
    let (typ, p1) = match take_gate_type(bytes, pos) {
        Err(e) => {
            return Err(e);
        },
        Ok(q) => q,
    };
    let (w0, p2) = match take_wire(bytes, p1) {
        Err(e) => {
            return Err(e);
        },
        Ok(q) => q,
    };
    let (w1, p3) = match take_wire(bytes, p2) {
        Err(e) => {
            return Err(e);
        },
        Ok(q) => q,
    };
    let (w2, p4) = match take_wire(bytes, p3) {
        Err(e) => {
            return Err(e);
        },
        Ok(q) => q,
    };
    let (w3, p5) = match take_wire(bytes, p4) {
        Err(e) => {
            return Err(e);
        },
        Ok(q) => q,
    };
    let (w4, p6) = match take_wire(bytes, p5) {
        Err(e) => {
            return Err(e);
        },
        Ok(q) => q,
    };
    let (w5, p7) = match take_wire(bytes, p6) {
        Err(e) => {
            return Err(e);
        },
        Ok(q) => q,
    };
    let (w6, p8) = match take_wire(bytes, p7) {
        Err(e) => {
            return Err(e);
        },
        Ok(q) => q,
    };
    let (cnt, p9) = match take_u64(bytes, p8) {
        Err(e) => {
            return Err(e);
        },
        Ok(q) => q,
    };
    let (coeffs, p10) = match take_fields(bytes, p9, cnt) {
        Err(e) => {
            return Err(e);
        },
        Ok(q) => q,
    };
    Ok((Gate { typ, w0, w1, w2, w3, w4, w5, w6, coeffs }, p10))
}

/// Reads `n` gates at a byte position.
fn take_gates(bytes: &Vec<u8>, pos: usize, n: u64) -> (r: Result<(Vec<Gate>, usize), DecodingError>)
    requires
        pos <= bytes@.len(),
    ensures
        ({
            let rem = bytes@.skip(pos as int);
            &&& (parse_gates(rem, n) matches Ok(pv) ==> r matches Ok(rv) && gates_view(rv.0@)
                == pv.0 && rv.0@.len() == n && rv.1 <= bytes@.len() && bytes@.skip(rv.1 as int)
                == pv.1)
            &&& (parse_gates(rem, n) matches Err(e) ==> r == Err::<
                (Vec<Gate>, usize),
                DecodingError,
            >(e))
        }),
{
    let ghost rem0 = bytes@.skip(pos as int);
    let mut out: Vec<Gate> = Vec::new();
    let mut p: usize = pos;
    let mut i: u64 = 0;
    while i < n
        invariant
            i <= n,
            p <= bytes@.len(),
            out@.len() == i as nat,
            rem0 == bytes@.skip(pos as int),
            ({
                let cur = bytes@.skip(p as int);
                &&& (parse_gates(cur, (n - i) as u64) matches Ok(q) ==> parse_gates(rem0, n)
                    matches Ok(q0) && q0.0 == gates_view(out@) + q.0 && q0.1 == q.1)
                &&& (parse_gates(cur, (n - i) as u64) matches Err(e) ==> parse_gates(rem0, n)
                    == Err::<(Seq<GateView>, Seq<u8>), DecodingError>(e))
            }),
        decreases n - i,
    {
        let ghost cur = bytes@.skip(p as int);
        let ghost k = (n - i) as u64;
        let (g, p2) = match take_gate(bytes, p) {
            Err(e) => {
                proof {
                    assert(parse_gates(cur, k) == Err::<(Seq<GateView>, Seq<u8>), DecodingError>(
                        e,
                    ));
                }
                return Err(e);
            },
            Ok(q) => q,
        };
        let ghost prev_out = out@;
        out.push(g);
        proof {
            assert forall|j: int| 0 <= j < out@.len() implies gates_view(out@)[j] == (gates_view(
                prev_out,
            ) + seq![g@])[j] by {
                assert(gates_view(out@)[j] == out@[j]@);
                if j < prev_out.len() {
                    assert(gates_view(prev_out)[j] == prev_out[j]@);
                }
            }
            assert(gates_view(out@) =~= gates_view(prev_out) + seq![g@]);
            let cur2 = bytes@.skip(p2 as int);
            match parse_gates(cur2, (k - 1) as u64) {
                Err(e) => {
                    assert(parse_gates(cur, k) == Err::<(Seq<GateView>, Seq<u8>), DecodingError>(
                        e,
                    ));
                },
                Ok((gs, s2)) => {
                    assert(parse_gates(cur, k) == Ok::<(Seq<GateView>, Seq<u8>), DecodingError>(
                        (seq![g@] + gs, s2),
                    ));
                    assert(gates_view(prev_out) + (seq![g@] + gs) =~= (gates_view(prev_out)
                        + seq![g@]) + gs);
                },
            }
        }
        p = p2;
        i = i + 1;
    }
    proof {
        let cur = bytes@.skip(p as int);
        assert(parse_gates(cur, 0) == Ok::<(Seq<GateView>, Seq<u8>), DecodingError>(
            (Seq::empty(), cur),
        ));
        assert(gates_view(out@) + Seq::<GateView>::empty() =~= gates_view(out@));
    }
    Ok((out, p))
}

/// Deserializes a proving index from a byte stream, optionally starting at a
/// byte offset. The decoded constraint system is validated as on a fresh
/// build; the caller's reference string is attached in place of any stored
/// string material; the linearization is re-derived from the fixed
/// configuration; the cached digest is taken from the stream as decoded.
pub fn read_index(bytes: &Vec<u8>, offset: Option<u64>, srs: &Srs) -> (r: Result<
    ProvingIndex,
    DecodingError,
>)
    ensures
        offset_of(offset) > bytes@.len() ==> r == Err::<ProvingIndex, DecodingError>(
            DecodingError::Truncated,
        ),
        offset_of(offset) <= bytes@.len() ==> match parse_index(bytes@.skip(offset_of(offset))) {
            Err(e) => r == Err::<ProvingIndex, DecodingError>(e),
            Ok(pv) => r matches Ok(i) && i@.cs == pv.0 && i@.srs == srs@ && i@.endo == pv.1
                && i@.digest == pv.2 && i@.linearization == linearization_spec() && i@.wf(),
        },
{
    let off64: u64 = match offset {
        None => 0,
        Some(v) => v,
    };
    let len: usize = bytes.len();
    if off64 > len as u64 {
        return Err(DecodingError::Truncated);
    }
    let off: usize = off64 as usize;
    let ghost rem = bytes@.skip(off as int);
    if len - off < 5 {
        return Err(DecodingError::Truncated);
    }
    let m0 = bytes[off];
    let m1 = bytes[off + 1];
    let m2 = bytes[off + 2];
    let m3 = bytes[off + 3];
    let ver = bytes[off + 4];
    proof {
        assert(rem[0] == bytes@[off as int]);
        assert(rem[1] == bytes@[off + 1]);
        assert(rem[2] == bytes@[off + 2]);
        assert(rem[3] == bytes@[off + 3]);
        assert(rem[4] == bytes@[off + 4]);
    }
    if !(m0 == MAGIC_0 && m1 == MAGIC_1 && m2 == MAGIC_2 && m3 == MAGIC_3) {
        return Err(DecodingError::BadMagic);
    }
    if ver != FORMAT_VERSION {
        return Err(DecodingError::UnsupportedVersion);
    }
    let pos0: usize = off + 5;
    proof {
        assert(bytes@.skip(pos0 as int) =~= rem.skip(5));
    }
    let (count, pos1) = match take_u64(bytes, pos0) {
        Err(e) => {
            return Err(e);
        },
        Ok(q) => q,
    };
    if count > MAX_CIRCUIT_ROWS {
        return Err(DecodingError::CircuitTooLarge);
    }
    let (gates, pos2) = match take_gates(bytes, pos1, count) {
        Err(e) => {
            return Err(e);
        },
        Ok(q) => q,
    };
    let (public_inputs, pos3) = match take_u64(bytes, pos2) {
        Err(e) => {
            return Err(e);
        },
        Ok(q) => q,
    };
    let (prev_challenges, pos4) = match take_u64(bytes, pos3) {
        Err(e) => {
            return Err(e);
        },
        Ok(q) => q,
    };
    let (d1, pos5) = match take_u64(bytes, pos4) {
        Err(e) => {
            return Err(e);
        },
        Ok(q) => q,
    };
    let domain = domains_for(count);
    proof {
        crate::domain::lemma_next_pow2_props(
            if count >= 1 {
                count as nat
            } else {
                1
            },
        );
        assert(domain.d1 as nat == padded_rows(gates_view(gates@).len()));
    }
    if d1 != domain.d1 {
        return Err(DecodingError::MalformedDomain);
    }
    if prev_challenges > MAX_PREV_CHALLENGES {
        return Err(DecodingError::InvalidCircuit);
    }
    if public_inputs > count {
        return Err(DecodingError::InvalidCircuit);
    }
    if !check_shapes(&gates) {
        return Err(DecodingError::InvalidCircuit);
    }
    if !check_rows(&gates, d1) {
        return Err(DecodingError::InvalidCircuit);
    }
    proof {
        assert(circuit_valid(gates_view(gates@), public_inputs, prev_challenges));
    }
    let (endo, pos6) = match take_field(bytes, pos5) {
        Err(e) => {
            return Err(e);
        },
        Ok(q) => q,
    };
    let (dg, _pos7) = match take_digest(bytes, pos6) {
        Err(e) => {
            return Err(e);
        },
        Ok(q) => q,
    };
    let cs = ConstraintSystem { gates, public_inputs, prev_challenges, domain };
    let index = ProvingIndex {
        cs,
        srs: srs.duplicate(),
        endo,
        linearization: derive_linearization(),
        digest: dg,
    };
    proof {
        let pv = parse_index(bytes@.skip(offset_of(offset)));
        assert(index@.cs =~= pv->Ok_0.0);
        assert(index@.wf());
    }
    Ok(index)
}

/// Reading an encoded word gives the word back.
pub proof fn lemma_parse_u64_enc(x: u64, rest: Seq<u8>)
    ensures
        parse_u64(enc_u64(x) + rest) == Ok::<(u64, Seq<u8>), DecodingError>((x, rest)),
{
    vstd::bytes::lemma_auto_spec_u64_to_from_le_bytes();
    let s = enc_u64(x) + rest;
    assert(enc_u64(x).len() == 8);
    assert(s.take(8) =~= enc_u64(x));
    assert(s.skip(8) =~= rest);
}

/// Reading an encoded field element gives it back.
pub proof fn lemma_parse_field_enc(f: FieldElem, rest: Seq<u8>)
    ensures
        parse_field(enc_field(f) + rest) == Ok::<(FieldElem, Seq<u8>), DecodingError>((f, rest)),
{
    let r3 = enc_u64(f.c3) + rest;
    let r2 = enc_u64(f.c2) + r3;
    let r1 = enc_u64(f.c1) + r2;
    assert(enc_field(f) + rest =~= enc_u64(f.c0) + r1);
    lemma_parse_u64_enc(f.c0, r1);
    lemma_parse_u64_enc(f.c1, r2);
    lemma_parse_u64_enc(f.c2, r3);
    lemma_parse_u64_enc(f.c3, rest);
}

/// Reading an encoded wire gives it back.
pub proof fn lemma_parse_wire_enc(w: Wire, rest: Seq<u8>)
    ensures
        parse_wire(enc_wire(w) + rest) == Ok::<(Wire, Seq<u8>), DecodingError>((w, rest)),
{
    let r1 = enc_u64(w.col) + rest;
    assert(enc_wire(w) + rest =~= enc_u64(w.row) + r1);
    lemma_parse_u64_enc(w.row, r1);
    lemma_parse_u64_enc(w.col, rest);
}

/// Reading an encoded digest gives it back.
pub proof fn lemma_parse_digest_enc(d: Digest, rest: Seq<u8>)
    ensures
        parse_digest(enc_digest(d) + rest) == Ok::<(Digest, Seq<u8>), DecodingError>((d, rest)),
{
    let r3 = enc_u64(d.h3) + rest;
    let r2 = enc_u64(d.h2) + r3;
    let r1 = enc_u64(d.h1) + r2;
    assert(enc_digest(d) + rest =~= enc_u64(d.h0) + r1);
    lemma_parse_u64_enc(d.h0, r1);
    lemma_parse_u64_enc(d.h1, r2);
    lemma_parse_u64_enc(d.h2, r3);
    lemma_parse_u64_enc(d.h3, rest);
}

/// Reading an encoded gate-type tag gives that gate type back.
pub proof fn lemma_parse_gate_type_enc(t: crate::gate::GateType, rest: Seq<u8>)
    ensures
        parse_gate_type(seq![gate_type_tag(t)] + rest) == Ok::<
            (crate::gate::GateType, Seq<u8>),
            DecodingError,
        >((t, rest)),
{
    let s = seq![gate_type_tag(t)] + rest;
    assert(s[0] == gate_type_tag(t));
    assert(s.skip(1) =~= rest);
    assert(tag_gate_type(gate_type_tag(t)) == Some(t));
}

/// Reading an encoded coefficient list of known length gives it back.
pub proof fn lemma_parse_fields_enc(s: Seq<FieldElem>, rest: Seq<u8>)
    requires
        s.len() <= u64::MAX,
    ensures
        parse_fields(enc_fields(s) + rest, s.len() as u64) == Ok::<
            (Seq<FieldElem>, Seq<u8>),
            DecodingError,
        >((s, rest)),
    decreases s.len(),
{
    if s.len() == 0 {
        assert(enc_fields(s) + rest =~= rest);
        assert(s =~= Seq::<FieldElem>::empty());
    } else {
        let tail = s.skip(1);
        let rest1 = enc_fields(tail) + rest;
        assert(enc_fields(s) + rest =~= enc_field(s[0]) + rest1);
        lemma_parse_field_enc(s[0], rest1);
        lemma_parse_fields_enc(tail, rest);
        assert(tail.len() as u64 == (s.len() as u64 - 1) as u64);
        assert(seq![s[0]] + tail =~= s);
    }
}

/// Reading an encoded gate gives it back.
#[verifier::spinoff_prover]
#[verifier::rlimit(100)]
pub proof fn lemma_parse_gate_enc(g: GateView, rest: Seq<u8>)
    requires
        g.coeffs.len() <= u64::MAX,
    ensures
        parse_gate(enc_gate(g) + rest) == Ok::<(GateView, Seq<u8>), DecodingError>((g, rest)),
{
    let cnt = g.coeffs.len() as u64;
    let r9 = enc_fields(g.coeffs) + rest;
    let r8 = enc_u64(cnt) + r9;
    let r7 = enc_wire(g.w6) + r8;
    let r6 = enc_wire(g.w5) + r7;
    let r5 = enc_wire(g.w4) + r6;
    let r4 = enc_wire(g.w3) + r5;
    let r3 = enc_wire(g.w2) + r4;
    let r2 = enc_wire(g.w1) + r3;
    let r1 = enc_wire(g.w0) + r2;
    assert(enc_gate(g) + rest =~= seq![gate_type_tag(g.typ)] + r1);
    lemma_parse_gate_type_enc(g.typ, r1);
    lemma_parse_wire_enc(g.w0, r2);
    lemma_parse_wire_enc(g.w1, r3);
    lemma_parse_wire_enc(g.w2, r4);
    lemma_parse_wire_enc(g.w3, r5);
    lemma_parse_wire_enc(g.w4, r6);
    lemma_parse_wire_enc(g.w5, r7);
    lemma_parse_wire_enc(g.w6, r8);
    lemma_parse_u64_enc(cnt, r9);
    lemma_parse_fields_enc(g.coeffs, rest);
    assert(parse_gate(enc_gate(g) + rest) == Ok::<(GateView, Seq<u8>), DecodingError>((g, rest)));
}

/// Reading an encoded gate sequence of known length gives it back.
pub proof fn lemma_parse_gates_enc(gs: Seq<GateView>, rest: Seq<u8>)
    requires
        gs.len() <= u64::MAX,
        forall|i: int| 0 <= i < gs.len() ==> (#[trigger] gs[i]).coeffs.len() <= u64::MAX,
    ensures
        parse_gates(enc_gates(gs) + rest, gs.len() as u64) == Ok::<
            (Seq<GateView>, Seq<u8>),
            DecodingError,
        >((gs, rest)),
    decreases gs.len(),
{
    if gs.len() == 0 {
        assert(enc_gates(gs) + rest =~= rest);
        assert(gs =~= Seq::<GateView>::empty());
    } else {
        let tail = gs.skip(1);
        let rest1 = enc_gates(tail) + rest;
        assert(enc_gates(gs) + rest =~= enc_gate(gs[0]) + rest1);
        lemma_parse_gate_enc(gs[0], rest1);
        assert(forall|i: int| 0 <= i < tail.len() ==> (#[trigger] tail[i]).coeffs.len()
            <= u64::MAX) by {
            assert(forall|i: int| 0 <= i < tail.len() ==> tail[i] == gs[i + 1]);
        }
        lemma_parse_gates_enc(tail, rest);
        assert(tail.len() as u64 == (gs.len() as u64 - 1) as u64);
        assert(seq![gs[0]] + tail =~= gs);
    }
}

/// Round trip: the persisted form of a well-formed proving index, read back
/// from the front of any stream that starts with it, yields exactly the
/// constraint system, endomorphism scalar and cached digest that were
/// written, whatever follows them; the reference string is re-attached and
/// the linearization re-derived by the reader.
#[verifier::spinoff_prover]
#[verifier::rlimit(100)]
pub proof fn lemma_write_read_round_trip(i: IndexView, trailing: Seq<u8>)
    requires
        i.cs.wf(),
    ensures
        parse_index(enc_index(i) + trailing) == Ok::<(CsView, FieldElem, Digest), DecodingError>(
            (i.cs, i.endo, i.digest),
        ),
{
    let s6 = enc_digest(i.digest) + trailing;
    let s5 = enc_field(i.endo) + s6;
    let s4 = enc_u64(i.cs.domain.d1) + s5;
    let s3 = enc_u64(i.cs.prev_challenges) + s4;
    let s2 = enc_u64(i.cs.public_inputs) + s3;
    let s1 = enc_gates(i.cs.gates) + s2;
    let count = i.cs.gates.len() as u64;
    let s0 = enc_u64(count) + s1;
    let s = enc_index(i) + trailing;
    assert(s =~= enc_header() + s0);
    assert(s.len() >= 5);
    assert(s[0] == MAGIC_0 && s[1] == MAGIC_1 && s[2] == MAGIC_2 && s[3] == MAGIC_3 && s[4]
        == FORMAT_VERSION);
    assert(s.skip(5) =~= s0);
    lemma_parse_u64_enc(count, s1);
    assert(count <= MAX_CIRCUIT_ROWS);
    assert forall|k: int| 0 <= k < i.cs.gates.len() implies (#[trigger] i.cs.gates[k]).coeffs.len()
        <= u64::MAX by {
        assert(gate_shape_ok(i.cs.gates[k]));
    }
    lemma_parse_gates_enc(i.cs.gates, s2);
    lemma_parse_u64_enc(i.cs.public_inputs, s3);
    lemma_parse_u64_enc(i.cs.prev_challenges, s4);
    lemma_parse_u64_enc(i.cs.domain.d1, s5);
    assert(i.cs.domain.d1 as nat == padded_rows(i.cs.gates.len()));
    assert(circuit_valid(i.cs.gates, i.cs.public_inputs, i.cs.prev_challenges));
    lemma_parse_field_enc(i.endo, s6);
    lemma_parse_digest_enc(i.digest, trailing);
    assert((4 * i.cs.domain.d1) as u64 == i.cs.domain.d4);
    assert((8 * i.cs.domain.d1) as u64 == i.cs.domain.d8);
    assert(Domains {
        d1: i.cs.domain.d1,
        d4: (4 * i.cs.domain.d1) as u64,
        d8: (8 * i.cs.domain.d1) as u64,
    } == i.cs.domain);
    assert(CsView {
        gates: i.cs.gates,
        public_inputs: i.cs.public_inputs,
        prev_challenges: i.cs.prev_challenges,
        domain: Domains {
            d1: i.cs.domain.d1,
            d4: (4 * i.cs.domain.d1) as u64,
            d8: (8 * i.cs.domain.d1) as u64,
        },
    } =~= i.cs);
}

/// Offset read: when a stream holds other encodings first, reading at the
/// byte offset where a well-formed index's encoding starts yields exactly
/// that index's contents, whatever the earlier bytes hold.
pub proof fn lemma_offset_read(prefix: Seq<u8>, i: IndexView)
    requires
        i.cs.wf(),
    ensures
        parse_index((prefix + enc_index(i)).skip(prefix.len() as int)) == Ok::<
            (CsView, FieldElem, Digest),
            DecodingError,
        >((i.cs, i.endo, i.digest)),
{
    assert((prefix + enc_index(i)).skip(prefix.len() as int) =~= enc_index(i)
        + Seq::<u8>::empty());
    lemma_write_read_round_trip(i, Seq::empty());
}

} // verus!
