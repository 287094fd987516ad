use plonk_index::codec::{read_index, write_index, DecodingError};
use plonk_index::constraint_system::{build, ConstraintSystemError};
use plonk_index::domain::next_pow2;
use plonk_index::gate::{FieldElem, Gate, GateType, GateVector, Wire};
use plonk_index::index::{create_index, endo_scalar, ProvingIndex};
use plonk_index::linearization::derive_linearization;
use plonk_index::srs::Srs;

fn fe(a: u64) -> FieldElem {
    FieldElem { c0: a, c1: 0, c2: 0, c3: 0 }
}

fn w(row: u64, col: u64) -> Wire {
    Wire { row, col }
}

fn gate(typ: GateType, coeffs: Vec<FieldElem>) -> Gate {
    Gate {
        typ,
        w0: w(0, 0),
        w1: w(0, 1),
        w2: w(0, 2),
        w3: w(0, 3),
        w4: w(0, 4),
        w5: w(0, 5),
        w6: w(0, 6),
        coeffs,
    }
}

fn small_gates(n: u64) -> Vec<Gate> {
    let mut gates = Vec::new();
    let mut i: u64 = 0;
    while i < n {
        gates.push(gate(GateType::Generic, vec![fe(i), fe(i + 1)]));
        i += 1;
    }
    gates
}

fn make_index(n_gates: u64, public: u64, srs: &mut Srs) -> ProvingIndex {
    create_index(small_gates(n_gates), public, 0, srs).unwrap()
}

#[test]
fn normalize_preserves_gates() {
    let v = GateVector(vec![
        gate(GateType::Generic, vec![fe(1)]),
        gate(GateType::Poseidon, vec![fe(2), fe(3)]),
    ]);
    let out = v.normalize();
    assert_eq!(out, v.0);
}

#[test]
fn domain_scaling_small_circuit() {
    let cs = build(small_gates(5), 1, 0).unwrap();
    assert_eq!(cs.domain.d1, 8);
    assert_eq!(cs.domain.d4, 32);
    assert_eq!(cs.domain.d8, 64);
}

#[test]
fn empty_circuit_domains() {
    let cs = build(Vec::new(), 0, 0).unwrap();
    assert_eq!(cs.domain.d1, 1);
    assert_eq!(cs.domain.d4, 4);
    assert_eq!(cs.domain.d8, 8);
}

#[test]
fn domain_accessors_scale() {
    let mut srs = Srs::create(64);
    let index = make_index(9, 2, &mut srs);
    assert_eq!(index.domain_d1_size(), 16);
    assert_eq!(index.domain_d4_size(), 4 * index.domain_d1_size());
    assert_eq!(index.domain_d8_size(), 8 * index.domain_d1_size());
    assert_eq!(index.public_inputs(), 2);
    assert_eq!(index.max_degree(), 64);
}

#[test]
fn wire_row_out_of_range_rejected() {
    let mut g = gate(GateType::Generic, vec![fe(1)]);
    g.w3 = w(100, 3);
    let r = build(vec![g], 0, 0);
    assert_eq!(r.unwrap_err(), ConstraintSystemError::WireRowOutOfRange);
}

#[test]
fn wire_column_out_of_range_rejected() {
    let mut g = gate(GateType::Generic, vec![fe(1)]);
    g.w6 = w(0, 7);
    let r = build(vec![g], 0, 0);
    assert_eq!(r.unwrap_err(), ConstraintSystemError::WireColumnOutOfRange);
}

#[test]
fn public_inputs_exceed_rows_rejected() {
    let r = build(small_gates(1), 2, 0);
    assert_eq!(r.unwrap_err(), ConstraintSystemError::PublicInputsExceedRows);
}

#[test]
fn too_many_prev_challenges_rejected() {
    let r = build(small_gates(1), 0, 3);
    assert_eq!(r.unwrap_err(), ConstraintSystemError::TooManyPrevChallenges);
}

#[test]
fn create_index_rejects_bad_circuit_and_leaves_srs_alone() {
    let mut srs = Srs::create(16);
    let mut g = gate(GateType::Generic, vec![fe(1)]);
    g.w0 = w(9, 0);
    let r = create_index(vec![g], 0, 0, &mut srs);
    assert_eq!(r.unwrap_err(), ConstraintSystemError::WireRowOutOfRange);
    assert_eq!(srs.bases.len(), 0);
}

#[test]
fn basis_binding_is_idempotent() {
    let mut srs = Srs::create(16);
    srs.ensure_lagrange_basis(8);
    let first = srs.lagrange_basis(8).unwrap().clone();
    assert_eq!(srs.bases.len(), 1);
    srs.ensure_lagrange_basis(8);
    let second = srs.lagrange_basis(8).unwrap().clone();
    assert_eq!(srs.bases.len(), 1);
    assert_eq!(first, second);
    assert_eq!(second.elems.len(), 8);
}

#[test]
fn distinct_domain_sizes_get_distinct_bases() {
    let mut srs = Srs::create(16);
    srs.ensure_lagrange_basis(4);
    srs.ensure_lagrange_basis(8);
    assert_eq!(srs.bases.len(), 2);
    assert!(srs.lagrange_basis(4).is_some());
    assert!(srs.lagrange_basis(8).is_some());
    assert!(srs.lagrange_basis(2).is_none());
}

#[test]
fn create_index_binds_basis_for_d1() {
    let mut srs = Srs::create(64);
    let index = make_index(5, 0, &mut srs);
    assert_eq!(index.domain_d1_size(), 8);
    assert!(srs.lagrange_basis(8).is_some());
    assert!(srs.lagrange_basis(4).is_none());
}

#[test]
fn digest_is_deterministic() {
    let mut srs_a = Srs::create(32);
    let mut srs_b = Srs::create(32);
    let a = make_index(4, 1, &mut srs_a);
    let b = make_index(4, 1, &mut srs_b);
    assert_eq!(a.digest(), b.digest());
    let c = make_index(5, 1, &mut srs_b);
    assert_ne!(a.digest(), c.digest());
}

#[test]
fn index_carries_endo_scalar() {
    let mut srs = Srs::create(16);
    let index = make_index(2, 0, &mut srs);
    assert_eq!(index.endo(), endo_scalar());
}

#[test]
fn linearization_is_fixed() {
    let lin = derive_linearization();
    assert_eq!(lin.terms.len(), 6);
    assert_eq!(lin.powers_of_alpha, 69);
    assert_eq!(lin.terms[0].gate, GateType::Generic);
    assert_eq!(derive_linearization(), lin);
}

#[test]
fn round_trip_preserves_index_contents() {
    let mut srs = Srs::create(64);
    let written = make_index(5, 2, &mut srs);
    let bytes = write_index(&written);
    let srs2 = Srs::create(128);
    let restored = read_index(&bytes, None, &srs2).unwrap();
    assert_eq!(restored.cs.gates, written.cs.gates);
    assert_eq!(restored.cs.public_inputs, written.cs.public_inputs);
    assert_eq!(restored.cs.prev_challenges, written.cs.prev_challenges);
    assert_eq!(restored.cs.domain, written.cs.domain);
    assert_eq!(restored.endo(), written.endo());
    assert_eq!(restored.digest(), written.digest());
    assert_eq!(restored.linearization, derive_linearization());
    assert_eq!(restored.max_degree(), 128);
}

#[test]
fn offset_read_returns_second_index() {
    let mut srs = Srs::create(64);
    let first = make_index(5, 1, &mut srs);
    let second = make_index(3, 0, &mut srs);
    let mut stream = write_index(&first);
    let offset = stream.len() as u64;
    let mut tail = write_index(&second);
    stream.append(&mut tail);
    let srs2 = Srs::create(64);
    let restored = read_index(&stream, Some(offset), &srs2).unwrap();
    assert_eq!(restored.cs.gates, second.cs.gates);
    assert_eq!(restored.digest(), second.digest());
    let restored_first = read_index(&stream, None, &srs2).unwrap();
    assert_eq!(restored_first.cs.gates, first.cs.gates);
    assert_eq!(restored_first.digest(), first.digest());
}

#[test]
fn truncated_input_is_rejected() {
    let srs = Srs::create(8);
    assert_eq!(read_index(&Vec::new(), None, &srs).unwrap_err(), DecodingError::Truncated);
    let mut srs_w = Srs::create(8);
    let bytes = write_index(&make_index(1, 0, &mut srs_w));
    let cut = bytes[..bytes.len() - 1].to_vec();
    assert_eq!(read_index(&cut, None, &srs).unwrap_err(), DecodingError::Truncated);
    let beyond = bytes.len() as u64 + 1;
    assert_eq!(read_index(&bytes, Some(beyond), &srs).unwrap_err(), DecodingError::Truncated);
}

#[test]
fn bad_magic_is_rejected() {
    let mut srs_w = Srs::create(8);
    let mut bytes = write_index(&make_index(1, 0, &mut srs_w));
    bytes[0] = 0x00;
    let srs = Srs::create(8);
    assert_eq!(read_index(&bytes, None, &srs).unwrap_err(), DecodingError::BadMagic);
}

#[test]
fn unsupported_version_is_rejected() {
    let mut srs_w = Srs::create(8);
    let mut bytes = write_index(&make_index(1, 0, &mut srs_w));
    bytes[4] = 9;
    let srs = Srs::create(8);
    assert_eq!(read_index(&bytes, None, &srs).unwrap_err(), DecodingError::UnsupportedVersion);
}

#[test]
fn invalid_gate_type_tag_is_rejected() {
    let mut srs_w = Srs::create(8);
    let mut bytes = write_index(&make_index(1, 0, &mut srs_w));
    bytes[13] = 0xEE;
    let srs = Srs::create(8);
    assert_eq!(read_index(&bytes, None, &srs).unwrap_err(), DecodingError::InvalidGateType);
}

#[test]
fn malformed_domain_is_rejected() {
    let mut srs_w = Srs::create(8);
    let mut bytes = write_index(&make_index(1, 0, &mut srs_w));
    let d1_at = bytes.len() - 72;
    bytes[d1_at] = 0xFF;
    let srs = Srs::create(8);
    assert_eq!(read_index(&bytes, None, &srs).unwrap_err(), DecodingError::MalformedDomain);
}

#[test]
fn invalid_decoded_circuit_is_rejected() {
    let mut srs_w = Srs::create(8);
    let mut bytes = write_index(&make_index(1, 0, &mut srs_w));
    let public_at = bytes.len() - 88;
    bytes[public_at] = 0xFF;
    let srs = Srs::create(8);
    assert_eq!(read_index(&bytes, None, &srs).unwrap_err(), DecodingError::InvalidCircuit);
}

#[test]
fn oversized_gate_count_is_rejected() {
    let mut bytes = vec![0x70u8, 0x69, 0x64, 0x78, 1];
    bytes.extend_from_slice(&[0, 0, 0, 0, 0, 0, 0, 0x20]);
    let srs = Srs::create(8);
    assert_eq!(read_index(&bytes, None, &srs).unwrap_err(), DecodingError::CircuitTooLarge);
}

#[test]
fn next_pow2_exact_values() {
    assert_eq!(next_pow2(0), 1);
    assert_eq!(next_pow2(1), 1);
    assert_eq!(next_pow2(2), 2);
    assert_eq!(next_pow2(3), 4);
    assert_eq!(next_pow2(5), 8);
    assert_eq!(next_pow2(1024), 1024);
    assert_eq!(next_pow2(1025), 2048);
}

#[test]
fn srs_creation_is_deterministic() {
    let a = Srs::create(8);
    let b = Srs::create(8);
    assert_eq!(a.elements, b.elements);
    assert_eq!(a.elements.len(), 8);
    assert_eq!(a.bases.len(), 0);
}
