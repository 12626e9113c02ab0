use custom_gates::bytes::read_u64_le;
use custom_gates::bytes::write_u64_le;
use custom_gates::exp_constant::SimpleExpConstantGate;
use custom_gates::exp_constant::SimpleExpConstantGenerator;
use custom_gates::exp_variable::SimpleExpTestGate;
use custom_gates::exp_variable::SimpleExpTestGenerator;
use custom_gates::mul_add::SimpleMulAddTestGate;
use custom_gates::mul_add::SimpleMulAddTestGenerator;

#[test]
fn word_round_trip() {
    let mut bytes: Vec<u8> = Vec::new();
    write_u64_le(&mut bytes, 0x0123_4567_89ab_cdef);
    write_u64_le(&mut bytes, u64::MAX);
    assert_eq!(bytes.len(), 16);
    assert_eq!(bytes[0], 0xef);
    assert_eq!(bytes[7], 0x01);
    let (v1, p1) = read_u64_le(&bytes, 0).unwrap();
    assert_eq!(v1, 0x0123_4567_89ab_cdef);
    let (v2, p2) = read_u64_le(&bytes, p1).unwrap();
    assert_eq!(v2, u64::MAX);
    assert_eq!(p2, 16);
    assert!(read_u64_le(&bytes, 9).is_none());
    assert!(read_u64_le(&Vec::new(), 0).is_none());
}

#[test]
fn bounded_power_gate_round_trip() {
    let gate = SimpleExpConstantGate { num_limbs: 16 };
    let mut bytes: Vec<u8> = Vec::new();
    gate.serialize(&mut bytes);
    assert_eq!(bytes.len(), 8);
    let (read_back, pos) = SimpleExpConstantGate::deserialize(&bytes, 0).unwrap();
    assert_eq!(read_back, gate);
    assert_eq!(pos, 8);
}

#[test]
fn bounded_power_generator_round_trip() {
    let generator = SimpleExpConstantGenerator {
        row: 12,
        gate: SimpleExpConstantGate { num_limbs: 8 },
        const_base: 2,
    };
    let mut bytes: Vec<u8> = vec![0xaa, 0xbb];
    generator.serialize(&mut bytes);
    assert_eq!(bytes.len(), 2 + 24);
    let (read_back, pos) = SimpleExpConstantGenerator::deserialize(&bytes, 2).unwrap();
    assert_eq!(read_back, generator);
    assert_eq!(pos, 2 + 24);
}

#[test]
fn variable_power_gate_round_trip() {
    let gate = SimpleExpTestGate { num_limbs: 9 };
    let mut bytes: Vec<u8> = Vec::new();
    gate.serialize(&mut bytes);
    let (read_back, pos) = SimpleExpTestGate::deserialize(&bytes, 0).unwrap();
    assert_eq!(read_back, gate);
    assert_eq!(pos, 8);
}

#[test]
fn variable_power_generator_round_trip() {
    let generator = SimpleExpTestGenerator {
        row: 4,
        gate: SimpleExpTestGate { num_limbs: 6 },
    };
    let mut bytes: Vec<u8> = Vec::new();
    generator.serialize(&mut bytes);
    assert_eq!(bytes.len(), 16);
    let (read_back, pos) = SimpleExpTestGenerator::deserialize(&bytes, 0).unwrap();
    assert_eq!(read_back, generator);
    assert_eq!(pos, 16);
}

#[test]
fn mul_add_gate_round_trip() {
    let gate = SimpleMulAddTestGate { num_ops: 13 };
    let mut bytes: Vec<u8> = Vec::new();
    gate.serialize(&mut bytes);
    let (read_back, pos) = SimpleMulAddTestGate::deserialize(&bytes, 0).unwrap();
    assert_eq!(read_back, gate);
    assert_eq!(pos, 8);
}

#[test]
fn mul_add_generator_round_trip() {
    let generator = SimpleMulAddTestGenerator { row: 9, i: 4 };
    let mut bytes: Vec<u8> = Vec::new();
    generator.serialize(&mut bytes);
    assert_eq!(bytes.len(), 16);
    let (read_back, pos) = SimpleMulAddTestGenerator::deserialize(&bytes, 0).unwrap();
    assert_eq!(read_back, generator);
    assert_eq!(pos, 16);
}

#[test]
fn truncated_input_is_rejected() {
    let gate = SimpleExpConstantGate { num_limbs: 5 };
    let mut bytes: Vec<u8> = Vec::new();
    gate.serialize(&mut bytes);
    bytes.pop();
    assert!(SimpleExpConstantGate::deserialize(&bytes, 0).is_none());
    let generator = SimpleMulAddTestGenerator { row: 1, i: 0 };
    let mut bytes: Vec<u8> = Vec::new();
    generator.serialize(&mut bytes);
    assert!(SimpleMulAddTestGenerator::deserialize(&bytes, 1).is_none());
}
