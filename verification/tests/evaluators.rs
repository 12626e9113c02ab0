use custom_gates::circuit::eval_circuit_ops;
use custom_gates::exp_constant::SimpleExpConstantGate;
use custom_gates::exp_variable::SimpleExpTestGate;
use custom_gates::ext::ExtElem;
use custom_gates::mul_add::SimpleMulAddTestGate;

fn embed(values: &[u64]) -> Vec<ExtElem> {
    values.iter().map(|v| ExtElem::from_base(*v)).collect()
}

#[test]
fn bounded_power_ext_matches_base() {
    let gate = SimpleExpConstantGate { num_limbs: 4 };
    let wires: Vec<u64> = vec![3, 9, 27, 81, 80];
    let constants: Vec<u64> = vec![3];
    let base_constraints = gate.eval_unfiltered_base_packed(&wires, &constants);
    let ext_constraints = gate.eval_unfiltered(&embed(&wires), &embed(&constants));
    assert_eq!(ext_constraints.len(), base_constraints.len());
    for (e, b) in ext_constraints.iter().zip(base_constraints.iter()) {
        assert_eq!(e.c0, *b);
        assert_eq!(e.c1, 0);
    }
    assert!(base_constraints.iter().any(|c| *c != 0));
}

#[test]
fn variable_power_ext_matches_base() {
    let gate = SimpleExpTestGate { num_limbs: 3 };
    let wires: Vec<u64> = vec![2, 4, 8, 16, 16];
    let constants: Vec<u64> = vec![];
    let base_constraints = gate.eval_unfiltered_base_packed(&wires, &constants);
    let ext_constraints = gate.eval_unfiltered(&embed(&wires), &embed(&constants));
    assert_eq!(ext_constraints.len(), base_constraints.len());
    for (e, b) in ext_constraints.iter().zip(base_constraints.iter()) {
        assert_eq!(e.c0, *b);
        assert_eq!(e.c1, 0);
    }
}

#[test]
fn mul_add_ext_matches_base() {
    let gate = SimpleMulAddTestGate { num_ops: 2 };
    let wires: Vec<u64> = vec![3, 4, 5, 6, 7, 30, 2, 2, 1, 1, 1, 8];
    let constants: Vec<u64> = vec![];
    let base_constraints = gate.eval_unfiltered_base_packed(&wires, &constants);
    let ext_constraints = gate.eval_unfiltered(&embed(&wires), &embed(&constants));
    assert_eq!(ext_constraints.len(), base_constraints.len());
    for (e, b) in ext_constraints.iter().zip(base_constraints.iter()) {
        assert_eq!(e.c0, *b);
        assert_eq!(e.c1, 0);
    }
    assert_eq!(base_constraints[0], 0);
    assert!(base_constraints[1] != 0);
}

#[test]
fn ext_evaluation_uses_both_components() {
    // On a genuine extension element the second component participates:
    // (0 + 1 x)^2 = 7, the square of the extension generator.
    let gate = SimpleExpTestGate { num_limbs: 2 };
    let x = ExtElem { c0: 0, c1: 1 };
    let zero = ExtElem { c0: 0, c1: 0 };
    let wires: Vec<ExtElem> = vec![x, zero, zero, zero];
    let constraints = gate.eval_unfiltered(&wires, &vec![]);
    // Constraint 0: wire 1 minus x, so (0, -1); constraint 1: wire 2 minus
    // x^2 = 7, so (-7, 0).
    let p = custom_gates::field::FIELD_ORDER;
    assert_eq!(constraints[0].c0, 0);
    assert_eq!(constraints[0].c1, p - 1);
    assert_eq!(constraints[1].c0, p - 7);
    assert_eq!(constraints[1].c1, 0);
}

#[test]
fn bounded_power_circuit_matches_direct_evaluation() {
    let gate = SimpleExpConstantGate { num_limbs: 4 };
    let wires: Vec<u64> = vec![3, 9, 27, 81, 81];
    let constants: Vec<u64> = vec![3];
    let gc = gate.eval_unfiltered_circuit();
    let direct = gate.eval_unfiltered(&embed(&wires), &embed(&constants));
    let nodes = eval_circuit_ops(&gc.ops, &embed(&wires), &embed(&constants));
    assert_eq!(gc.constraints.len(), direct.len());
    for (j, node) in gc.constraints.iter().enumerate() {
        assert_eq!(nodes[*node], direct[j]);
    }
}

#[test]
fn variable_power_circuit_matches_direct_evaluation() {
    let gate = SimpleExpTestGate { num_limbs: 3 };
    let wires: Vec<u64> = vec![5, 25, 125, 625, 620];
    let gc = gate.eval_unfiltered_circuit();
    let direct = gate.eval_unfiltered(&embed(&wires), &embed(&[]));
    let nodes = eval_circuit_ops(&gc.ops, &embed(&wires), &embed(&[]));
    assert_eq!(gc.constraints.len(), direct.len());
    for (j, node) in gc.constraints.iter().enumerate() {
        assert_eq!(nodes[*node], direct[j]);
    }
}

#[test]
fn mul_add_circuit_matches_direct_evaluation() {
    let gate = SimpleMulAddTestGate { num_ops: 2 };
    let wires: Vec<u64> = vec![3, 4, 5, 6, 7, 30, 2, 2, 1, 1, 1, 9];
    let gc = gate.eval_unfiltered_circuit();
    let direct = gate.eval_unfiltered(&embed(&wires), &embed(&[]));
    let nodes = eval_circuit_ops(&gc.ops, &embed(&wires), &embed(&[]));
    assert_eq!(gc.constraints.len(), direct.len());
    for (j, node) in gc.constraints.iter().enumerate() {
        assert_eq!(nodes[*node], direct[j]);
    }
}
