use custom_gates::config::CircuitConfig;
use custom_gates::exp_constant::SimpleExpConstantGate;
use custom_gates::exp_constant::SimpleExpConstantGenerator;
use custom_gates::exp_variable::SimpleExpTestGate;
use custom_gates::exp_variable::SimpleExpTestGenerator;
use custom_gates::field::FIELD_ORDER;
use custom_gates::mul_add::SimpleMulAddTestGate;
use custom_gates::mul_add::SimpleMulAddTestGenerator;
use custom_gates::wire::WireId;

#[test]
fn bounded_power_generator_scenario() {
    let config = CircuitConfig::standard_recursion_config();
    let gate = SimpleExpConstantGate::new(8, &config);
    let generators = gate.generators(3, &vec![2]);
    assert_eq!(generators.len(), 1);
    let generator = &generators[0];
    assert_eq!(generator.row, 3);
    assert_eq!(generator.const_base, 2);

    let writes = generator.run_once();
    assert_eq!(writes.len(), 9);
    let expected: Vec<u64> = vec![2, 4, 8, 16, 32, 64, 128, 256, 256];
    for (j, (wire, value)) in writes.iter().enumerate() {
        assert_eq!(*wire, WireId { row: 3, column: j });
        assert_eq!(*value, expected[j]);
    }

    let wires: Vec<u64> = writes.iter().map(|w| w.1).collect();
    let constraints = gate.eval_unfiltered_base_packed(&wires, &vec![2]);
    assert_eq!(constraints.len(), 9);
    for c in &constraints {
        assert_eq!(*c, 0);
    }
}

#[test]
fn bounded_power_generator_no_dependencies() {
    let generator = SimpleExpConstantGenerator {
        row: 0,
        gate: SimpleExpConstantGate { num_limbs: 5 },
        const_base: 7,
    };
    assert_eq!(generator.dependencies().len(), 0);
}

#[test]
fn bounded_power_capacity() {
    let config = CircuitConfig::standard_recursion_config();
    let max = SimpleExpConstantGate::max_power(&config);
    assert_eq!(max, 66);
    assert!(SimpleExpConstantGate::try_new(max, &config).is_none());
    assert!(SimpleExpConstantGate::try_new(max + 10, &config).is_none());
    let gate = SimpleExpConstantGate::try_new(max - 1, &config).unwrap();
    assert_eq!(gate.num_limbs, max - 1);
}

#[test]
fn bounded_power_layout_and_resources() {
    let config = CircuitConfig::standard_recursion_config();
    let gate = SimpleExpConstantGate::new(8, &config);
    assert_eq!(gate.wire_power_i(1), 0);
    assert_eq!(gate.wire_power_i(8), 7);
    assert_eq!(gate.wire_output(), 8);
    assert_eq!(gate.num_wires(), 9);
    assert_eq!(gate.num_constants(), 1);
    assert_eq!(gate.degree(), 2);
    assert_eq!(gate.num_constraints(), 9);
}

#[test]
fn bounded_power_perturbed_wire_fails() {
    let gate = SimpleExpConstantGate { num_limbs: 4 };
    let generator = SimpleExpConstantGenerator { row: 0, gate, const_base: 3 };
    let mut wires: Vec<u64> = generator.run_once().iter().map(|w| w.1).collect();
    assert_eq!(wires, vec![3, 9, 27, 81, 81]);
    wires[2] = 28;
    let constraints = gate.eval_unfiltered_base_packed(&wires, &vec![3]);
    assert!(constraints.iter().any(|c| *c != 0));
}

#[test]
fn bounded_power_wraps_at_field_order() {
    // (p - 1)^2 = 1 in the field, so the chain for base p - 1 alternates.
    let base = FIELD_ORDER - 1;
    let gate = SimpleExpConstantGate { num_limbs: 3 };
    let generator = SimpleExpConstantGenerator { row: 0, gate, const_base: base };
    let wires: Vec<u64> = generator.run_once().iter().map(|w| w.1).collect();
    assert_eq!(wires, vec![base, 1, base, base]);
    let constraints = gate.eval_unfiltered_base_packed(&wires, &vec![base]);
    assert!(constraints.iter().all(|c| *c == 0));
}

#[test]
fn variable_power_generator_scenario() {
    let config = CircuitConfig::standard_recursion_config();
    let gate = SimpleExpTestGate::new(4, &config);
    let generators = gate.generators(5, &vec![]);
    assert_eq!(generators.len(), 1);
    let generator = &generators[0];
    assert_eq!(generator.row, 5);

    let deps = generator.dependencies();
    assert_eq!(deps, vec![WireId { row: 5, column: 0 }]);

    let writes = generator.run_once(3);
    assert_eq!(writes.len(), 5);
    let expected: Vec<u64> = vec![3, 9, 27, 81, 81];
    for (j, (wire, value)) in writes.iter().enumerate() {
        assert_eq!(*wire, WireId { row: 5, column: j + 1 });
        assert_eq!(*value, expected[j]);
    }

    let mut wires: Vec<u64> = vec![3];
    wires.extend(writes.iter().map(|w| w.1));
    let constraints = gate.eval_unfiltered_base_packed(&wires, &vec![]);
    assert_eq!(constraints.len(), 5);
    for c in &constraints {
        assert_eq!(*c, 0);
    }
}

#[test]
fn variable_power_layout_and_resources() {
    let config = CircuitConfig::standard_recursion_config();
    let gate = SimpleExpTestGate::new(4, &config);
    assert_eq!(gate.wire_base(), 0);
    assert_eq!(gate.wire_power_i(1), 1);
    assert_eq!(gate.wire_power_i(4), 4);
    assert_eq!(gate.wire_output(), 5);
    assert_eq!(gate.num_wires(), 6);
    assert_eq!(gate.num_constants(), 0);
    assert_eq!(gate.degree(), 4);
    assert_eq!(gate.num_constraints(), 5);
}

#[test]
fn variable_power_capacity() {
    let config = CircuitConfig::standard_recursion_config();
    let max = SimpleExpTestGate::max_power(&config);
    assert_eq!(max, 66);
    assert!(SimpleExpTestGate::try_new(max, &config).is_none());
    assert!(SimpleExpTestGate::try_new(max - 1, &config).is_some());
}

#[test]
fn variable_power_perturbed_base_fails() {
    let gate = SimpleExpTestGate { num_limbs: 3 };
    // A satisfying row for base 2, with the base wire then changed to 5.
    let wires: Vec<u64> = vec![5, 2, 4, 8, 8];
    let constraints = gate.eval_unfiltered_base_packed(&wires, &vec![]);
    assert!(constraints.iter().any(|c| *c != 0));
}

#[test]
fn mul_add_single_operation_scenario() {
    let gate = SimpleMulAddTestGate { num_ops: 1 };
    let generator = SimpleMulAddTestGenerator { row: 0, i: 0 };
    let (wire, value) = generator.run_once(3, 4, 5, 6, 7);
    assert_eq!(wire, WireId { row: 0, column: 5 });
    assert_eq!(value, 30);

    let wires: Vec<u64> = vec![3, 4, 5, 6, 7, 30];
    let constraints = gate.eval_unfiltered_base_packed(&wires, &vec![]);
    assert_eq!(constraints, vec![0]);

    let forced: Vec<u64> = vec![3, 4, 5, 6, 7, 31];
    let constraints = gate.eval_unfiltered_base_packed(&forced, &vec![]);
    assert_eq!(constraints, vec![1]);
}

#[test]
fn mul_add_from_config() {
    let config = CircuitConfig::standard_recursion_config();
    let gate = SimpleMulAddTestGate::new_from_config(&config);
    assert_eq!(gate.num_ops, 13);
    assert_eq!(gate.num_wires(), 78);
    assert_eq!(gate.num_constants(), 0);
    assert_eq!(gate.degree(), 3);
    assert_eq!(gate.num_constraints(), 13);
}

#[test]
fn mul_add_layout() {
    assert_eq!(SimpleMulAddTestGate::wires_per_op(), 6);
    assert_eq!(SimpleMulAddTestGate::wire_ith_multiplicand_0(2), 12);
    assert_eq!(SimpleMulAddTestGate::wire_ith_multiplicand_1(2), 13);
    assert_eq!(SimpleMulAddTestGate::wire_ith_add_1(2), 14);
    assert_eq!(SimpleMulAddTestGate::wire_ith_add_2(2), 15);
    assert_eq!(SimpleMulAddTestGate::wire_ith_addend(2), 16);
    assert_eq!(SimpleMulAddTestGate::wire_ith_output(2), 17);
}

#[test]
fn mul_add_generators_are_per_operation() {
    let gate = SimpleMulAddTestGate { num_ops: 3 };
    let generators = gate.generators(7, &vec![]);
    assert_eq!(generators.len(), 3);
    for (i, g) in generators.iter().enumerate() {
        assert_eq!(g.row, 7);
        assert_eq!(g.i, i);
    }
    let deps = generators[1].dependencies();
    let expected: Vec<WireId> = (6..11).map(|c| WireId { row: 7, column: c }).collect();
    assert_eq!(deps, expected);
}

#[test]
fn mul_add_two_operations_independent() {
    let gate = SimpleMulAddTestGate { num_ops: 2 };
    let g0 = SimpleMulAddTestGenerator { row: 0, i: 0 };
    let g1 = SimpleMulAddTestGenerator { row: 0, i: 1 };
    let (w0, v0) = g0.run_once(2, 3, 1, 1, 1);
    let (w1, v1) = g1.run_once(10, 10, 0, 0, 5);
    assert_eq!(w0, WireId { row: 0, column: 5 });
    assert_eq!(w1, WireId { row: 0, column: 11 });
    assert_eq!(v0, 9);
    assert_eq!(v1, 105);
    let wires: Vec<u64> = vec![2, 3, 1, 1, 1, 9, 10, 10, 0, 0, 5, 105];
    let constraints = gate.eval_unfiltered_base_packed(&wires, &vec![]);
    assert_eq!(constraints, vec![0, 0]);
}

#[test]
fn mul_add_wraps_at_field_order() {
    let gate = SimpleMulAddTestGate { num_ops: 1 };
    let generator = SimpleMulAddTestGenerator { row: 0, i: 0 };
    let big = FIELD_ORDER - 1;
    let (_, value) = generator.run_once(big, big, 0, 0, 0);
    // (p - 1)^2 = 1 in the field.
    assert_eq!(value, 1);
    let (_, value) = generator.run_once(1, 1, big, 0, 0);
    // 1 + (p - 1) = 0 in the field.
    assert_eq!(value, 0);
}

#[test]
fn base_batch_matches_per_row() {
    let gate = SimpleExpConstantGate { num_limbs: 2 };
    let rows: Vec<Vec<u64>> = vec![vec![2, 4, 4], vec![3, 9, 9], vec![3, 9, 10]];
    let constants: Vec<Vec<u64>> = vec![vec![2], vec![3], vec![3]];
    let batch = gate.eval_unfiltered_base_batch(&rows, &constants);
    assert_eq!(batch.len(), 3);
    for (b, row) in rows.iter().enumerate() {
        let single = gate.eval_unfiltered_base_packed(row, &constants[b]);
        assert_eq!(batch[b], single);
    }
    assert_eq!(batch[0], vec![0, 0, 0]);
    assert_eq!(batch[1], vec![0, 0, 0]);
    assert!(batch[2].iter().any(|c| *c != 0));
}
