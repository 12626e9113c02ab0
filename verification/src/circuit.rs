//! Constraints re-expressed as sub-operations of a circuit being built.
//!
//! For recursive composition a gate does not evaluate its constraints; it
//! describes them as a list of extension-field operations for the surrounding
//! circuit builder to instantiate.  The list refers to the row's wires and
//! constants and to earlier operations by index.  `node_val` gives the list
//! its meaning, and each gate proves that the nodes it marks as constraints
//! evaluate to exactly what its direct evaluator computes.

use vstd::prelude::*;

use crate::ext::e_add;
use crate::ext::e_mul;
use crate::ext::e_one;
use crate::ext::e_sub;
use crate::ext::ext_add;
use crate::ext::ext_mul;
use crate::ext::ext_sub;
use crate::ext::svals;
use crate::ext::valid_ext_row;
use crate::ext::ExtElem;

verus! {

/// An input of a circuit operation: a wire of the row, a per-row constant,
/// or the output of an earlier operation.
#[derive(Clone, Copy, Debug, PartialEq, Eq, Structural)]
pub enum Operand {
    Wire(usize),
    Constant(usize),
    Node(usize),
}

/// One extension-field sub-operation emitted while describing a gate's
/// constraints to a circuit builder.
#[derive(Clone, Debug, PartialEq, Eq)]
pub enum CircuitOp {
    /// The constant one of the extension field.
    ConstOne,
    /// Product of two inputs.
    MulExt(Operand, Operand),
    /// Difference of two inputs.
    SubExt(Operand, Operand),
    /// Sum of a list of inputs.
    AddManyExt(Vec<Operand>),
}

/// A gate's constraints in circuit form: the operation list and, for each
/// constraint, the index of the operation that computes it.
#[derive(Clone, Debug)]
pub struct GateCircuit {
    pub ops: Vec<CircuitOp>,
    pub constraints: Vec<usize>,
}

/// An operand of the operation at index `k` refers only to existing wires
/// and constants and to strictly earlier operations.
pub open spec fn operand_wf(o: Operand, k: int, n_wires: int, n_consts: int) -> bool {
    match o {
        Operand::Wire(i) => i < n_wires,
        Operand::Constant(i) => i < n_consts,
        Operand::Node(j) => j < k,
    }
}

/// Every operand of the list refers only to existing wires and constants
/// and to operations strictly before index `k`.
pub open spec fn operands_wf(v: Seq<Operand>, k: int, n_wires: int, n_consts: int) -> bool {
    forall|i: int| 0 <= i < v.len() ==> #[trigger] operand_wf(v[i], k, n_wires, n_consts)
}

/// Well-formedness of the operation at index `k`.
pub open spec fn op_wf(op: CircuitOp, k: int, n_wires: int, n_consts: int) -> bool {
    match op {
        CircuitOp::ConstOne => true,
        CircuitOp::MulExt(a, b) => operand_wf(a, k, n_wires, n_consts) && operand_wf(
            b,
            k,
            n_wires,
            n_consts,
        ),
        CircuitOp::SubExt(a, b) => operand_wf(a, k, n_wires, n_consts) && operand_wf(
            b,
            k,
            n_wires,
            n_consts,
        ),
        CircuitOp::AddManyExt(v) => operands_wf(v@, k, n_wires, n_consts),
    }
}

/// Every operation of the list refers only backwards.
pub open spec fn ops_wf(ops: Seq<CircuitOp>, n_wires: int, n_consts: int) -> bool {
    forall|k: int| 0 <= k < ops.len() ==> op_wf(#[trigger] ops[k], k, n_wires, n_consts)
}

/// The value of the operation at index `k` under the given wire and constant
/// values.
pub open spec fn node_val(
    ops: Seq<CircuitOp>,
    ws: Seq<(int, int)>,
    cs: Seq<(int, int)>,
    k: int,
) -> (int, int)
    decreases k, 2int, 0int,
{
    if 0 <= k < ops.len() {
        match ops[k] {
            CircuitOp::ConstOne => e_one(),
            CircuitOp::MulExt(a, b) => e_mul(
                operand_val(ops, ws, cs, a, k),
                operand_val(ops, ws, cs, b, k),
            ),
            CircuitOp::SubExt(a, b) => e_sub(
                operand_val(ops, ws, cs, a, k),
                operand_val(ops, ws, cs, b, k),
            ),
            CircuitOp::AddManyExt(v) => sum_vals(ops, ws, cs, v@, k),
        }
    } else {
        (0int, 0int)
    }
}

/// The sum of the values of a list of operands, folded from the left as the
/// builder's add-many operation folds its inputs.
pub open spec fn sum_vals(
    ops: Seq<CircuitOp>,
    ws: Seq<(int, int)>,
    cs: Seq<(int, int)>,
    v: Seq<Operand>,
    k: int,
) -> (int, int)
    decreases k, 1int, v.len(),
{
    if v.len() == 0 {
        (0int, 0int)
    } else if v.len() == 1 {
        operand_val(ops, ws, cs, v[0], k)
    } else {
        e_add(sum_vals(ops, ws, cs, v.drop_last(), k), operand_val(ops, ws, cs, v.last(), k))
    }
}

/// The value an operand of the operation at index `k` stands for.
pub open spec fn operand_val(
    ops: Seq<CircuitOp>,
    ws: Seq<(int, int)>,
    cs: Seq<(int, int)>,
    o: Operand,
    k: int,
) -> (int, int)
    decreases k, 0int, 0int,
{
    match o {
        Operand::Wire(i) => ws[i as int],
        Operand::Constant(i) => cs[i as int],
        Operand::Node(j) => if 0 <= j < k {
            node_val(ops, ws, cs, j as int)
        } else {
            (0int, 0int)
        },
    }
}

/// Evaluates an operation list on concrete wire and constant values,
/// returning the value of every node.
pub fn eval_circuit_ops(ops: &Vec<CircuitOp>, wires: &Vec<ExtElem>, constants: &Vec<ExtElem>) -> (r:
    Vec<ExtElem>)
    requires
        ops_wf(ops@, wires@.len() as int, constants@.len() as int),
        valid_ext_row(wires@),
        valid_ext_row(constants@),
    ensures
        r@.len() == ops@.len(),
        valid_ext_row(r@),
        forall|k: int|
            0 <= k < r@.len() ==> (#[trigger] r@[k]).sval() == node_val(
                ops@,
                svals(wires@),
                svals(constants@),
                k,
            ),
{
    let ghost ws = svals(wires@);
    let ghost cs = svals(constants@);
    let mut r: Vec<ExtElem> = Vec::new();
    let mut k: usize = 0;
    while k < ops.len()
        invariant
            k == r@.len(),
            k <= ops@.len(),
            ops_wf(ops@, wires@.len() as int, constants@.len() as int),
            valid_ext_row(wires@),
            valid_ext_row(constants@),
            valid_ext_row(r@),
            ws == svals(wires@),
            cs == svals(constants@),
            forall|j: int|
                0 <= j < r@.len() ==> (#[trigger] r@[j]).sval() == node_val(ops@, ws, cs, j),
        decreases ops@.len() - k,
    {
        let v: ExtElem = match &ops[k] {
            CircuitOp::ConstOne => ExtElem::one(),
            CircuitOp::MulExt(a, b) => {
                let x = resolve_operand(&r, wires, constants, *a, Ghost(ops@), Ghost(k as int));
                let y = resolve_operand(&r, wires, constants, *b, Ghost(ops@), Ghost(k as int));
                ext_mul(x, y)
            },
            CircuitOp::SubExt(a, b) => {
                let x = resolve_operand(&r, wires, constants, *a, Ghost(ops@), Ghost(k as int));
                let y = resolve_operand(&r, wires, constants, *b, Ghost(ops@), Ghost(k as int));
                ext_sub(x, y)
            },
            CircuitOp::AddManyExt(v) => {
                let mut acc = ExtElem { c0: 0, c1: 0 };
                if v.len() > 0 {
                    acc = resolve_operand(
                        &r,
                        wires,
                        constants,
                        v[0],
                        Ghost(ops@),
                        Ghost(k as int),
                    );
                    let mut i: usize = 1;
                    while i < v.len()
                        invariant
                            1 <= i <= v@.len(),
                            k == r@.len(),
                            k < ops@.len(),
                            ops@[k as int] == CircuitOp::AddManyExt(*v),
                            ops_wf(ops@, wires@.len() as int, constants@.len() as int),
                            valid_ext_row(wires@),
                            valid_ext_row(constants@),
                            valid_ext_row(r@),
                            ws == svals(wires@),
                            cs == svals(constants@),
                            forall|j: int|
                                0 <= j < r@.len() ==> (#[trigger] r@[j]).sval() == node_val(
                                    ops@,
                                    ws,
                                    cs,
                                    j,
                                ),
                            acc.valid(),
                            acc.sval() == sum_vals(ops@, ws, cs, v@.take(i as int), k as int),
                        decreases v@.len() - i,
                    {
                        proof {
                            assert(op_wf(
                                ops@[k as int],
                                k as int,
                                wires@.len() as int,
                                constants@.len() as int,
                            ));
                            assert(operand_wf(
                                v@[i as int],
                                k as int,
                                wires@.len() as int,
                                constants@.len() as int,
                            ));
                        }
                        let x = resolve_operand(
                            &r,
                            wires,
                            constants,
                            v[i],
                            Ghost(ops@),
                            Ghost(k as int),
                        );
                        proof {
                            assert(v@.take(i as int + 1).drop_last() =~= v@.take(i as int));
                            assert(v@.take(i as int + 1).last() == v@[i as int]);
                        }
                        acc = ext_add(acc, x);
                        i = i + 1;
                    }
                    proof {
                        assert(v@.take(v@.len() as int) =~= v@);
                    }
                } else {
                    proof {
                        assert(acc.sval() == sum_vals(ops@, ws, cs, v@, k as int));
                    }
                }
                acc
            },
        };
        proof {
            assert(v.sval() == node_val(ops@, ws, cs, k as int));
        }
        r.push(v);
        k = k + 1;
    }
    r
}

/// Looks up the value an operand refers to: a wire, a constant, or the value
/// of an earlier node.
fn resolve_operand(
    r: &Vec<ExtElem>,
    wires: &Vec<ExtElem>,
    constants: &Vec<ExtElem>,
    o: Operand,
    Ghost(ops): Ghost<Seq<CircuitOp>>,
    Ghost(k): Ghost<int>,
) -> (x: ExtElem)
    requires
        operand_wf(o, k, wires@.len() as int, constants@.len() as int),
        r@.len() == k,
        k <= ops.len(),
        valid_ext_row(wires@),
        valid_ext_row(constants@),
        valid_ext_row(r@),
        forall|j: int|
            0 <= j < r@.len() ==> (#[trigger] r@[j]).sval() == node_val(
                ops,
                svals(wires@),
                svals(constants@),
                j,
            ),
    ensures
        x.valid(),
        x.sval() == operand_val(ops, svals(wires@), svals(constants@), o, k),
{
    match o {
        Operand::Wire(i) => wires[i],
        Operand::Constant(i) => constants[i],
        Operand::Node(j) => r[j],
    }
}

} // verus!

