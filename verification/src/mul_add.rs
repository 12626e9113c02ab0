//! A gate packing many independent fused multiply-add operations into one
//! row.
//!
//! Each operation occupies a fixed block of six wires - two multiplicands,
//! three addends and an output - and contributes one constraint
//! `output - (m0 * m1 + a1 + a2 + addend)`.  The number of operations is
//! fixed by how many blocks the routed wires of a row can hold.

use vstd::prelude::*;

use crate::bytes::parse_u64;
use crate::bytes::u64_le_bytes;
use crate::bytes::write_u64_le;
use crate::bytes::read_u64_le;
use crate::bytes::lemma_parse_u64_of_write;
use crate::circuit::node_val;
use crate::circuit::operand_val;
use crate::circuit::sum_vals;
use crate::circuit::op_wf;
use crate::circuit::ops_wf;
use crate::circuit::CircuitOp;
use crate::circuit::GateCircuit;
use crate::circuit::Operand;
use crate::config::CircuitConfig;
use crate::expr::eval_expr;
use crate::expr::expr_degree;
use crate::expr::Expr;
use crate::ext::e_add;
use crate::ext::e_mul;
use crate::ext::e_sub;
use crate::ext::embed_row;
use crate::ext::ext_add;
use crate::ext::ext_mul;
use crate::ext::ext_sub;
use crate::ext::lemma_e_mul_embed;
use crate::ext::lemma_mod_in_range;
use crate::ext::svals;
use crate::ext::valid_ext_row;
use crate::ext::ExtElem;
use crate::field::fadd;
use crate::field::fmul;
use crate::field::fsub;
use crate::field::f_add;
use crate::field::f_mul;
use crate::field::f_sub;
use crate::field::lemma_fadd_left_injective;
use crate::field::lemma_fadd_right_injective;
use crate::field::lemma_fsub_left_injective;
use crate::field::lemma_fsub_right_injective;
use crate::field::lemma_fsub_self;
use crate::field::valid_elem;
use crate::field::valid_row;
use crate::wire::WireId;

verus! {

/// The number of operations a row can hold under `config`: one per block of
/// six routed wires.
pub open spec fn num_ops_spec(config: CircuitConfig) -> int {
    (config.num_routed_wires as int) / 6
}

/// The fused value of operation `i`: `m0 * m1 + a1 + a2 + addend`, folded
/// from the left.
pub open spec fn ma_computed(wires: Seq<u64>, i: int) -> int
    recommends
        0 <= i,
        6 * i + 5 < wires.len(),
{
    fadd(
        fadd(
            fadd(fmul(wires[6 * i] as int, wires[6 * i + 1] as int), wires[6 * i + 2] as int),
            wires[6 * i + 3] as int,
        ),
        wires[6 * i + 4] as int,
    )
}

/// The value of constraint `i`: the output wire minus the fused value.
pub open spec fn ma_constraint(wires: Seq<u64>, i: int) -> int
    recommends
        0 <= i,
        6 * i + 5 < wires.len(),
{
    fsub(wires[6 * i + 5] as int, ma_computed(wires, i))
}

/// `ma_computed` over the extension field.
pub open spec fn ma_computed_e(ws: Seq<(int, int)>, i: int) -> (int, int)
    recommends
        0 <= i,
        6 * i + 5 < ws.len(),
{
    e_add(
        e_add(e_add(e_mul(ws[6 * i], ws[6 * i + 1]), ws[6 * i + 2]), ws[6 * i + 3]),
        ws[6 * i + 4],
    )
}

/// `ma_constraint` over the extension field.
pub open spec fn ma_constraint_e(ws: Seq<(int, int)>, i: int) -> (int, int)
    recommends
        0 <= i,
        6 * i + 5 < ws.len(),
{
    e_sub(ws[6 * i + 5], ma_computed_e(ws, i))
}

/// A gate performing `num_ops` independent operations
/// `output = m0 * m1 + a1 + a2 + addend` in one row.
#[derive(Clone, Copy, Debug, PartialEq, Eq, Structural)]
pub struct SimpleMulAddTestGate {
    pub num_ops: usize,
}

impl SimpleMulAddTestGate {
    /// The operation count leaves room for the six-wire blocks.
    pub open spec fn wf(self) -> bool {
        self.num_ops <= usize::MAX / 6
    }

    /// Bytes of the immutable parameters: the operation count as a
    /// little-endian word.
    pub open spec fn spec_bytes(self) -> Seq<u8> {
        u64_le_bytes(self.num_ops as u64)
    }

    /// The instance read back from `s` at `pos`.
    pub open spec fn parse_gate(s: Seq<u8>, pos: int) -> Option<(SimpleMulAddTestGate, int)> {
        match parse_u64(s, pos) {
            Some((v, p)) => if v <= usize::MAX as u64 {
                Some((SimpleMulAddTestGate { num_ops: v as usize }, p))
            } else {
                None
            },
            None => None,
        }
    }

    /// A gate filling the row as far as the configuration allows.
    pub fn new_from_config(config: &CircuitConfig) -> (g: Self)
        ensures
            g.num_ops == num_ops_spec(*config),
            g.wf(),
    {
        Self { num_ops: Self::num_ops(config) }
    }

    /// How many operations fit in one row under `config`.
    pub(crate) fn num_ops(config: &CircuitConfig) -> (r: usize)
        ensures
            r == num_ops_spec(*config),
            r <= usize::MAX / 6,
    {
        config.num_routed_wires / Self::wires_per_op()
    }

    /// Wires of one operation block.
    pub fn wires_per_op() -> (r: usize)
        ensures
            r == 6,
    {
        6
    }

    /// The wire holding the first multiplicand of operation `i`.
    pub fn wire_ith_multiplicand_0(i: usize) -> (r: usize)
        requires
            i < usize::MAX / 6,
        ensures
            r == 6 * i,
    {
        Self::wires_per_op() * i
    }

    /// The wire holding the second multiplicand of operation `i`.
    pub fn wire_ith_multiplicand_1(i: usize) -> (r: usize)
        requires
            i < usize::MAX / 6,
        ensures
            r == 6 * i + 1,
    {
        Self::wires_per_op() * i + 1
    }

    /// The wire holding the first extra addend of operation `i`.
    pub fn wire_ith_add_1(i: usize) -> (r: usize)
        requires
            i < usize::MAX / 6,
        ensures
            r == 6 * i + 2,
    {
        Self::wires_per_op() * i + 2
    }

    /// The wire holding the second extra addend of operation `i`.
    pub fn wire_ith_add_2(i: usize) -> (r: usize)
        requires
            i < usize::MAX / 6,
        ensures
            r == 6 * i + 3,
    {
        Self::wires_per_op() * i + 3
    }

    /// The wire holding the last addend of operation `i`.
    pub fn wire_ith_addend(i: usize) -> (r: usize)
        requires
            i < usize::MAX / 6,
        ensures
            r == 6 * i + 4,
    {
        Self::wires_per_op() * i + 4
    }

    /// The wire holding the output of operation `i`.
    pub fn wire_ith_output(i: usize) -> (r: usize)
        requires
            i < usize::MAX / 6,
        ensures
            r == 6 * i + 5,
    {
        Self::wires_per_op() * i + 5
    }

    /// Wires used: one six-wire block per operation.
    pub fn num_wires(&self) -> (r: usize)
        requires
            self.wf(),
        ensures
            r == 6 * self.num_ops,
    {
        self.num_ops * Self::wires_per_op()
    }

    /// No per-row constants.
    pub fn num_constants(&self) -> (r: usize)
        ensures
            r == 0,
    {
        0
    }

    /// A conservative upper bound on the constraint degree: the product of
    /// two wires has degree two, and three is what the surrounding framework
    /// budgets for this gate.
    pub fn degree(&self) -> (r: usize)
        ensures
            r == 3,
    {
        3
    }

    /// One constraint per operation.
    pub fn num_constraints(&self) -> (r: usize)
        ensures
            r == self.num_ops,
    {
        self.num_ops
    }

    /// Appends the encoding of the immutable parameters.
    pub fn serialize(&self, dst: &mut Vec<u8>)
        ensures
            final(dst)@ == old(dst)@ + self.spec_bytes(),
    {
        write_u64_le(dst, self.num_ops as u64);
    }

    /// Reads a gate back from `bytes` at `pos`.
    pub fn deserialize(bytes: &Vec<u8>, pos: usize) -> (r: Option<(Self, usize)>)
        ensures
            match r {
                Some((g, p)) => Self::parse_gate(bytes@, pos as int) == Some((g, p as int)),
                None => Self::parse_gate(bytes@, pos as int) is None,
            },
    {
        match read_u64_le(bytes, pos) {
            Some((v, p)) => if v <= usize::MAX as u64 {
                Some((Self { num_ops: v as usize }, p))
            } else {
                None
            },
            None => None,
        }
    }

    /// Evaluates all constraints over base-field values, as batched proving
    /// does row by row.
    pub fn eval_unfiltered_base_packed(&self, wires: &Vec<u64>, constants: &Vec<u64>) -> (r: Vec<
        u64,
    >)
        requires
            self.wf(),
            wires@.len() == 6 * self.num_ops,
            valid_row(wires@),
            valid_row(constants@),
        ensures
            r@.len() == self.num_ops,
            valid_row(r@),
            forall|i: int|
                0 <= i < r@.len() ==> (#[trigger] r@[i]) as int == ma_constraint(wires@, i),
    {
        let mut constraints: Vec<u64> = Vec::new();
        let mut i: usize = 0;
        while i < self.num_ops
            invariant
                self.wf(),
                i <= self.num_ops,
                wires@.len() == 6 * self.num_ops,
                valid_row(wires@),
                constraints@.len() == i,
                valid_row(constraints@),
                forall|c: int|
                    0 <= c < i ==> (#[trigger] constraints@[c]) as int == ma_constraint(wires@, c),
            decreases self.num_ops - i,
        {
            let multiplicand_0 = wires[6 * i];
            let multiplicand_1 = wires[6 * i + 1];
            let add_1 = wires[6 * i + 2];
            let add_2 = wires[6 * i + 3];
            let addend = wires[6 * i + 4];
            let output = wires[6 * i + 5];
            let computed_output = f_add(
                f_add(f_add(f_mul(multiplicand_0, multiplicand_1), add_1), add_2),
                addend,
            );
            constraints.push(f_sub(output, computed_output));
            i = i + 1;
        }
        constraints
    }

    /// Evaluates the same constraints row by row over a batch.
    pub fn eval_unfiltered_base_batch(&self, rows: &Vec<Vec<u64>>, constants: &Vec<Vec<u64>>) -> (r:
        Vec<Vec<u64>>)
        requires
            self.wf(),
            rows@.len() == constants@.len(),
            forall|b: int|
                0 <= b < rows@.len() ==> (#[trigger] rows@[b])@.len() == 6 * self.num_ops
                    && valid_row(rows@[b]@),
            forall|b: int| 0 <= b < constants@.len() ==> valid_row((#[trigger] constants@[b])@),
        ensures
            r@.len() == rows@.len(),
            forall|b: int, i: int|
                0 <= b < r@.len() && 0 <= i < self.num_ops ==> (#[trigger] r@[b]@[i]) as int
                    == ma_constraint(rows@[b]@, i),
            forall|b: int| 0 <= b < r@.len() ==> (#[trigger] r@[b])@.len() == self.num_ops,
    {
        let mut out: Vec<Vec<u64>> = Vec::new();
        let mut b: usize = 0;
        while b < rows.len()
            invariant
                self.wf(),
                rows@.len() == constants@.len(),
                b <= rows@.len(),
                out@.len() == b,
                forall|c: int|
                    0 <= c < rows@.len() ==> (#[trigger] rows@[c])@.len() == 6 * self.num_ops
                        && valid_row(rows@[c]@),
                forall|c: int| 0 <= c < constants@.len() ==> valid_row((#[trigger] constants@[c])@),
                forall|c: int, i: int|
                    0 <= c < out@.len() && 0 <= i < self.num_ops ==> (#[trigger] out@[c]@[i]) as int
                        == ma_constraint(rows@[c]@, i),
                forall|c: int| 0 <= c < out@.len() ==> (#[trigger] out@[c])@.len() == self.num_ops,
            decreases rows@.len() - b,
        {
            let row_constraints = self.eval_unfiltered_base_packed(&rows[b], &constants[b]);
            out.push(row_constraints);
            b = b + 1;
        }
        out
    }

    /// Evaluates all constraints over the extension field, as recursive
    /// verification does.
    pub fn eval_unfiltered(&self, wires: &Vec<ExtElem>, constants: &Vec<ExtElem>) -> (r: Vec<
        ExtElem,
    >)
        requires
            self.wf(),
            wires@.len() == 6 * self.num_ops,
            valid_ext_row(wires@),
            valid_ext_row(constants@),
        ensures
            r@.len() == self.num_ops,
            valid_ext_row(r@),
            forall|i: int|
                0 <= i < r@.len() ==> (#[trigger] r@[i]).sval() == ma_constraint_e(
                    svals(wires@),
                    i,
                ),
    {
        let ghost ws = svals(wires@);
        let mut constraints: Vec<ExtElem> = Vec::new();
        let mut i: usize = 0;
        while i < self.num_ops
            invariant
                self.wf(),
                ws == svals(wires@),
                i <= self.num_ops,
                wires@.len() == 6 * self.num_ops,
                valid_ext_row(wires@),
                constraints@.len() == i,
                valid_ext_row(constraints@),
                forall|c: int|
                    0 <= c < i ==> (#[trigger] constraints@[c]).sval() == ma_constraint_e(ws, c),
            decreases self.num_ops - i,
        {
            let multiplicand_0 = wires[6 * i];
            let multiplicand_1 = wires[6 * i + 1];
            let add_1 = wires[6 * i + 2];
            let add_2 = wires[6 * i + 3];
            let addend = wires[6 * i + 4];
            let output = wires[6 * i + 5];
            let computed_output = ext_add(
                ext_add(ext_add(ext_mul(multiplicand_0, multiplicand_1), add_1), add_2),
                addend,
            );
            constraints.push(ext_sub(output, computed_output));
            i = i + 1;
        }
        constraints
    }

    /// Describes the same constraints as sub-operations for a circuit
    /// builder: a product, a sum of many and a difference per operation.
    pub fn eval_unfiltered_circuit(&self) -> (gc: GateCircuit)
        requires
            self.wf(),
        ensures
            ma_ops_shape(gc.ops@, self.num_ops as nat),
            gc.constraints@ == ma_constraint_nodes(self.num_ops as nat),
    {
        let k = self.num_ops;
        let mut ops: Vec<CircuitOp> = Vec::new();
        let mut constraint_nodes: Vec<usize> = Vec::new();
        let mut i: usize = 0;
        while i < k
            invariant
                self.wf(),
                k == self.num_ops,
                i <= k,
                ops@.len() == 3 * i,
                constraint_nodes@.len() == i,
                forall|c: int| 0 <= c < i ==> #[trigger] ma_op_block(ops@, c),
                forall|c: int|
                    0 <= c < i ==> (#[trigger] constraint_nodes@[c]) == (3 * c + 2) as usize,
            decreases k - i,
        {
            let ghost old_ops = ops@;
            ops.push(CircuitOp::MulExt(Operand::Wire(6 * i), Operand::Wire(6 * i + 1)));
            let mut addends: Vec<Operand> = Vec::new();
            addends.push(Operand::Node(3 * i));
            addends.push(Operand::Wire(6 * i + 2));
            addends.push(Operand::Wire(6 * i + 3));
            addends.push(Operand::Wire(6 * i + 4));
            proof {
                assert(addends@ =~= ma_addends(i as int));
            }
            ops.push(CircuitOp::AddManyExt(addends));
            ops.push(CircuitOp::SubExt(Operand::Wire(6 * i + 5), Operand::Node(3 * i + 1)));
            constraint_nodes.push(3 * i + 2);
            proof {
                assert(ma_op_block(ops@, i as int));
                assert forall|c: int| 0 <= c < i implies #[trigger] ma_op_block(ops@, c) by {
                    assert(ma_op_block(old_ops, c));
                    assert(ops@[3 * c] == old_ops[3 * c]);
                    assert(ops@[3 * c + 1] == old_ops[3 * c + 1]);
                    assert(ops@[3 * c + 2] == old_ops[3 * c + 2]);
                }
            }
            i = i + 1;
        }
        proof {
            assert(constraint_nodes@ =~= ma_constraint_nodes(k as nat));
        }
        GateCircuit { ops, constraints: constraint_nodes }
    }

    /// One generator per operation, each owning only its own output wire, so
    /// the generators of a row are independent.
    pub fn generators(&self, row: usize, local_constants: &Vec<u64>) -> (r: Vec<
        SimpleMulAddTestGenerator,
    >)
        requires
            self.wf(),
        ensures
            r@.len() == self.num_ops,
            forall|c: int|
                0 <= c < r@.len() ==> (#[trigger] r@[c]) == (SimpleMulAddTestGenerator {
                    row,
                    i: c as usize,
                }),
    {
        let mut v: Vec<SimpleMulAddTestGenerator> = Vec::new();
        let mut c: usize = 0;
        while c < self.num_ops
            invariant
                c <= self.num_ops,
                v@.len() == c,
                forall|d: int|
                    0 <= d < c ==> (#[trigger] v@[d]) == (SimpleMulAddTestGenerator {
                        row,
                        i: d as usize,
                    }),
            decreases self.num_ops - c,
        {
            v.push(SimpleMulAddTestGenerator { row, i: c });
            c = c + 1;
        }
        v
    }
}

/// The witness generator of one operation of the fused multiply-add gate.
#[derive(Clone, Copy, Debug, Default, PartialEq, Eq, Structural)]
pub struct SimpleMulAddTestGenerator {
    pub row: usize,
    pub i: usize,
}

impl SimpleMulAddTestGenerator {
    /// Bytes of the generator: its row and its operation index.
    pub open spec fn spec_bytes(self) -> Seq<u8> {
        u64_le_bytes(self.row as u64) + u64_le_bytes(self.i as u64)
    }

    /// The generator read back from `s` at `pos`.
    pub open spec fn parse_generator(s: Seq<u8>, pos: int) -> Option<(
        SimpleMulAddTestGenerator,
        int,
    )> {
        match parse_u64(s, pos) {
            Some((row_v, p1)) => if row_v <= usize::MAX as u64 {
                match parse_u64(s, p1) {
                    Some((i_v, p2)) => if i_v <= usize::MAX as u64 {
                        Some(
                            (SimpleMulAddTestGenerator {
                                row: row_v as usize,
                                i: i_v as usize,
                            }, p2),
                        )
                    } else {
                        None
                    },
                    None => None,
                }
            } else {
                None
            },
            None => None,
        }
    }

    /// The generator reads the five input wires of its own operation.
    pub fn dependencies(&self) -> (r: Vec<WireId>)
        requires
            self.i < usize::MAX / 6,
        ensures
            r@.len() == 5,
            forall|j: int|
                0 <= j < 5 ==> (#[trigger] r@[j]) == (WireId {
                    row: self.row,
                    column: (6 * self.i + j) as usize,
                }),
    {
        let mut deps: Vec<WireId> = Vec::new();
        deps.push(WireId::wire(self.row, SimpleMulAddTestGate::wire_ith_multiplicand_0(self.i)));
        deps.push(WireId::wire(self.row, SimpleMulAddTestGate::wire_ith_multiplicand_1(self.i)));
        deps.push(WireId::wire(self.row, SimpleMulAddTestGate::wire_ith_add_1(self.i)));
        deps.push(WireId::wire(self.row, SimpleMulAddTestGate::wire_ith_add_2(self.i)));
        deps.push(WireId::wire(self.row, SimpleMulAddTestGate::wire_ith_addend(self.i)));
        deps
    }

    /// Computes the fused value from the resolved input wires and returns
    /// the single write: the output wire of its operation.
    pub fn run_once(&self, multiplicand_0: u64, multiplicand_1: u64, add_1: u64, add_2: u64,
        addend: u64) -> (r: (WireId, u64))
        requires
            self.i < usize::MAX / 6,
            valid_elem(multiplicand_0),
            valid_elem(multiplicand_1),
            valid_elem(add_1),
            valid_elem(add_2),
            valid_elem(addend),
        ensures
            r.0 == (WireId { row: self.row, column: (6 * self.i + 5) as usize }),
            valid_elem(r.1),
            r.1 as int == fadd(
                fadd(
                    fadd(
                        fmul(multiplicand_0 as int, multiplicand_1 as int),
                        add_1 as int,
                    ),
                    add_2 as int,
                ),
                addend as int,
            ),
    {
        let computed_output = f_add(
            f_add(f_add(f_mul(multiplicand_0, multiplicand_1), add_1), add_2),
            addend,
        );
        (WireId::wire(self.row, SimpleMulAddTestGate::wire_ith_output(self.i)), computed_output)
    }

    /// Appends the encoding of the generator.
    pub fn serialize(&self, dst: &mut Vec<u8>)
        ensures
            final(dst)@ == old(dst)@ + self.spec_bytes(),
    {
        write_u64_le(dst, self.row as u64);
        write_u64_le(dst, self.i as u64);
        proof {
            assert(dst@ =~= old(dst)@ + self.spec_bytes());
        }
    }

    /// Reads a generator back from `bytes` at `pos`.
    pub fn deserialize(bytes: &Vec<u8>, pos: usize) -> (r: Option<(Self, usize)>)
        ensures
            match r {
                Some((g, p)) => Self::parse_generator(bytes@, pos as int) == Some((g, p as int)),
                None => Self::parse_generator(bytes@, pos as int) is None,
            },
    {
        let (row_v, p1) = match read_u64_le(bytes, pos) {
            Some(x) => x,
            None => {
                return None;
            },
        };
        if row_v > usize::MAX as u64 {
            return None;
        }
        let (i_v, p2) = match read_u64_le(bytes, p1) {
            Some(x) => x,
            None => {
                return None;
            },
        };
        if i_v > usize::MAX as u64 {
            return None;
        }
        Some((Self { row: row_v as usize, i: i_v as usize }, p2))
    }
}

/// The operands summed by the add-many operation of operation `i`.
pub open spec fn ma_addends(i: int) -> Seq<Operand> {
    seq![
        Operand::Node((3 * i) as usize),
        Operand::Wire((6 * i + 2) as usize),
        Operand::Wire((6 * i + 3) as usize),
        Operand::Wire((6 * i + 4) as usize),
    ]
}

/// Operations `3 i`, `3 i + 1` and `3 i + 2` are the product, the sum and
/// the difference of operation `i`.
pub open spec fn ma_op_block(ops: Seq<CircuitOp>, i: int) -> bool
    recommends
        0 <= i,
        3 * i + 2 < ops.len(),
{
    &&& ops[3 * i] == CircuitOp::MulExt(
        Operand::Wire((6 * i) as usize),
        Operand::Wire((6 * i + 1) as usize),
    )
    &&& (match ops[3 * i + 1] {
        CircuitOp::AddManyExt(v) => v@ == ma_addends(i),
        _ => false,
    })
    &&& ops[3 * i + 2] == CircuitOp::SubExt(
        Operand::Wire((6 * i + 5) as usize),
        Operand::Node((3 * i + 1) as usize),
    )
}

/// The circuit form: one block of three operations per
/// operation of the row.
pub open spec fn ma_ops_shape(ops: Seq<CircuitOp>, k: nat) -> bool {
    ops.len() == 3 * k && forall|i: int| 0 <= i < k ==> #[trigger] ma_op_block(ops, i)
}

/// The node computing constraint `i`.
pub open spec fn ma_constraint_nodes(k: nat) -> Seq<usize> {
    Seq::new(k, |i: int| (3 * i + 2) as usize)
}

/// The sum node of operation `i` adds the product and the three addends in
/// order, and the difference node computes constraint `i`.
pub proof fn lemma_ma_node_vals(
    ops: Seq<CircuitOp>,
    k: nat,
    ws: Seq<(int, int)>,
    cs: Seq<(int, int)>,
    i: int,
)
    requires
        k <= usize::MAX / 6,
        ma_ops_shape(ops, k),
        0 <= i < k,
    ensures
        node_val(ops, ws, cs, 3 * i + 2) == ma_constraint_e(ws, i),
{
    assert(ma_op_block(ops, i));
    let v = ma_addends(i);
    assert(node_val(ops, ws, cs, 3 * i) == e_mul(ws[6 * i], ws[6 * i + 1]));
    assert(operand_val(ops, ws, cs, Operand::Node((3 * i) as usize), 3 * i + 1) == node_val(
        ops,
        ws,
        cs,
        3 * i,
    ));
    assert(v.drop_last() =~= seq![
        Operand::Node((3 * i) as usize),
        Operand::Wire((6 * i + 2) as usize),
        Operand::Wire((6 * i + 3) as usize),
    ]);
    assert(v.drop_last().drop_last() =~= seq![
        Operand::Node((3 * i) as usize),
        Operand::Wire((6 * i + 2) as usize),
    ]);
    assert(v.drop_last().drop_last().drop_last() =~= seq![Operand::Node((3 * i) as usize)]);
    let v1 = v.drop_last().drop_last().drop_last();
    assert(v1.len() == 1);
    assert(v1[0] == Operand::Node((3 * i) as usize));
    assert(sum_vals(ops, ws, cs, v1, 3 * i + 1) == operand_val(ops, ws, cs, v1[0], 3 * i + 1));
    assert(operand_val(ops, ws, cs, Operand::Node((3 * i) as usize), 3 * i + 1) == node_val(
        ops,
        ws,
        cs,
        3 * i,
    ));
    assert(sum_vals(ops, ws, cs, v.drop_last().drop_last().drop_last(), 3 * i + 1) == node_val(
        ops,
        ws,
        cs,
        3 * i,
    ));
    assert(v.drop_last().drop_last().last() == Operand::Wire((6 * i + 2) as usize));
    assert(v.drop_last().last() == Operand::Wire((6 * i + 3) as usize));
    assert(v.last() == Operand::Wire((6 * i + 4) as usize));
    assert(operand_val(ops, ws, cs, Operand::Wire((6 * i + 2) as usize), 3 * i + 1) == ws[6 * i
        + 2]);
    assert(operand_val(ops, ws, cs, Operand::Wire((6 * i + 3) as usize), 3 * i + 1) == ws[6 * i
        + 3]);
    assert(operand_val(ops, ws, cs, Operand::Wire((6 * i + 4) as usize), 3 * i + 1) == ws[6 * i
        + 4]);
    assert(sum_vals(ops, ws, cs, v.drop_last().drop_last(), 3 * i + 1) == e_add(
        node_val(ops, ws, cs, 3 * i),
        ws[6 * i + 2],
    ));
    assert(sum_vals(ops, ws, cs, v.drop_last(), 3 * i + 1) == e_add(
        e_add(node_val(ops, ws, cs, 3 * i), ws[6 * i + 2]),
        ws[6 * i + 3],
    ));
    assert(sum_vals(ops, ws, cs, v, 3 * i + 1) == ma_computed_e(ws, i));
    assert(node_val(ops, ws, cs, 3 * i + 1) == ma_computed_e(ws, i));
    assert(node_val(ops, ws, cs, 3 * i + 2) == e_sub(ws[6 * i + 5], ma_computed_e(ws, i)));
}

/// Every constraint node of the circuit form evaluates to exactly the
/// constraint the direct extension evaluator computes: the circuit-recursive
/// representation agrees with the other two on every assignment.
pub proof fn lemma_ma_circuit_matches_eval(
    ops: Seq<CircuitOp>,
    k: nat,
    ws: Seq<(int, int)>,
    cs: Seq<(int, int)>,
    i: int,
)
    requires
        k <= usize::MAX / 6,
        ma_ops_shape(ops, k),
        0 <= i < k,
    ensures
        node_val(ops, ws, cs, ma_constraint_nodes(k)[i] as int) == ma_constraint_e(ws, i),
{
    lemma_ma_node_vals(ops, k, ws, cs, i);
}

/// The circuit form refers only to the row's wires and earlier operations;
/// it uses no constants.
pub proof fn lemma_ma_ops_wf(ops: Seq<CircuitOp>, k: nat)
    requires
        k <= usize::MAX / 6,
        ma_ops_shape(ops, k),
    ensures
        ops_wf(ops, 6 * k as int, 0),
{
    assert forall|idx: int| 0 <= idx < ops.len() implies op_wf(
        #[trigger] ops[idx],
        idx,
        6 * k as int,
        0,
    ) by {
        let i = idx / 3;
        assert(ma_op_block(ops, i));
        if idx % 3 == 0 {
            assert(idx == 3 * i);
        } else if idx % 3 == 1 {
            assert(idx == 3 * i + 1);
            let v = ma_addends(i);
            assert forall|j: int| 0 <= j < v.len() implies #[trigger] crate::circuit::operand_wf(
                v[j],
                idx,
                6 * k as int,
                0,
            ) by {
                if j == 0 {
                } else if j == 1 {
                } else if j == 2 {
                } else {
                    assert(v[j] == Operand::Wire((6 * i + 4) as usize));
                }
            }
        } else {
            assert(idx == 3 * i + 2);
        }
    }
}

/// On a row embedded from the base field, the extension evaluator computes
/// the embedding of what the packed base evaluator computes: the two
/// representations agree wherever both apply.
pub proof fn lemma_ma_eval_base_ext_agree(k: nat, wires: Seq<u64>, i: int)
    requires
        wires.len() == 6 * k,
        valid_row(wires),
        0 <= i < k,
    ensures
        ma_constraint_e(embed_row(wires), i) == (ma_constraint(wires, i), 0int),
{
    let ws = embed_row(wires);
    lemma_e_mul_embed(wires[6 * i] as int, wires[6 * i + 1] as int);
}

/// A row whose output wires carry the fused values of their own input wires
/// satisfies every constraint.
pub proof fn lemma_ma_generated_witness_satisfies(k: nat, wires: Seq<u64>)
    requires
        wires.len() == 6 * k,
        forall|i: int|
            0 <= i < k ==> (#[trigger] wires[6 * i + 5]) as int == ma_computed(wires, i),
    ensures
        forall|i: int| 0 <= i < k ==> ma_constraint(wires, i) == 0,
{
    assert forall|i: int| 0 <= i < k implies ma_constraint(wires, i) == 0 by {
        assert(wires[6 * i + 5] as int == ma_computed(wires, i));
        lemma_fsub_self(ma_computed(wires, i));
    }
}

/// Changing a single addend or output wire of a row that satisfies every
/// constraint breaks the constraint of its operation.  A multiplicand is
/// exempt: when the other multiplicand is zero, the product hides the
/// change.
pub proof fn lemma_ma_perturb_single_wire(k: nat, wires: Seq<u64>, wires2: Seq<u64>, w: int)
    requires
        wires.len() == 6 * k,
        wires2.len() == 6 * k,
        valid_row(wires),
        valid_row(wires2),
        forall|i: int| 0 <= i < k ==> ma_constraint(wires, i) == 0,
        0 <= w < 6 * k,
        wires2[w] != wires[w],
        forall|j: int| 0 <= j < 6 * k && j != w ==> wires2[j] == wires[j],
        w % 6 >= 2,
    ensures
        exists|i: int| 0 <= i < k && ma_constraint(wires2, i) != 0,
{
    let i = w / 6;
    let c = w % 6;
    assert(w == 6 * i + c);
    assert(ma_constraint(wires, i) == 0);
    let p0 = fmul(wires[6 * i] as int, wires[6 * i + 1] as int);
    let s1 = fadd(p0, wires[6 * i + 2] as int);
    let s2 = fadd(s1, wires[6 * i + 3] as int);
    let s3 = fadd(s2, wires[6 * i + 4] as int);
    let q0 = fmul(wires2[6 * i] as int, wires2[6 * i + 1] as int);
    let t1 = fadd(q0, wires2[6 * i + 2] as int);
    let t2 = fadd(t1, wires2[6 * i + 3] as int);
    let t3 = fadd(t2, wires2[6 * i + 4] as int);
    lemma_mod_in_range(p0 + wires[6 * i + 2] as int);
    lemma_mod_in_range(s1 + wires[6 * i + 3] as int);
    lemma_mod_in_range(s2 + wires[6 * i + 4] as int);
    lemma_mod_in_range(q0 + wires2[6 * i + 2] as int);
    lemma_mod_in_range(t1 + wires2[6 * i + 3] as int);
    lemma_mod_in_range(t2 + wires2[6 * i + 4] as int);
    if c == 5 {
        assert(wires2[6 * i] == wires[6 * i]);
        assert(t3 == s3);
        lemma_fsub_left_injective(wires2[6 * i + 5] as int, wires[6 * i + 5] as int, s3);
        assert(ma_constraint(wires2, i) != 0);
    } else {
        if c == 2 {
            assert(q0 == p0);
            lemma_fadd_right_injective(p0, wires2[6 * i + 2] as int, wires[6 * i + 2] as int);
            assert(t1 != s1);
            lemma_fadd_left_injective(t1, s1, wires[6 * i + 3] as int);
            assert(t2 != s2);
            lemma_fadd_left_injective(t2, s2, wires[6 * i + 4] as int);
            assert(t3 != s3);
        } else if c == 3 {
            assert(t1 == s1);
            lemma_fadd_right_injective(s1, wires2[6 * i + 3] as int, wires[6 * i + 3] as int);
            assert(t2 != s2);
            lemma_fadd_left_injective(t2, s2, wires[6 * i + 4] as int);
            assert(t3 != s3);
        } else {
            assert(c == 4);
            assert(t2 == s2);
            lemma_fadd_right_injective(s2, wires2[6 * i + 4] as int, wires[6 * i + 4] as int);
            assert(t3 != s3);
        }
        lemma_fsub_right_injective(wires[6 * i + 5] as int, t3, s3);
        assert(ma_constraint(wires2, i) != 0);
    }
}

/// Serializing a gate and reading it back, whatever lies around the bytes,
/// yields the same instance.
pub proof fn lemma_ma_gate_round_trip(g: SimpleMulAddTestGate, prefix: Seq<u8>, suffix: Seq<u8>)
    ensures
        SimpleMulAddTestGate::parse_gate(prefix + g.spec_bytes() + suffix, prefix.len() as int)
            == Some((g, prefix.len() as int + 8)),
{
    lemma_parse_u64_of_write(prefix, g.num_ops as u64, suffix);
}

/// Serializing a generator and reading it back, whatever lies around the
/// bytes, yields the same row and operation index.
pub proof fn lemma_ma_generator_round_trip(
    g: SimpleMulAddTestGenerator,
    prefix: Seq<u8>,
    suffix: Seq<u8>,
)
    ensures
        SimpleMulAddTestGenerator::parse_generator(
            prefix + g.spec_bytes() + suffix,
            prefix.len() as int,
        ) == Some((g, prefix.len() as int + 16)),
{
    let s = prefix + g.spec_bytes() + suffix;
    let p0 = prefix.len() as int;
    assert(s =~= prefix + u64_le_bytes(g.row as u64) + (u64_le_bytes(g.i as u64) + suffix));
    lemma_parse_u64_of_write(prefix, g.row as u64, u64_le_bytes(g.i as u64) + suffix);
    assert(parse_u64(s, p0) == Some((g.row as u64, p0 + 8)));
    assert(s =~= (prefix + u64_le_bytes(g.row as u64)) + u64_le_bytes(g.i as u64) + suffix);
    lemma_parse_u64_of_write(prefix + u64_le_bytes(g.row as u64), g.i as u64, suffix);
    assert(parse_u64(s, p0 + 8) == Some((g.i as u64, p0 + 16)));
}

} // verus!

verus! {

/// The fused value of operation `i` as a polynomial expression.
pub open spec fn ma_computed_expr(i: int) -> Expr
    recommends
        0 <= i,
{
    Expr::Add(
        Box::new(
            Expr::Add(
                Box::new(
                    Expr::Add(
                        Box::new(
                            Expr::Mul(
                                Box::new(Expr::Wire((6 * i) as usize)),
                                Box::new(Expr::Wire((6 * i + 1) as usize)),
                            ),
                        ),
                        Box::new(Expr::Wire((6 * i + 2) as usize)),
                    ),
                ),
                Box::new(Expr::Wire((6 * i + 3) as usize)),
            ),
        ),
        Box::new(Expr::Wire((6 * i + 4) as usize)),
    )
}

/// Constraint `i` as a polynomial expression.
pub open spec fn ma_expr(i: int) -> Expr
    recommends
        0 <= i,
{
    Expr::Sub(Box::new(Expr::Wire((6 * i + 5) as usize)), Box::new(ma_computed_expr(i)))
}

/// The constraint expressions evaluate to exactly what the packed base
/// evaluator computes, so the degree accounting below speaks of the real
/// constraints.
pub proof fn lemma_ma_expr_eval(k: nat, wires: Seq<u64>, consts: Seq<u64>, i: int)
    requires
        k <= usize::MAX / 6,
        wires.len() == 6 * k,
        0 <= i < k,
    ensures
        eval_expr(ma_expr(i), wires, consts) == ma_constraint(wires, i),
{
    let m = Expr::Mul(
        Box::new(Expr::Wire((6 * i) as usize)),
        Box::new(Expr::Wire((6 * i + 1) as usize)),
    );
    let s1 = Expr::Add(Box::new(m), Box::new(Expr::Wire((6 * i + 2) as usize)));
    let s2 = Expr::Add(Box::new(s1), Box::new(Expr::Wire((6 * i + 3) as usize)));
    let s3 = Expr::Add(Box::new(s2), Box::new(Expr::Wire((6 * i + 4) as usize)));
    assert(eval_expr(Expr::Wire((6 * i) as usize), wires, consts) == wires[6 * i] as int);
    assert(eval_expr(Expr::Wire((6 * i + 1) as usize), wires, consts) == wires[6 * i + 1] as int);
    assert(eval_expr(Expr::Wire((6 * i + 2) as usize), wires, consts) == wires[6 * i + 2] as int);
    assert(eval_expr(Expr::Wire((6 * i + 3) as usize), wires, consts) == wires[6 * i + 3] as int);
    assert(eval_expr(Expr::Wire((6 * i + 4) as usize), wires, consts) == wires[6 * i + 4] as int);
    assert(eval_expr(Expr::Wire((6 * i + 5) as usize), wires, consts) == wires[6 * i + 5] as int);
    assert(eval_expr(m, wires, consts) == fmul(wires[6 * i] as int, wires[6 * i + 1] as int));
    assert(eval_expr(s1, wires, consts) == fadd(
        eval_expr(m, wires, consts),
        wires[6 * i + 2] as int,
    ));
    assert(eval_expr(s2, wires, consts) == fadd(
        eval_expr(s1, wires, consts),
        wires[6 * i + 3] as int,
    ));
    assert(eval_expr(s3, wires, consts) == fadd(
        eval_expr(s2, wires, consts),
        wires[6 * i + 4] as int,
    ));
    assert(ma_computed_expr(i) == s3);
    assert(ma_expr(i) == Expr::Sub(Box::new(Expr::Wire((6 * i + 5) as usize)), Box::new(s3)));
    assert(eval_expr(ma_expr(i), wires, consts) == fsub(
        wires[6 * i + 5] as int,
        eval_expr(s3, wires, consts),
    ));
}

/// The declared degree is a true upper bound: the one product of two wires
/// has degree two and every addend degree one, so no constraint exceeds the
/// budgeted three.
pub proof fn lemma_ma_degree_bound(i: int)
    requires
        0 <= i,
    ensures
        expr_degree(ma_expr(i)) <= 3,
{
    let m = Expr::Mul(
        Box::new(Expr::Wire((6 * i) as usize)),
        Box::new(Expr::Wire((6 * i + 1) as usize)),
    );
    let s1 = Expr::Add(Box::new(m), Box::new(Expr::Wire((6 * i + 2) as usize)));
    let s2 = Expr::Add(Box::new(s1), Box::new(Expr::Wire((6 * i + 3) as usize)));
    let s3 = Expr::Add(Box::new(s2), Box::new(Expr::Wire((6 * i + 4) as usize)));
    assert(expr_degree(Expr::Wire((6 * i) as usize)) == 1);
    assert(expr_degree(Expr::Wire((6 * i + 1) as usize)) == 1);
    assert(expr_degree(Expr::Wire((6 * i + 2) as usize)) == 1);
    assert(expr_degree(Expr::Wire((6 * i + 3) as usize)) == 1);
    assert(expr_degree(Expr::Wire((6 * i + 4) as usize)) == 1);
    assert(expr_degree(Expr::Wire((6 * i + 5) as usize)) == 1);
    assert(expr_degree(m) == 2);
    assert(expr_degree(s1) == 2);
    assert(expr_degree(s2) == 2);
    assert(expr_degree(s3) == 2);
    assert(ma_computed_expr(i) == s3);
    assert(ma_expr(i) == Expr::Sub(Box::new(Expr::Wire((6 * i + 5) as usize)), Box::new(s3)));
    assert(expr_degree(ma_expr(i)) <= 3);
}

} // verus!
