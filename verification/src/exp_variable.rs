//! A gate proving a chain of successive powers of a witness base.
//!
//! The base occupies wire 0 of the row, so the recurrence cannot be folded
//! at circuit-description time: each constraint compares a power wire with
//! the product of all earlier steps, and the degree grows with the chain
//! length.  Wires `1..n` hold the successive powers, wire `n+1` the output.

use vstd::prelude::*;

use crate::bytes::parse_u64;
use crate::bytes::u64_le_bytes;
use crate::bytes::write_u64_le;
use crate::bytes::read_u64_le;
use crate::bytes::lemma_parse_u64_of_write;
use crate::circuit::node_val;
use crate::circuit::operand_val;
use crate::circuit::op_wf;
use crate::circuit::ops_wf;
use crate::circuit::CircuitOp;
use crate::circuit::GateCircuit;
use crate::circuit::Operand;
use crate::config::CircuitConfig;
use crate::exp_constant::max_power_spec;
use crate::expr::eval_expr;
use crate::expr::expr_degree;
use crate::expr::Expr;
use crate::ext::e_one;
use crate::ext::e_pow;
use crate::ext::e_sub;
use crate::ext::embed;
use crate::ext::embed_row;
use crate::ext::ext_mul;
use crate::ext::ext_sub;
use crate::ext::lemma_e_pow_embed;
use crate::ext::lemma_pow_f_range;
use crate::ext::svals;
use crate::ext::valid_ext_row;
use crate::ext::ExtElem;
use crate::field::fsub;
use crate::field::f_mul;
use crate::field::f_sub;
use crate::field::fmul;
use crate::field::lemma_elem_mod_noop;
use crate::field::lemma_fsub_left_injective;
use crate::field::lemma_fsub_right_injective;
use crate::field::lemma_fsub_self;
use crate::field::pow_f;
use crate::field::valid_elem;
use crate::field::valid_row;
use crate::wire::WireId;

verus! {

/// The value of constraint `j` of a chain of length `n` on a row whose wire
/// 0 holds the base: for `j < n` the power wire minus the folded power of
/// the base, and as the last constraint the folded final power minus the
/// output wire.
pub open spec fn vp_constraint(n: nat, wires: Seq<u64>, j: int) -> int
    recommends
        wires.len() == n + 2,
        0 <= j <= n,
{
    if j < n {
        fsub(wires[j + 1] as int, pow_f(wires[0] as int, (j + 1) as nat))
    } else {
        fsub(pow_f(wires[0] as int, n), wires[n as int + 1] as int)
    }
}

/// `vp_constraint` over the extension field.
pub open spec fn vp_constraint_e(n: nat, ws: Seq<(int, int)>, j: int) -> (int, int)
    recommends
        ws.len() == n + 2,
        0 <= j <= n,
{
    if j < n {
        e_sub(ws[j + 1], e_pow(ws[0], (j + 1) as nat))
    } else {
        e_sub(e_pow(ws[0], n), ws[n as int + 1])
    }
}

/// The row the generator fills around a resolved base: wire `j` holds the
/// `j`-th power for `1 <= j <= n`, and the output wire repeats the final
/// power.
pub open spec fn vp_witness(n: nat, base: u64) -> Seq<u64> {
    Seq::new(
        (n + 2) as nat,
        |j: int|
            if j == 0 {
                base
            } else if j <= n {
                pow_f(base as int, j as nat) as u64
            } else {
                pow_f(base as int, n) as u64
            },
    )
}

/// A gate proving `power_i = base^i` for `i = 1..n` and `output = base^n`,
/// with the base read from wire 0.
#[derive(Clone, Copy, Debug, Default, PartialEq, Eq, Structural)]
pub struct SimpleExpTestGate {
    pub num_limbs: usize,
}

impl SimpleExpTestGate {
    /// The chain length leaves room for the row bookkeeping.
    pub open spec fn wf(self) -> bool {
        self.num_limbs < usize::MAX / 2
    }

    /// Bytes of the immutable parameters: the chain length as a
    /// little-endian word.
    pub open spec fn spec_bytes(self) -> Seq<u8> {
        u64_le_bytes(self.num_limbs as u64)
    }

    /// The instance read back from `s` at `pos`.
    pub open spec fn parse_gate(s: Seq<u8>, pos: int) -> Option<(SimpleExpTestGate, int)> {
        match parse_u64(s, pos) {
            Some((v, p)) => if v <= usize::MAX as u64 {
                Some((SimpleExpTestGate { num_limbs: v as usize }, p))
            } else {
                None
            },
            None => None,
        }
    }

    /// The largest chain length an instance may have under `config`.
    pub fn max_power(config: &CircuitConfig) -> (r: usize)
        requires
            config.wf(),
        ensures
            r == max_power_spec(*config),
    {
        let max_for_routed_wires = config.num_routed_wires - 3;
        let max_for_wires = (config.num_wires - 3) / 2;
        if max_for_routed_wires < max_for_wires {
            max_for_routed_wires
        } else {
            max_for_wires
        }
    }

    /// A gate for a chain of `power` steps; the capacity of `config` must
    /// not be exceeded.
    pub fn new(power: usize, config: &CircuitConfig) -> (g: Self)
        requires
            config.wf(),
            (power as int) < max_power_spec(*config),
        ensures
            g.num_limbs == power,
            g.wf(),
    {
        Self { num_limbs: power }
    }

    /// The checked constructor: a gate exactly when `power` is within the
    /// capacity of `config`, and nothing otherwise.
    pub fn try_new(power: usize, config: &CircuitConfig) -> (r: Option<Self>)
        requires
            config.wf(),
        ensures
            (power as int) < max_power_spec(*config) ==> r == Some(
                (SimpleExpTestGate { num_limbs: power }),
            ),
            (power as int) >= max_power_spec(*config) ==> r is None,
    {
        if power < Self::max_power(config) {
            Some(Self { num_limbs: power })
        } else {
            None
        }
    }

    /// The wire holding the base.
    pub fn wire_base(&self) -> (r: usize)
        ensures
            r == 0,
    {
        0
    }

    /// The wire holding the `i`-th power of the base, `1 <= i <= n`.
    pub fn wire_power_i(&self, i: usize) -> (r: usize)
        requires
            1 <= i <= self.num_limbs,
        ensures
            r == i,
    {
        i
    }

    /// The wire holding the output.
    pub fn wire_output(&self) -> (r: usize)
        requires
            self.wf(),
        ensures
            r == self.num_limbs + 1,
    {
        self.num_limbs + 1
    }

    /// Wires used: the base, one per power, and the output.
    pub fn num_wires(&self) -> (r: usize)
        requires
            self.wf(),
        ensures
            r == self.num_limbs + 2,
    {
        self.num_limbs + 2
    }

    /// No per-row constants.
    pub fn num_constants(&self) -> (r: usize)
        ensures
            r == 0,
    {
        0
    }

    /// The folded recurrence multiplies the unknown base once per step, so
    /// the degree equals the chain length.
    pub fn degree(&self) -> (r: usize)
        ensures
            r == self.num_limbs,
    {
        self.num_limbs
    }

    /// One constraint per chain step and one for the output.
    pub fn num_constraints(&self) -> (r: usize)
        requires
            self.wf(),
        ensures
            r == self.num_limbs + 1,
    {
        self.num_limbs + 1
    }

    /// Appends the encoding of the immutable parameters.
    pub fn serialize(&self, dst: &mut Vec<u8>)
        ensures
            final(dst)@ == old(dst)@ + self.spec_bytes(),
    {
        write_u64_le(dst, self.num_limbs as u64);
    }

    /// Reads a gate back from `bytes` at `pos`.
    pub fn deserialize(bytes: &Vec<u8>, pos: usize) -> (r: Option<(Self, usize)>)
        ensures
            match r {
                Some((g, p)) => Self::parse_gate(bytes@, pos as int) == Some((g, p as int)),
                None => Self::parse_gate(bytes@, pos as int) is None,
            },
    {
        match read_u64_le(bytes, pos) {
            Some((v, p)) => if v <= usize::MAX as u64 {
                Some((Self { num_limbs: v as usize }, p))
            } else {
                None
            },
            None => None,
        }
    }

    /// Evaluates all constraints over base-field values, as batched proving
    /// does row by row.
    pub fn eval_unfiltered_base_packed(&self, wires: &Vec<u64>, constants: &Vec<u64>) -> (r: Vec<
        u64,
    >)
        requires
            self.wf(),
            wires@.len() == self.num_limbs + 2,
            valid_row(wires@),
            valid_row(constants@),
        ensures
            r@.len() == self.num_limbs + 1,
            valid_row(r@),
            forall|j: int|
                0 <= j < r@.len() ==> (#[trigger] r@[j]) as int == vp_constraint(
                    self.num_limbs as nat,
                    wires@,
                    j,
                ),
    {
        let ghost n = self.num_limbs as nat;
        let v_base = wires[0];
        let mut constraints: Vec<u64> = Vec::new();
        let mut computed: u64 = 1;
        let mut i: usize = 1;
        proof {
            lemma_elem_mod_noop(1);
        }
        while i <= self.num_limbs
            invariant
                self.wf(),
                n == self.num_limbs as nat,
                1 <= i <= self.num_limbs + 1,
                wires@.len() == n + 2,
                valid_row(wires@),
                valid_elem(v_base),
                v_base == wires@[0],
                constraints@.len() == i - 1,
                valid_row(constraints@),
                valid_elem(computed),
                computed as int == pow_f(v_base as int, (i - 1) as nat),
                forall|j: int|
                    0 <= j < i - 1 ==> (#[trigger] constraints@[j]) as int == vp_constraint(
                        n,
                        wires@,
                        j,
                    ),
            decreases self.num_limbs + 1 - i,
        {
            computed = f_mul(computed, v_base);
            constraints.push(f_sub(wires[i], computed));
            i = i + 1;
        }
        let output = wires[self.num_limbs + 1];
        constraints.push(f_sub(computed, output));
        constraints
    }

    /// Evaluates the same constraints row by row over a batch.
    pub fn eval_unfiltered_base_batch(&self, rows: &Vec<Vec<u64>>, constants: &Vec<Vec<u64>>) -> (r:
        Vec<Vec<u64>>)
        requires
            self.wf(),
            rows@.len() == constants@.len(),
            forall|b: int|
                0 <= b < rows@.len() ==> (#[trigger] rows@[b])@.len() == self.num_limbs + 2
                    && valid_row(rows@[b]@),
            forall|b: int| 0 <= b < constants@.len() ==> valid_row((#[trigger] constants@[b])@),
        ensures
            r@.len() == rows@.len(),
            forall|b: int, j: int|
                0 <= b < r@.len() && 0 <= j < self.num_limbs + 1 ==> (#[trigger] r@[b]@[j]) as int
                    == vp_constraint(self.num_limbs as nat, rows@[b]@, j),
            forall|b: int| 0 <= b < r@.len() ==> (#[trigger] r@[b])@.len() == self.num_limbs + 1,
    {
        let mut out: Vec<Vec<u64>> = Vec::new();
        let mut b: usize = 0;
        while b < rows.len()
            invariant
                self.wf(),
                rows@.len() == constants@.len(),
                b <= rows@.len(),
                out@.len() == b,
                forall|c: int|
                    0 <= c < rows@.len() ==> (#[trigger] rows@[c])@.len() == self.num_limbs + 2
                        && valid_row(rows@[c]@),
                forall|c: int| 0 <= c < constants@.len() ==> valid_row((#[trigger] constants@[c])@),
                forall|c: int, j: int|
                    0 <= c < out@.len() && 0 <= j < self.num_limbs + 1 ==> (
                    #[trigger] out@[c]@[j]) as int == vp_constraint(
                        self.num_limbs as nat,
                        rows@[c]@,
                        j,
                    ),
                forall|c: int|
                    0 <= c < out@.len() ==> (#[trigger] out@[c])@.len() == self.num_limbs + 1,
            decreases rows@.len() - b,
        {
            let row_constraints = self.eval_unfiltered_base_packed(&rows[b], &constants[b]);
            out.push(row_constraints);
            b = b + 1;
        }
        out
    }

    /// Evaluates all constraints over the extension field, as recursive
    /// verification does.
    pub fn eval_unfiltered(&self, wires: &Vec<ExtElem>, constants: &Vec<ExtElem>) -> (r: Vec<
        ExtElem,
    >)
        requires
            self.wf(),
            wires@.len() == self.num_limbs + 2,
            valid_ext_row(wires@),
            valid_ext_row(constants@),
        ensures
            r@.len() == self.num_limbs + 1,
            valid_ext_row(r@),
            forall|j: int|
                0 <= j < r@.len() ==> (#[trigger] r@[j]).sval() == vp_constraint_e(
                    self.num_limbs as nat,
                    svals(wires@),
                    j,
                ),
    {
        let ghost n = self.num_limbs as nat;
        let ghost ws = svals(wires@);
        let v_base = wires[0];
        let mut constraints: Vec<ExtElem> = Vec::new();
        let mut computed: ExtElem = ExtElem::one();
        let mut i: usize = 1;
        while i <= self.num_limbs
            invariant
                self.wf(),
                n == self.num_limbs as nat,
                ws == svals(wires@),
                1 <= i <= self.num_limbs + 1,
                wires@.len() == n + 2,
                valid_ext_row(wires@),
                v_base.valid(),
                v_base == wires@[0],
                constraints@.len() == i - 1,
                valid_ext_row(constraints@),
                computed.valid(),
                computed.sval() == e_pow(ws[0], (i - 1) as nat),
                forall|j: int|
                    0 <= j < i - 1 ==> (#[trigger] constraints@[j]).sval() == vp_constraint_e(
                        n,
                        ws,
                        j,
                    ),
            decreases self.num_limbs + 1 - i,
        {
            computed = ext_mul(computed, v_base);
            constraints.push(ext_sub(wires[i], computed));
            i = i + 1;
        }
        let output = wires[self.num_limbs + 1];
        constraints.push(ext_sub(computed, output));
        constraints
    }

    /// Describes the same constraints as sub-operations for a circuit
    /// builder: the folded chain of products and the differences.
    pub fn eval_unfiltered_circuit(&self) -> (gc: GateCircuit)
        requires
            self.wf(),
        ensures
            gc.ops@ == vp_ops(self.num_limbs as nat),
            gc.constraints@ == vp_constraint_nodes(self.num_limbs as nat),
    {
        let n = self.num_limbs;
        let mut ops: Vec<CircuitOp> = Vec::new();
        let mut constraint_nodes: Vec<usize> = Vec::new();
        ops.push(CircuitOp::ConstOne);
        proof {
            assert(ops@ =~= vp_chain_ops(0));
        }
        let mut i: usize = 1;
        while i <= n
            invariant
                self.wf(),
                n == self.num_limbs,
                1 <= i <= n + 1,
                ops@ == vp_chain_ops((i - 1) as nat),
                ops@.len() == 2 * (i - 1) + 1,
                constraint_nodes@.len() == i - 1,
                forall|j: int|
                    0 <= j < i - 1 ==> (#[trigger] constraint_nodes@[j]) == (2 * j + 2) as usize,
            decreases n + 1 - i,
        {
            proof {
                lemma_vp_chain_ops_len(i as nat);
            }
            let prev = if i == 1 {
                Operand::Node(0)
            } else {
                Operand::Node(2 * i - 3)
            };
            ops.push(CircuitOp::MulExt(prev, Operand::Wire(0)));
            ops.push(CircuitOp::SubExt(Operand::Wire(i), Operand::Node(2 * i - 1)));
            constraint_nodes.push(2 * i);
            proof {
                assert(ops@ =~= vp_chain_ops(i as nat));
            }
            i = i + 1;
        }
        let last = if n == 0 {
            Operand::Node(0)
        } else {
            Operand::Node(2 * n - 1)
        };
        ops.push(CircuitOp::SubExt(last, Operand::Wire(n + 1)));
        constraint_nodes.push(2 * n + 1);
        proof {
            assert(ops@ =~= vp_ops(n as nat));
            assert(constraint_nodes@ =~= vp_constraint_nodes(n as nat));
        }
        GateCircuit { ops, constraints: constraint_nodes }
    }

    /// One generator per row; it owns every power wire and the output.
    pub fn generators(&self, row: usize, local_constants: &Vec<u64>) -> (r: Vec<
        SimpleExpTestGenerator,
    >)
        ensures
            r@.len() == 1,
            r@[0] == (SimpleExpTestGenerator { row, gate: *self }),
    {
        let gen = SimpleExpTestGenerator { row, gate: *self };
        let mut v: Vec<SimpleExpTestGenerator> = Vec::new();
        v.push(gen);
        v
    }
}

/// The witness generator of one row of the variable-base power gate.
#[derive(Clone, Copy, Debug, Default, PartialEq, Eq, Structural)]
pub struct SimpleExpTestGenerator {
    pub row: usize,
    pub gate: SimpleExpTestGate,
}

impl SimpleExpTestGenerator {
    /// Bytes of the generator: its row and its gate.
    pub open spec fn spec_bytes(self) -> Seq<u8> {
        u64_le_bytes(self.row as u64) + self.gate.spec_bytes()
    }

    /// The generator read back from `s` at `pos`.
    pub open spec fn parse_generator(s: Seq<u8>, pos: int) -> Option<(
        SimpleExpTestGenerator,
        int,
    )> {
        match parse_u64(s, pos) {
            Some((row_v, p1)) => if row_v <= usize::MAX as u64 {
                match SimpleExpTestGate::parse_gate(s, p1) {
                    Some((gate, p2)) => Some(
                        (SimpleExpTestGenerator { row: row_v as usize, gate }, p2),
                    ),
                    None => None,
                }
            } else {
                None
            },
            None => None,
        }
    }

    /// The generator reads the base wire; the rest of the chain it computes
    /// and writes itself.
    pub fn dependencies(&self) -> (r: Vec<WireId>)
        ensures
            r@.len() == 1,
            r@[0] == (WireId { row: self.row, column: 0 }),
    {
        let mut deps: Vec<WireId> = Vec::new();
        deps.push(WireId::wire(self.row, 0));
        deps
    }

    /// Computes the power chain from the resolved base value and returns
    /// every wire it writes: wire `j` of its row gets the `j`-th power, the
    /// output wire the final power.
    pub fn run_once(&self, base: u64) -> (r: Vec<(WireId, u64)>)
        requires
            self.gate.wf(),
            valid_elem(base),
        ensures
            r@.len() == self.gate.num_limbs + 1,
            forall|j: int|
                0 <= j < r@.len() ==> (#[trigger] r@[j]).0 == (WireId {
                    row: self.row,
                    column: (j + 1) as usize,
                }),
            forall|j: int|
                0 <= j < r@.len() ==> (#[trigger] r@[j]).1 == vp_witness(
                    self.gate.num_limbs as nat,
                    base,
                )[j + 1],
            forall|j: int| 0 <= j < r@.len() ==> valid_elem((#[trigger] r@[j]).1),
    {
        let ghost n = self.gate.num_limbs as nat;
        let mut out: Vec<(WireId, u64)> = Vec::new();
        let mut computed: u64 = 1;
        let mut i: usize = 1;
        while i <= self.gate.num_limbs
            invariant
                self.gate.wf(),
                n == self.gate.num_limbs as nat,
                valid_elem(base),
                1 <= i <= self.gate.num_limbs + 1,
                out@.len() == i - 1,
                valid_elem(computed),
                computed as int == pow_f(base as int, (i - 1) as nat),
                forall|j: int|
                    0 <= j < i - 1 ==> (#[trigger] out@[j]).0 == (WireId {
                        row: self.row,
                        column: (j + 1) as usize,
                    }),
                forall|j: int|
                    0 <= j < i - 1 ==> (#[trigger] out@[j]).1 as int == pow_f(
                        base as int,
                        (j + 1) as nat,
                    ),
            decreases self.gate.num_limbs + 1 - i,
        {
            computed = f_mul(computed, base);
            out.push((WireId::wire(self.row, i), computed));
            i = i + 1;
        }
        out.push((WireId::wire(self.row, self.gate.num_limbs + 1), computed));
        proof {
            assert forall|j: int| 0 <= j < out@.len() implies (#[trigger] out@[j]).1 == vp_witness(
                n,
                base,
            )[j + 1] by {
                lemma_pow_f_range(base as int, (j + 1) as nat);
                lemma_pow_f_range(base as int, n);
            }
        }
        out
    }

    /// Appends the encoding of the generator.
    pub fn serialize(&self, dst: &mut Vec<u8>)
        ensures
            final(dst)@ == old(dst)@ + self.spec_bytes(),
    {
        write_u64_le(dst, self.row as u64);
        self.gate.serialize(dst);
        proof {
            assert(dst@ =~= old(dst)@ + self.spec_bytes());
        }
    }

    /// Reads a generator back from `bytes` at `pos`.
    pub fn deserialize(bytes: &Vec<u8>, pos: usize) -> (r: Option<(Self, usize)>)
        ensures
            match r {
                Some((g, p)) => Self::parse_generator(bytes@, pos as int) == Some((g, p as int)),
                None => Self::parse_generator(bytes@, pos as int) is None,
            },
    {
        let (row_v, p1) = match read_u64_le(bytes, pos) {
            Some(x) => x,
            None => {
                return None;
            },
        };
        if row_v > usize::MAX as u64 {
            return None;
        }
        let (gate, p2) = match SimpleExpTestGate::deserialize(bytes, p1) {
            Some(x) => x,
            None => {
                return None;
            },
        };
        Some((Self { row: row_v as usize, gate }, p2))
    }
}

/// The circuit operations of the first `i` folded chain steps, after the
/// emitted constant one.
pub open spec fn vp_chain_ops(i: nat) -> Seq<CircuitOp>
    decreases i,
{
    if i == 0 {
        seq![CircuitOp::ConstOne]
    } else {
        vp_chain_ops((i - 1) as nat) + seq![
            CircuitOp::MulExt(vp_prev_operand(i), Operand::Wire(0)),
            CircuitOp::SubExt(Operand::Wire(i as usize), Operand::Node((2 * i - 1) as usize)),
        ]
    }
}

/// The operand feeding the product of step `i`: the previous product node,
/// or the emitted one for the first step.
pub open spec fn vp_prev_operand(i: nat) -> Operand {
    if i <= 1 {
        Operand::Node(0)
    } else {
        Operand::Node((2 * i - 3) as usize)
    }
}

/// The full circuit form: the folded chain and the output difference.
pub open spec fn vp_ops(n: nat) -> Seq<CircuitOp> {
    vp_chain_ops(n) + seq![
        CircuitOp::SubExt(vp_last_operand(n), Operand::Wire((n + 1) as usize)),
    ]
}

/// The operand holding the folded final power.
pub open spec fn vp_last_operand(n: nat) -> Operand {
    if n == 0 {
        Operand::Node(0)
    } else {
        Operand::Node((2 * n - 1) as usize)
    }
}

/// The node computing constraint `j`.
pub open spec fn vp_constraint_nodes(n: nat) -> Seq<usize> {
    Seq::new(
        (n + 1) as nat,
        |j: int|
            if j < n {
                (2 * j + 2) as usize
            } else {
                (2 * n + 1) as usize
            },
    )
}

/// The chain op list of `i` steps has `2 i + 1` operations.
pub proof fn lemma_vp_chain_ops_len(i: nat)
    ensures
        vp_chain_ops(i).len() == 2 * i + 1,
    decreases i,
{
    if i > 0 {
        lemma_vp_chain_ops_len((i - 1) as nat);
    }
}

/// Operations `2 i - 1` and `2 i` of the chain are the product and the
/// difference of step `i`.
pub proof fn lemma_vp_chain_index(i: nat, m: nat)
    requires
        1 <= i <= m,
    ensures
        vp_chain_ops(m).len() == 2 * m + 1,
        vp_chain_ops(m)[2 * i - 1] == CircuitOp::MulExt(vp_prev_operand(i), Operand::Wire(0)),
        vp_chain_ops(m)[2 * i as int] == CircuitOp::SubExt(
            Operand::Wire(i as usize),
            Operand::Node((2 * i - 1) as usize),
        ),
    decreases m,
{
    lemma_vp_chain_ops_len(m);
    lemma_vp_chain_ops_len((m - 1) as nat);
    if i < m {
        lemma_vp_chain_index(i, (m - 1) as nat);
    }
}

/// The first operation of the chain is the constant one.
pub proof fn lemma_vp_chain_zero(m: nat)
    ensures
        vp_chain_ops(m)[0] == CircuitOp::ConstOne,
    decreases m,
{
    if m > 0 {
        lemma_vp_chain_zero((m - 1) as nat);
        lemma_vp_chain_ops_len((m - 1) as nat);
    }
}

/// The product node of step `i` computes the `i`-th power of the base wire
/// and the difference node computes constraint `i - 1`.
pub proof fn lemma_vp_node_vals(n: nat, ws: Seq<(int, int)>, cs: Seq<(int, int)>, i: nat)
    requires
        n < usize::MAX / 2,
        1 <= i <= n,
    ensures
        node_val(vp_ops(n), ws, cs, 2 * i - 1) == e_pow(ws[0], i),
        node_val(vp_ops(n), ws, cs, 2 * i as int) == vp_constraint_e(n, ws, i as int - 1),
    decreases i,
{
    let ops = vp_ops(n);
    lemma_vp_chain_ops_len(n);
    lemma_vp_chain_index(i, n);
    lemma_vp_chain_zero(n);
    assert(ops[0] == CircuitOp::ConstOne);
    assert(node_val(ops, ws, cs, 0) == e_one());
    if i == 1 {
        assert(operand_val(ops, ws, cs, vp_prev_operand(i), 2 * i - 1) == e_one());
        assert(e_pow(ws[0], 0) == e_one());
    } else {
        lemma_vp_node_vals(n, ws, cs, (i - 1) as nat);
        assert(operand_val(ops, ws, cs, vp_prev_operand(i), 2 * i - 1) == e_pow(
            ws[0],
            (i - 1) as nat,
        ));
    }
    assert(operand_val(ops, ws, cs, Operand::Wire(0), 2 * i - 1) == ws[0]);
    assert(operand_val(ops, ws, cs, Operand::Wire(i as usize), 2 * i as int) == ws[i as int]);
    assert(operand_val(ops, ws, cs, Operand::Node((2 * i - 1) as usize), 2 * i as int) == node_val(
        ops,
        ws,
        cs,
        2 * i - 1,
    ));
}

/// Every constraint node of the circuit form evaluates to exactly the
/// constraint the direct extension evaluator computes: the circuit-recursive
/// representation agrees with the other two on every assignment.
pub proof fn lemma_vp_circuit_matches_eval(n: nat, ws: Seq<(int, int)>, cs: Seq<(int, int)>, j: int)
    requires
        n < usize::MAX / 2,
        0 <= j <= n,
    ensures
        node_val(vp_ops(n), ws, cs, vp_constraint_nodes(n)[j] as int) == vp_constraint_e(
            n,
            ws,
            j,
        ),
{
    let ops = vp_ops(n);
    lemma_vp_chain_ops_len(n);
    if j < n {
        lemma_vp_node_vals(n, ws, cs, (j + 1) as nat);
    } else {
        assert(ops[2 * n as int + 1] == CircuitOp::SubExt(
            vp_last_operand(n),
            Operand::Wire((n + 1) as usize),
        ));
        if n == 0 {
            lemma_vp_chain_zero(n);
            assert(node_val(ops, ws, cs, 0) == e_one());
            assert(operand_val(ops, ws, cs, vp_last_operand(n), 2 * n as int + 1) == e_one());
            assert(e_pow(ws[0], 0) == e_one());
        } else {
            lemma_vp_node_vals(n, ws, cs, n);
            assert(operand_val(ops, ws, cs, vp_last_operand(n), 2 * n as int + 1) == e_pow(
                ws[0],
                n,
            ));
        }
        assert(operand_val(ops, ws, cs, Operand::Wire((n + 1) as usize), 2 * n as int + 1) == ws[n
            as int + 1]);
    }
}

/// The circuit form refers only to the row's wires and earlier operations;
/// it uses no constants.
pub proof fn lemma_vp_ops_wf(n: nat)
    requires
        n < usize::MAX / 2,
    ensures
        ops_wf(vp_ops(n), n as int + 2, 0),
{
    let ops = vp_ops(n);
    lemma_vp_chain_ops_len(n);
    assert forall|k: int| 0 <= k < ops.len() implies op_wf(#[trigger] ops[k], k, n as int + 2, 0) by {
        if k == 0 {
            lemma_vp_chain_zero(n);
        } else if k <= 2 * n {
            let i = ((k + 1) / 2) as nat;
            lemma_vp_chain_index(i, n);
            if k % 2 == 1 {
                assert(k == 2 * i - 1);
            } else {
                assert(k == 2 * i);
            }
        } else {
            assert(ops[k] == CircuitOp::SubExt(
                vp_last_operand(n),
                Operand::Wire((n + 1) as usize),
            ));
        }
    }
}

/// On a row embedded from the base field, the extension evaluator computes
/// the embedding of what the packed base evaluator computes: the two
/// representations agree wherever both apply.
pub proof fn lemma_vp_eval_base_ext_agree(n: nat, wires: Seq<u64>, j: int)
    requires
        wires.len() == n + 2,
        valid_row(wires),
        0 <= j <= n,
    ensures
        vp_constraint_e(n, embed_row(wires), j) == (vp_constraint(n, wires, j), 0int),
{
    let ws = embed_row(wires);
    assert(ws[0] == embed(wires[0]));
    if j < n {
        lemma_e_pow_embed(wires[0], (j + 1) as nat);
    } else {
        lemma_e_pow_embed(wires[0], n);
    }
}

/// The row the generator fills satisfies every constraint: each
/// power wire carries the matching power of the base wire and the output
/// repeats the final one, so all differences vanish.
pub proof fn lemma_vp_generated_witness_satisfies(n: nat, base: u64)
    requires
        valid_elem(base),
    ensures
        forall|j: int| 0 <= j <= n ==> vp_constraint(n, vp_witness(n, base), j) == 0,
{
    let w = vp_witness(n, base);
    assert forall|k: int| 1 <= k <= n implies w[k] as int == pow_f(base as int, k as nat) by {
        lemma_pow_f_range(base as int, k as nat);
    }
    assert(w[n as int + 1] as int == pow_f(base as int, n)) by {
        lemma_pow_f_range(base as int, n);
    }
    assert forall|j: int| 0 <= j <= n implies vp_constraint(n, w, j) == 0 by {
        if j < n {
            lemma_fsub_self(pow_f(base as int, (j + 1) as nat));
        } else {
            lemma_fsub_self(pow_f(base as int, n));
        }
    }
}

/// Changing any single wire of a row that satisfies every constraint breaks
/// at least one constraint.  For a chain of length zero only the output
/// constraint exists, so there the base wire is exempt.
pub proof fn lemma_vp_perturb_single_wire(n: nat, wires: Seq<u64>, wires2: Seq<u64>, k: int)
    requires
        wires.len() == n + 2,
        wires2.len() == n + 2,
        valid_row(wires),
        valid_row(wires2),
        forall|j: int| 0 <= j <= n ==> vp_constraint(n, wires, j) == 0,
        0 <= k <= n + 1,
        wires2[k] != wires[k],
        forall|j: int| 0 <= j <= n + 1 && j != k ==> wires2[j] == wires[j],
        n >= 1 || k >= 1,
    ensures
        exists|j: int| 0 <= j <= n && vp_constraint(n, wires2, j) != 0,
{
    if k == 0 {
        assert(vp_constraint(n, wires, 0) == 0);
        assert(wires2[1] == wires[1]);
        lemma_elem_mod_noop(wires[0]);
        lemma_elem_mod_noop(wires2[0]);
        assert(pow_f(wires[0] as int, 0) == 1);
        assert(pow_f(wires2[0] as int, 0) == 1);
        assert(pow_f(wires[0] as int, 1) == fmul(1, wires[0] as int));
        assert(fmul(1, wires[0] as int) == wires[0] as int);
        assert(pow_f(wires2[0] as int, 1) == fmul(1, wires2[0] as int));
        assert(pow_f(wires2[0] as int, 1) == wires2[0] as int);
        lemma_fsub_right_injective(wires[1] as int, wires2[0] as int, wires[0] as int);
        assert(vp_constraint(n, wires2, 0) != 0);
    } else if k <= n {
        assert(vp_constraint(n, wires, k - 1) == 0);
        assert(wires2[0] == wires[0]);
        lemma_fsub_left_injective(
            wires2[k] as int,
            wires[k] as int,
            pow_f(wires[0] as int, k as nat),
        );
        assert(vp_constraint(n, wires2, k - 1) != 0);
    } else {
        assert(vp_constraint(n, wires, n as int) == 0);
        assert(wires2[0] == wires[0]);
        lemma_fsub_right_injective(
            pow_f(wires[0] as int, n),
            wires2[n as int + 1] as int,
            wires[n as int + 1] as int,
        );
        assert(vp_constraint(n, wires2, n as int) != 0);
    }
}

/// Serializing a gate and reading it back, whatever lies around the bytes,
/// yields the same instance.
pub proof fn lemma_vp_gate_round_trip(g: SimpleExpTestGate, prefix: Seq<u8>, suffix: Seq<u8>)
    ensures
        SimpleExpTestGate::parse_gate(prefix + g.spec_bytes() + suffix, prefix.len() as int)
            == Some((g, prefix.len() as int + 8)),
{
    lemma_parse_u64_of_write(prefix, g.num_limbs as u64, suffix);
}

/// Serializing a generator and reading it back, whatever lies around the
/// bytes, yields the same row and gate.
pub proof fn lemma_vp_generator_round_trip(
    g: SimpleExpTestGenerator,
    prefix: Seq<u8>,
    suffix: Seq<u8>,
)
    ensures
        SimpleExpTestGenerator::parse_generator(
            prefix + g.spec_bytes() + suffix,
            prefix.len() as int,
        ) == Some((g, prefix.len() as int + 16)),
{
    let s = prefix + g.spec_bytes() + suffix;
    let p0 = prefix.len() as int;
    assert(s =~= prefix + u64_le_bytes(g.row as u64) + (g.gate.spec_bytes() + suffix));
    lemma_parse_u64_of_write(prefix, g.row as u64, g.gate.spec_bytes() + suffix);
    assert(parse_u64(s, p0) == Some((g.row as u64, p0 + 8)));
    assert(s =~= (prefix + u64_le_bytes(g.row as u64)) + u64_le_bytes(g.gate.num_limbs as u64)
        + suffix);
    lemma_parse_u64_of_write(prefix + u64_le_bytes(g.row as u64), g.gate.num_limbs as u64, suffix);
    assert(parse_u64(s, p0 + 8) == Some((g.gate.num_limbs as u64, p0 + 16)));
}

} // verus!

verus! {

/// The folded power of the base wire as a polynomial expression: `i`
/// multiplications of the unknown base.
pub open spec fn vp_pow_expr(i: nat) -> Expr
    decreases i,
{
    if i == 0 {
        Expr::One
    } else {
        Expr::Mul(Box::new(vp_pow_expr((i - 1) as nat)), Box::new(Expr::Wire(0)))
    }
}

/// Constraint `j` as a polynomial expression.
pub open spec fn vp_expr(n: nat, j: int) -> Expr
    recommends
        0 <= j <= n,
{
    if j < n {
        Expr::Sub(Box::new(Expr::Wire((j + 1) as usize)), Box::new(vp_pow_expr((j + 1) as nat)))
    } else {
        Expr::Sub(Box::new(vp_pow_expr(n)), Box::new(Expr::Wire((n + 1) as usize)))
    }
}

/// The folded power expression evaluates to the power of the base wire.
pub proof fn lemma_vp_pow_expr_eval(i: nat, wires: Seq<u64>, consts: Seq<u64>)
    ensures
        eval_expr(vp_pow_expr(i), wires, consts) == pow_f(wires[0] as int, i),
    decreases i,
{
    assert(eval_expr(Expr::Wire(0), wires, consts) == wires[0] as int);
    if i == 0 {
        assert(eval_expr(Expr::One, wires, consts) == 1);
    } else {
        lemma_vp_pow_expr_eval((i - 1) as nat, wires, consts);
        assert(vp_pow_expr(i) == Expr::Mul(
            Box::new(vp_pow_expr((i - 1) as nat)),
            Box::new(Expr::Wire(0)),
        ));
        assert(eval_expr(vp_pow_expr(i), wires, consts) == fmul(
            eval_expr(vp_pow_expr((i - 1) as nat), wires, consts),
            wires[0] as int,
        ));
    }
}

/// The folded power expression has degree exactly `i`.
pub proof fn lemma_vp_pow_expr_degree(i: nat)
    ensures
        expr_degree(vp_pow_expr(i)) == i,
    decreases i,
{
    if i > 0 {
        lemma_vp_pow_expr_degree((i - 1) as nat);
        assert(vp_pow_expr(i) == Expr::Mul(
            Box::new(vp_pow_expr((i - 1) as nat)),
            Box::new(Expr::Wire(0)),
        ));
        assert(expr_degree(Expr::Wire(0)) == 1);
        assert(expr_degree(vp_pow_expr(i)) == expr_degree(vp_pow_expr((i - 1) as nat)) + 1);
    }
}

/// The constraint expressions evaluate to exactly what the packed base
/// evaluator computes, so the degree accounting below speaks of the real
/// constraints.
pub proof fn lemma_vp_expr_eval(n: nat, wires: Seq<u64>, consts: Seq<u64>, j: int)
    requires
        n < usize::MAX / 2,
        wires.len() == n + 2,
        0 <= j <= n,
    ensures
        eval_expr(vp_expr(n, j), wires, consts) == vp_constraint(n, wires, j),
{
    if j < n {
        lemma_vp_pow_expr_eval((j + 1) as nat, wires, consts);
        assert(eval_expr(Expr::Wire((j + 1) as usize), wires, consts) == wires[j + 1] as int);
        assert(vp_expr(n, j) == Expr::Sub(
            Box::new(Expr::Wire((j + 1) as usize)),
            Box::new(vp_pow_expr((j + 1) as nat)),
        ));
        assert(eval_expr(vp_expr(n, j), wires, consts) == fsub(
            wires[j + 1] as int,
            pow_f(wires[0] as int, (j + 1) as nat),
        ));
    } else {
        lemma_vp_pow_expr_eval(n, wires, consts);
        assert(eval_expr(Expr::Wire((n + 1) as usize), wires, consts) == wires[n as int
            + 1] as int);
        assert(vp_expr(n, j) == Expr::Sub(
            Box::new(vp_pow_expr(n)),
            Box::new(Expr::Wire((n + 1) as usize)),
        ));
        assert(eval_expr(vp_expr(n, j), wires, consts) == fsub(
            pow_f(wires[0] as int, n),
            wires[n as int + 1] as int,
        ));
    }
}

/// The declared degree is a true upper bound for every chain of at least
/// one step: the deepest constraint folds the unknown base `n` times.  A
/// chain of length zero still carries its output constraint of degree one,
/// so there the declared degree of zero would understate it.
pub proof fn lemma_vp_degree_bound(n: nat, j: int)
    requires
        n >= 1,
        0 <= j <= n,
    ensures
        expr_degree(vp_expr(n, j)) <= n,
{
    if j < n {
        lemma_vp_pow_expr_degree((j + 1) as nat);
        assert(vp_expr(n, j) == Expr::Sub(
            Box::new(Expr::Wire((j + 1) as usize)),
            Box::new(vp_pow_expr((j + 1) as nat)),
        ));
        assert(expr_degree(Expr::Wire((j + 1) as usize)) == 1);
        assert(expr_degree(vp_expr(n, j)) <= n);
    } else {
        lemma_vp_pow_expr_degree(n);
        assert(vp_expr(n, j) == Expr::Sub(
            Box::new(vp_pow_expr(n)),
            Box::new(Expr::Wire((n + 1) as usize)),
        ));
        assert(expr_degree(Expr::Wire((n + 1) as usize)) == 1);
        assert(expr_degree(vp_expr(n, j)) <= n);
    }
}

} // verus!
