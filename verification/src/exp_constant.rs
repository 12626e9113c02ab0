//! A gate proving a chain of successive powers of a constant base.
//!
//! The base is a per-row constant; the instance parameter is the chain
//! length.  Wires `0..n-1` hold the successive powers, wire `n` the output.
//! Each step is unrolled onto its own wire, so every constraint multiplies
//! one wire by the base constant and the degree stays at two however long
//! the chain grows.

use vstd::prelude::*;

use crate::bytes::parse_u64;
use crate::bytes::u64_le_bytes;
use crate::bytes::write_u64_le;
use crate::bytes::read_u64_le;
use crate::bytes::lemma_parse_u64_of_write;
use crate::circuit::node_val;
use crate::circuit::operand_val;
use crate::circuit::op_wf;
use crate::circuit::ops_wf;
use crate::circuit::CircuitOp;
use crate::circuit::GateCircuit;
use crate::circuit::Operand;
use crate::config::CircuitConfig;
use crate::expr::eval_expr;
use crate::expr::expr_degree;
use crate::expr::Expr;
use crate::ext::e_mul;
use crate::ext::e_one;
use crate::ext::e_sub;
use crate::ext::embed;
use crate::ext::embed_row;
use crate::ext::ext_mul;
use crate::ext::ext_sub;
use crate::ext::lemma_e_mul_embed;
use crate::ext::lemma_pow_f_range;
use crate::ext::svals;
use crate::ext::valid_ext_row;
use crate::ext::ExtElem;
use crate::field::fmul;
use crate::field::fsub;
use crate::field::f_mul;
use crate::field::f_sub;
use crate::field::lemma_elem_mod_noop;
use crate::field::lemma_fsub_left_injective;
use crate::field::lemma_fsub_right_injective;
use crate::field::lemma_fsub_self;
use crate::field::pow_f;
use crate::field::valid_elem;
use crate::field::valid_row;
use crate::wire::WireId;

verus! {

/// Capacity of a configuration: three wires are reserved for the implicit
/// zeroth power, the base and the output.
pub open spec fn max_power_spec(config: CircuitConfig) -> int {
    vstd::math::min(
        config.num_routed_wires as int - 3,
        (config.num_wires as int - 3) / 2,
    )
}

/// The value multiplied by the base at step `i` of the chain (1-based): the
/// wire holding the previous power, or one for the first step.
pub open spec fn cc_prev(wires: Seq<u64>, i: int) -> int {
    if i <= 1 {
        1
    } else {
        wires[i - 2] as int
    }
}

/// The power recomputed at step `i`: the previous power wire times the base.
pub open spec fn cc_step(wires: Seq<u64>, cbase: u64, i: int) -> int {
    fmul(cc_prev(wires, i), cbase as int)
}

/// The value of constraint `j` of a chain of length `n` on a row: for
/// `j < n` the power wire minus the recomputed power, and as the last
/// constraint the recomputed final power minus the output wire.
pub open spec fn cc_constraint(n: nat, wires: Seq<u64>, cbase: u64, j: int) -> int
    recommends
        wires.len() == n + 1,
        0 <= j <= n,
{
    if j < n {
        fsub(wires[j] as int, cc_step(wires, cbase, j + 1))
    } else if n == 0 {
        fsub(1, wires[0] as int)
    } else {
        fsub(cc_step(wires, cbase, n as int), wires[n as int] as int)
    }
}

/// `cc_prev` over the extension field.
pub open spec fn cc_prev_e(ws: Seq<(int, int)>, i: int) -> (int, int) {
    if i <= 1 {
        e_one()
    } else {
        ws[i - 2]
    }
}

/// `cc_step` over the extension field.
pub open spec fn cc_step_e(ws: Seq<(int, int)>, cb: (int, int), i: int) -> (int, int) {
    e_mul(cc_prev_e(ws, i), cb)
}

/// `cc_constraint` over the extension field.
pub open spec fn cc_constraint_e(n: nat, ws: Seq<(int, int)>, cb: (int, int), j: int) -> (
    int,
    int,
)
    recommends
        ws.len() == n + 1,
        0 <= j <= n,
{
    if j < n {
        e_sub(ws[j], cc_step_e(ws, cb, j + 1))
    } else if n == 0 {
        e_sub(e_one(), ws[0])
    } else {
        e_sub(cc_step_e(ws, cb, n as int), ws[n as int])
    }
}

/// The row the generator fills: wire `j` holds the `j+1`-st power of the
/// base for `j < n`, and the output wire repeats the final power.
pub open spec fn cc_witness(n: nat, base: u64) -> Seq<u64> {
    Seq::new(
        (n + 1) as nat,
        |j: int|
            if j < n {
                pow_f(base as int, (j + 1) as nat) as u64
            } else {
                pow_f(base as int, n) as u64
            },
    )
}

/// A gate proving `power_i = base^i` for `i = 1..n` and `output = base^n`,
/// with the base supplied as a per-row constant.
#[derive(Clone, Copy, Debug, Default, PartialEq, Eq, Structural)]
pub struct SimpleExpConstantGate {
    pub num_limbs: usize,
}

impl SimpleExpConstantGate {
    /// The chain length leaves room for the row bookkeeping.
    pub open spec fn wf(self) -> bool {
        self.num_limbs < usize::MAX / 2
    }

    /// Bytes of the immutable parameters: the chain length as a
    /// little-endian word.
    pub open spec fn spec_bytes(self) -> Seq<u8> {
        u64_le_bytes(self.num_limbs as u64)
    }

    /// The instance read back from `s` at `pos`.
    pub open spec fn parse_gate(s: Seq<u8>, pos: int) -> Option<(SimpleExpConstantGate, int)> {
        match parse_u64(s, pos) {
            Some((v, p)) => if v <= usize::MAX as u64 {
                Some((SimpleExpConstantGate { num_limbs: v as usize }, p))
            } else {
                None
            },
            None => None,
        }
    }

    /// The largest chain length an instance may have under `config`.
    pub fn max_power(config: &CircuitConfig) -> (r: usize)
        requires
            config.wf(),
        ensures
            r == max_power_spec(*config),
    {
        let max_for_routed_wires = config.num_routed_wires - 3;
        let max_for_wires = (config.num_wires - 3) / 2;
        if max_for_routed_wires < max_for_wires {
            max_for_routed_wires
        } else {
            max_for_wires
        }
    }

    /// A gate for a chain of `power` steps; the capacity of `config` must
    /// not be exceeded.
    pub fn new(power: usize, config: &CircuitConfig) -> (g: Self)
        requires
            config.wf(),
            (power as int) < max_power_spec(*config),
        ensures
            g.num_limbs == power,
            g.wf(),
    {
        Self { num_limbs: power }
    }

    /// The checked constructor: a gate exactly when `power` is within the
    /// capacity of `config`, and nothing otherwise.
    pub fn try_new(power: usize, config: &CircuitConfig) -> (r: Option<Self>)
        requires
            config.wf(),
        ensures
            (power as int) < max_power_spec(*config) ==> r == Some(
                (SimpleExpConstantGate { num_limbs: power }),
            ),
            (power as int) >= max_power_spec(*config) ==> r is None,
    {
        if power < Self::max_power(config) {
            Some(Self { num_limbs: power })
        } else {
            None
        }
    }

    /// The wire holding the `i`-th power of the base, `1 <= i <= n`.
    pub fn wire_power_i(&self, i: usize) -> (r: usize)
        requires
            1 <= i <= self.num_limbs,
        ensures
            r == i - 1,
    {
        i - 1
    }

    /// The wire holding the output.
    pub fn wire_output(&self) -> (r: usize)
        ensures
            r == self.num_limbs,
    {
        self.num_limbs
    }

    /// Wires used: one per power and one for the output.
    pub fn num_wires(&self) -> (r: usize)
        requires
            self.wf(),
        ensures
            r == self.num_limbs + 1,
    {
        self.num_limbs + 1
    }

    /// One per-row constant: the base.
    pub fn num_constants(&self) -> (r: usize)
        ensures
            r == 1,
    {
        1
    }

    /// Every constraint multiplies one wire by the base constant, so the
    /// degree is two regardless of the chain length.
    pub fn degree(&self) -> (r: usize)
        ensures
            r == 2,
    {
        2
    }

    /// One constraint per chain step and one for the output.
    pub fn num_constraints(&self) -> (r: usize)
        requires
            self.wf(),
        ensures
            r == self.num_limbs + 1,
    {
        self.num_limbs + 1
    }

    /// Appends the encoding of the immutable parameters.
    pub fn serialize(&self, dst: &mut Vec<u8>)
        ensures
            final(dst)@ == old(dst)@ + self.spec_bytes(),
    {
        write_u64_le(dst, self.num_limbs as u64);
    }

    /// Reads a gate back from `bytes` at `pos`.
    pub fn deserialize(bytes: &Vec<u8>, pos: usize) -> (r: Option<(Self, usize)>)
        ensures
            match r {
                Some((g, p)) => Self::parse_gate(bytes@, pos as int) == Some((g, p as int)),
                None => Self::parse_gate(bytes@, pos as int) is None,
            },
    {
        match read_u64_le(bytes, pos) {
            Some((v, p)) => if v <= usize::MAX as u64 {
                Some((Self { num_limbs: v as usize }, p))
            } else {
                None
            },
            None => None,
        }
    }

    /// Evaluates all constraints over base-field values, as batched proving
    /// does row by row.
    pub fn eval_unfiltered_base_packed(&self, wires: &Vec<u64>, constants: &Vec<u64>) -> (r: Vec<
        u64,
    >)
        requires
            self.wf(),
            wires@.len() == self.num_limbs + 1,
            constants@.len() >= 1,
            valid_row(wires@),
            valid_row(constants@),
        ensures
            r@.len() == self.num_limbs + 1,
            valid_row(r@),
            forall|j: int|
                0 <= j < r@.len() ==> (#[trigger] r@[j]) as int == cc_constraint(
                    self.num_limbs as nat,
                    wires@,
                    constants@[0],
                    j,
                ),
    {
        let ghost n = self.num_limbs as nat;
        let v_base = constants[0];
        let mut constraints: Vec<u64> = Vec::new();
        let mut computed: u64 = 1;
        let mut pre: u64 = 1;
        let mut i: usize = 1;
        while i <= self.num_limbs
            invariant
                self.wf(),
                n == self.num_limbs as nat,
                1 <= i <= self.num_limbs + 1,
                wires@.len() == n + 1,
                valid_row(wires@),
                valid_elem(v_base),
                v_base == constants@[0],
                constraints@.len() == i - 1,
                valid_row(constraints@),
                valid_elem(computed),
                valid_elem(pre),
                pre as int == cc_prev(wires@, i as int),
                i > 1 ==> computed as int == cc_step(wires@, v_base, i as int - 1),
                i == 1 ==> computed == 1,
                forall|j: int|
                    0 <= j < i - 1 ==> (#[trigger] constraints@[j]) as int == cc_constraint(
                        n,
                        wires@,
                        v_base,
                        j,
                    ),
            decreases self.num_limbs + 1 - i,
        {
            computed = f_mul(pre, v_base);
            let power_i_wire = wires[i - 1];
            constraints.push(f_sub(power_i_wire, computed));
            pre = power_i_wire;
            i = i + 1;
        }
        let output = wires[self.num_limbs];
        constraints.push(f_sub(computed, output));
        proof {
            if n == 0 {
                lemma_elem_mod_noop(1);
            }
        }
        constraints
    }

    /// Evaluates the same constraints row by row over a batch.
    pub fn eval_unfiltered_base_batch(&self, rows: &Vec<Vec<u64>>, constants: &Vec<Vec<u64>>) -> (r:
        Vec<Vec<u64>>)
        requires
            self.wf(),
            rows@.len() == constants@.len(),
            forall|b: int|
                0 <= b < rows@.len() ==> (#[trigger] rows@[b])@.len() == self.num_limbs + 1
                    && valid_row(rows@[b]@),
            forall|b: int|
                0 <= b < constants@.len() ==> (#[trigger] constants@[b])@.len() >= 1 && valid_row(
                    constants@[b]@,
                ),
        ensures
            r@.len() == rows@.len(),
            forall|b: int, j: int|
                0 <= b < r@.len() && 0 <= j < self.num_limbs + 1 ==> (#[trigger] r@[b]@[j]) as int
                    == cc_constraint(self.num_limbs as nat, rows@[b]@, constants@[b]@[0], j),
            forall|b: int| 0 <= b < r@.len() ==> (#[trigger] r@[b])@.len() == self.num_limbs + 1,
    {
        let mut out: Vec<Vec<u64>> = Vec::new();
        let mut b: usize = 0;
        while b < rows.len()
            invariant
                self.wf(),
                rows@.len() == constants@.len(),
                b <= rows@.len(),
                out@.len() == b,
                forall|c: int|
                    0 <= c < rows@.len() ==> (#[trigger] rows@[c])@.len() == self.num_limbs + 1
                        && valid_row(rows@[c]@),
                forall|c: int|
                    0 <= c < constants@.len() ==> (#[trigger] constants@[c])@.len() >= 1
                        && valid_row(constants@[c]@),
                forall|c: int, j: int|
                    0 <= c < out@.len() && 0 <= j < self.num_limbs + 1 ==> (
                    #[trigger] out@[c]@[j]) as int == cc_constraint(
                        self.num_limbs as nat,
                        rows@[c]@,
                        constants@[c]@[0],
                        j,
                    ),
                forall|c: int|
                    0 <= c < out@.len() ==> (#[trigger] out@[c])@.len() == self.num_limbs + 1,
            decreases rows@.len() - b,
        {
            let row_constraints = self.eval_unfiltered_base_packed(&rows[b], &constants[b]);
            out.push(row_constraints);
            b = b + 1;
        }
        out
    }

    /// Evaluates all constraints over the extension field, as recursive
    /// verification does.
    pub fn eval_unfiltered(&self, wires: &Vec<ExtElem>, constants: &Vec<ExtElem>) -> (r: Vec<
        ExtElem,
    >)
        requires
            self.wf(),
            wires@.len() == self.num_limbs + 1,
            constants@.len() >= 1,
            valid_ext_row(wires@),
            valid_ext_row(constants@),
        ensures
            r@.len() == self.num_limbs + 1,
            valid_ext_row(r@),
            forall|j: int|
                0 <= j < r@.len() ==> (#[trigger] r@[j]).sval() == cc_constraint_e(
                    self.num_limbs as nat,
                    svals(wires@),
                    constants@[0].sval(),
                    j,
                ),
    {
        let ghost n = self.num_limbs as nat;
        let ghost ws = svals(wires@);
        let v_base = constants[0];
        let mut constraints: Vec<ExtElem> = Vec::new();
        let mut computed: ExtElem = ExtElem::one();
        let mut pre: ExtElem = ExtElem::one();
        let mut i: usize = 1;
        while i <= self.num_limbs
            invariant
                self.wf(),
                n == self.num_limbs as nat,
                ws == svals(wires@),
                1 <= i <= self.num_limbs + 1,
                wires@.len() == n + 1,
                valid_ext_row(wires@),
                v_base.valid(),
                v_base == constants@[0],
                constraints@.len() == i - 1,
                valid_ext_row(constraints@),
                computed.valid(),
                pre.valid(),
                pre.sval() == cc_prev_e(ws, i as int),
                i > 1 ==> computed.sval() == cc_step_e(ws, v_base.sval(), i as int - 1),
                i == 1 ==> computed.sval() == e_one(),
                forall|j: int|
                    0 <= j < i - 1 ==> (#[trigger] constraints@[j]).sval() == cc_constraint_e(
                        n,
                        ws,
                        v_base.sval(),
                        j,
                    ),
            decreases self.num_limbs + 1 - i,
        {
            computed = ext_mul(pre, v_base);
            let power_i_wire = wires[i - 1];
            constraints.push(ext_sub(power_i_wire, computed));
            pre = power_i_wire;
            i = i + 1;
        }
        let output = wires[self.num_limbs];
        constraints.push(ext_sub(computed, output));
        constraints
    }

    /// Describes the same constraints as sub-operations for a circuit
    /// builder: the chain of products and differences, then the output
    /// difference.
    pub fn eval_unfiltered_circuit(&self) -> (gc: GateCircuit)
        requires
            self.wf(),
        ensures
            gc.ops@ == cc_ops(self.num_limbs as nat),
            gc.constraints@ == cc_constraint_nodes(self.num_limbs as nat),
    {
        let n = self.num_limbs;
        let mut ops: Vec<CircuitOp> = Vec::new();
        let mut constraint_nodes: Vec<usize> = Vec::new();
        ops.push(CircuitOp::ConstOne);
        proof {
            assert(ops@ =~= cc_chain_ops(0));
        }
        let mut i: usize = 1;
        while i <= n
            invariant
                self.wf(),
                n == self.num_limbs,
                1 <= i <= n + 1,
                ops@ == cc_chain_ops((i - 1) as nat),
                ops@.len() == 2 * (i - 1) + 1,
                constraint_nodes@.len() == i - 1,
                forall|j: int|
                    0 <= j < i - 1 ==> (#[trigger] constraint_nodes@[j]) == (2 * j + 2) as usize,
            decreases n + 1 - i,
        {
            proof {
                lemma_cc_chain_ops_len(i as nat);
            }
            let prev = if i == 1 {
                Operand::Node(0)
            } else {
                Operand::Wire(i - 2)
            };
            ops.push(CircuitOp::MulExt(prev, Operand::Constant(0)));
            ops.push(CircuitOp::SubExt(Operand::Wire(i - 1), Operand::Node(2 * i - 1)));
            constraint_nodes.push(2 * i);
            proof {
                assert(ops@ =~= cc_chain_ops(i as nat));
            }
            i = i + 1;
        }
        let last = if n == 0 {
            Operand::Node(0)
        } else {
            Operand::Node(2 * n - 1)
        };
        ops.push(CircuitOp::SubExt(last, Operand::Wire(n)));
        constraint_nodes.push(2 * n + 1);
        proof {
            assert(ops@ =~= cc_ops(n as nat));
            assert(constraint_nodes@ =~= cc_constraint_nodes(n as nat));
        }
        GateCircuit { ops, constraints: constraint_nodes }
    }

    /// One generator per row; it owns every wire of the row.
    pub fn generators(&self, row: usize, local_constants: &Vec<u64>) -> (r: Vec<
        SimpleExpConstantGenerator,
    >)
        requires
            local_constants@.len() >= 1,
        ensures
            r@.len() == 1,
            r@[0] == (SimpleExpConstantGenerator {
                row,
                gate: *self,
                const_base: local_constants@[0],
            }),
    {
        let gen = SimpleExpConstantGenerator { row, gate: *self, const_base: local_constants[0] };
        let mut v: Vec<SimpleExpConstantGenerator> = Vec::new();
        v.push(gen);
        v
    }
}

/// The witness generator of one row of the constant-base power gate.
#[derive(Clone, Copy, Debug, Default, PartialEq, Eq, Structural)]
pub struct SimpleExpConstantGenerator {
    pub row: usize,
    pub gate: SimpleExpConstantGate,
    pub const_base: u64,
}

impl SimpleExpConstantGenerator {
    /// Bytes of the generator: its row, its gate and the base constant.
    pub open spec fn spec_bytes(self) -> Seq<u8> {
        u64_le_bytes(self.row as u64) + self.gate.spec_bytes() + u64_le_bytes(self.const_base)
    }

    /// The generator read back from `s` at `pos`.
    pub open spec fn parse_generator(s: Seq<u8>, pos: int) -> Option<(
        SimpleExpConstantGenerator,
        int,
    )> {
        match parse_u64(s, pos) {
            Some((row_v, p1)) => if row_v <= usize::MAX as u64 {
                match SimpleExpConstantGate::parse_gate(s, p1) {
                    Some((gate, p2)) => match parse_u64(s, p2) {
                        Some((cb, p3)) => Some(
                            (SimpleExpConstantGenerator {
                                row: row_v as usize,
                                gate,
                                const_base: cb,
                            }, p3),
                        ),
                        None => None,
                    },
                    None => None,
                }
            } else {
                None
            },
            None => None,
        }
    }

    /// The base is a row constant and the chain is carried forward locally,
    /// so the generator reads no wires.
    pub fn dependencies(&self) -> (r: Vec<WireId>)
        ensures
            r@.len() == 0,
    {
        Vec::new()
    }

    /// Computes the power chain and returns every wire it writes: wire `j`
    /// of its row gets the `j+1`-st power, the output wire the final power.
    pub fn run_once(&self) -> (r: Vec<(WireId, u64)>)
        requires
            self.gate.wf(),
            valid_elem(self.const_base),
        ensures
            r@.len() == self.gate.num_limbs + 1,
            forall|j: int|
                0 <= j < r@.len() ==> (#[trigger] r@[j]).0 == (WireId {
                    row: self.row,
                    column: j as usize,
                }),
            forall|j: int|
                0 <= j < r@.len() ==> (#[trigger] r@[j]).1 == cc_witness(
                    self.gate.num_limbs as nat,
                    self.const_base,
                )[j],
            forall|j: int| 0 <= j < r@.len() ==> valid_elem((#[trigger] r@[j]).1),
    {
        let ghost n = self.gate.num_limbs as nat;
        let base = self.const_base;
        let mut out: Vec<(WireId, u64)> = Vec::new();
        let mut computed: u64 = 1;
        let mut i: usize = 1;
        while i <= self.gate.num_limbs
            invariant
                self.gate.wf(),
                n == self.gate.num_limbs as nat,
                base == self.const_base,
                valid_elem(base),
                1 <= i <= self.gate.num_limbs + 1,
                out@.len() == i - 1,
                valid_elem(computed),
                computed as int == pow_f(base as int, (i - 1) as nat),
                forall|j: int|
                    0 <= j < i - 1 ==> (#[trigger] out@[j]).0 == (WireId {
                        row: self.row,
                        column: j as usize,
                    }),
                forall|j: int|
                    0 <= j < i - 1 ==> (#[trigger] out@[j]).1 as int == pow_f(
                        base as int,
                        (j + 1) as nat,
                    ),
            decreases self.gate.num_limbs + 1 - i,
        {
            computed = f_mul(computed, base);
            out.push((WireId::wire(self.row, i - 1), computed));
            i = i + 1;
        }
        out.push((WireId::wire(self.row, self.gate.num_limbs), computed));
        proof {
            assert forall|j: int| 0 <= j < out@.len() implies (#[trigger] out@[j]).1 == cc_witness(
                n,
                self.const_base,
            )[j] by {
                lemma_pow_f_range(base as int, (j + 1) as nat);
                lemma_pow_f_range(base as int, n);
            }
        }
        out
    }

    /// Appends the encoding of the generator.
    pub fn serialize(&self, dst: &mut Vec<u8>)
        ensures
            final(dst)@ == old(dst)@ + self.spec_bytes(),
    {
        write_u64_le(dst, self.row as u64);
        self.gate.serialize(dst);
        write_u64_le(dst, self.const_base);
        proof {
            assert(dst@ =~= old(dst)@ + self.spec_bytes());
        }
    }

    /// Reads a generator back from `bytes` at `pos`.
    pub fn deserialize(bytes: &Vec<u8>, pos: usize) -> (r: Option<(Self, usize)>)
        ensures
            match r {
                Some((g, p)) => Self::parse_generator(bytes@, pos as int) == Some((g, p as int)),
                None => Self::parse_generator(bytes@, pos as int) is None,
            },
    {
        let (row_v, p1) = match read_u64_le(bytes, pos) {
            Some(x) => x,
            None => {
                return None;
            },
        };
        if row_v > usize::MAX as u64 {
            return None;
        }
        let (gate, p2) = match SimpleExpConstantGate::deserialize(bytes, p1) {
            Some(x) => x,
            None => {
                return None;
            },
        };
        let (cb, p3) = match read_u64_le(bytes, p2) {
            Some(x) => x,
            None => {
                return None;
            },
        };
        Some((Self { row: row_v as usize, gate, const_base: cb }, p3))
    }
}

/// The operand feeding the product of step `i`: the previous power wire, or
/// the emitted one for the first step.
pub open spec fn cc_prev_operand(i: int) -> Operand {
    if i <= 1 {
        Operand::Node(0)
    } else {
        Operand::Wire((i - 2) as usize)
    }
}

/// The circuit operations of the first `i` chain steps, after the emitted
/// constant one.
pub open spec fn cc_chain_ops(i: nat) -> Seq<CircuitOp>
    decreases i,
{
    if i == 0 {
        seq![CircuitOp::ConstOne]
    } else {
        cc_chain_ops((i - 1) as nat) + seq![
            CircuitOp::MulExt(cc_prev_operand(i as int), Operand::Constant(0)),
            CircuitOp::SubExt(
                Operand::Wire((i - 1) as usize),
                Operand::Node((2 * i - 1) as usize),
            ),
        ]
    }
}

/// The full circuit form: the chain and the output difference.
pub open spec fn cc_ops(n: nat) -> Seq<CircuitOp> {
    cc_chain_ops(n) + seq![
        CircuitOp::SubExt(cc_last_operand(n), Operand::Wire(n as usize)),
    ]
}

/// The operand holding the recomputed final power.
pub open spec fn cc_last_operand(n: nat) -> Operand {
    if n == 0 {
        Operand::Node(0)
    } else {
        Operand::Node((2 * n - 1) as usize)
    }
}

/// The node computing constraint `j`.
pub open spec fn cc_constraint_nodes(n: nat) -> Seq<usize> {
    Seq::new(
        (n + 1) as nat,
        |j: int|
            if j < n {
                (2 * j + 2) as usize
            } else {
                (2 * n + 1) as usize
            },
    )
}


/// Operations `2 i - 1` and `2 i` of the chain are the product and the
/// difference of step `i`.
pub proof fn lemma_cc_chain_index(i: nat, m: nat)
    requires
        1 <= i <= m,
    ensures
        cc_chain_ops(m).len() == 2 * m + 1,
        cc_chain_ops(m)[2 * i - 1] == CircuitOp::MulExt(
            cc_prev_operand(i as int),
            Operand::Constant(0),
        ),
        cc_chain_ops(m)[2 * i as int] == CircuitOp::SubExt(
            Operand::Wire((i - 1) as usize),
            Operand::Node((2 * i - 1) as usize),
        ),
    decreases m,
{
    lemma_cc_chain_ops_len(m);
    lemma_cc_chain_ops_len((m - 1) as nat);
    if i < m {
        lemma_cc_chain_index(i, (m - 1) as nat);
    }
}

/// The first operation of the chain is the constant one.
pub proof fn lemma_cc_chain_zero(m: nat)
    ensures
        cc_chain_ops(m)[0] == CircuitOp::ConstOne,
    decreases m,
{
    if m > 0 {
        lemma_cc_chain_zero((m - 1) as nat);
        lemma_cc_chain_ops_len((m - 1) as nat);
    }
}

/// The product node of step `i` computes the recomputed power and the
/// difference node computes constraint `i - 1`.
pub proof fn lemma_cc_node_vals(n: nat, ws: Seq<(int, int)>, cs: Seq<(int, int)>, i: nat)
    requires
        n < usize::MAX / 2,
        1 <= i <= n,
        cs.len() >= 1,
    ensures
        node_val(cc_ops(n), ws, cs, 2 * i - 1) == cc_step_e(ws, cs[0], i as int),
        node_val(cc_ops(n), ws, cs, 2 * i as int) == cc_constraint_e(n, ws, cs[0], i as int - 1),
{
    let ops = cc_ops(n);
    lemma_cc_chain_ops_len(n);
    lemma_cc_chain_index(i, n);
    lemma_cc_chain_zero(n);
    assert(ops[2 * i - 1] == CircuitOp::MulExt(cc_prev_operand(i as int), Operand::Constant(0)));
    assert(ops[2 * i as int] == CircuitOp::SubExt(
        Operand::Wire((i - 1) as usize),
        Operand::Node((2 * i - 1) as usize),
    ));
    assert(ops[0] == CircuitOp::ConstOne);
    assert(node_val(ops, ws, cs, 0) == e_one());
    assert(operand_val(ops, ws, cs, cc_prev_operand(i as int), 2 * i - 1) == cc_prev_e(
        ws,
        i as int,
    ));
    assert(operand_val(ops, ws, cs, Operand::Constant(0), 2 * i - 1) == cs[0]);
    assert(node_val(ops, ws, cs, 2 * i - 1) == e_mul(cc_prev_e(ws, i as int), cs[0]));
    assert(operand_val(ops, ws, cs, Operand::Node((2 * i - 1) as usize), 2 * i as int)
        == node_val(ops, ws, cs, 2 * i - 1));
    assert(operand_val(ops, ws, cs, Operand::Wire((i - 1) as usize), 2 * i as int) == ws[i - 1]);
    assert(node_val(ops, ws, cs, 2 * i as int) == e_sub(ws[i - 1], cc_step_e(ws, cs[0], i as int)));
}

/// Every constraint node of the circuit form evaluates to exactly the
/// constraint the direct extension evaluator computes: the circuit-recursive
/// representation agrees with the other two on every assignment.
pub proof fn lemma_cc_circuit_matches_eval(n: nat, ws: Seq<(int, int)>, cs: Seq<(int, int)>, j: int)
    requires
        n < usize::MAX / 2,
        0 <= j <= n,
        cs.len() >= 1,
    ensures
        node_val(cc_ops(n), ws, cs, cc_constraint_nodes(n)[j] as int) == cc_constraint_e(
            n,
            ws,
            cs[0],
            j,
        ),
{
    let ops = cc_ops(n);
    lemma_cc_chain_ops_len(n);
    if j < n {
        lemma_cc_node_vals(n, ws, cs, (j + 1) as nat);
    } else {
        assert(ops[2 * n as int + 1] == CircuitOp::SubExt(cc_last_operand(n), Operand::Wire(n as usize)));
        if n == 0 {
            lemma_cc_chain_zero(n);
            assert(node_val(ops, ws, cs, 0) == e_one());
            assert(operand_val(ops, ws, cs, cc_last_operand(n), 2 * n as int + 1) == e_one());
        } else {
            lemma_cc_node_vals(n, ws, cs, n);
            assert(operand_val(ops, ws, cs, cc_last_operand(n), 2 * n as int + 1) == cc_step_e(
                ws,
                cs[0],
                n as int,
            ));
        }
        assert(operand_val(ops, ws, cs, Operand::Wire(n as usize), 2 * n as int + 1) == ws[n as int]);
    }
}

/// The circuit form refers only to the row's wires, its one constant and
/// earlier operations.
pub proof fn lemma_cc_ops_wf(n: nat)
    requires
        n < usize::MAX / 2,
    ensures
        ops_wf(cc_ops(n), n as int + 1, 1),
{
    let ops = cc_ops(n);
    lemma_cc_chain_ops_len(n);
    assert forall|k: int| 0 <= k < ops.len() implies op_wf(#[trigger] ops[k], k, n as int + 1, 1) by {
        if k == 0 {
            lemma_cc_chain_zero(n);
        } else if k <= 2 * n {
            let i = ((k + 1) / 2) as nat;
            lemma_cc_chain_index(i, n);
            if k % 2 == 1 {
                assert(k == 2 * i - 1);
            } else {
                assert(k == 2 * i);
            }
        } else {
            assert(ops[k] == CircuitOp::SubExt(cc_last_operand(n), Operand::Wire(n as usize)));
        }
    }
}

/// On a row embedded from the base field, the extension evaluator computes
/// the embedding of what the packed base evaluator computes: the two
/// representations agree wherever both apply.
pub proof fn lemma_cc_eval_base_ext_agree(n: nat, wires: Seq<u64>, cbase: u64, j: int)
    requires
        wires.len() == n + 1,
        valid_row(wires),
        valid_elem(cbase),
        0 <= j <= n,
    ensures
        cc_constraint_e(n, embed_row(wires), embed(cbase), j) == (
            cc_constraint(n, wires, cbase, j),
            0int,
        ),
{
    let ws = embed_row(wires);
    if j < n {
        assert(cc_prev_e(ws, j + 1) == (cc_prev(wires, j + 1), 0int));
        lemma_e_mul_embed(cc_prev(wires, j + 1), cbase as int);
    } else if n == 0 {
    } else {
        assert(cc_prev_e(ws, n as int) == (cc_prev(wires, n as int), 0int));
        lemma_e_mul_embed(cc_prev(wires, n as int), cbase as int);
    }
}

/// The row the generator fills satisfies every constraint: each
/// power wire carries the next power of the base and the output repeats the
/// final one, so all differences vanish.
pub proof fn lemma_cc_generated_witness_satisfies(n: nat, base: u64)
    requires
        valid_elem(base),
    ensures
        forall|j: int| 0 <= j <= n ==> cc_constraint(n, cc_witness(n, base), base, j) == 0,
{
    let w = cc_witness(n, base);
    assert forall|k: int| 0 <= k < n implies w[k] as int == pow_f(base as int, (k + 1) as nat) by {
        lemma_pow_f_range(base as int, (k + 1) as nat);
    }
    assert(w[n as int] as int == pow_f(base as int, n)) by {
        lemma_pow_f_range(base as int, n);
    }
    assert forall|j: int| 0 <= j <= n implies cc_constraint(n, w, base, j) == 0 by {
        if j < n {
            assert(cc_prev(w, j + 1) == pow_f(base as int, j as nat));
            assert(cc_step(w, base, j + 1) == pow_f(base as int, (j + 1) as nat));
            lemma_fsub_self(pow_f(base as int, (j + 1) as nat));
        } else if n == 0 {
            lemma_fsub_self(1);
        } else {
            assert(cc_prev(w, n as int) == pow_f(base as int, (n - 1) as nat));
            assert(cc_step(w, base, n as int) == pow_f(base as int, n));
            lemma_fsub_self(pow_f(base as int, n));
        }
    }
}

/// Changing any single wire of a row that satisfies every constraint breaks
/// at least one constraint: each wire appears alone on one side of some
/// difference.
pub proof fn lemma_cc_perturb_single_wire(
    n: nat,
    wires: Seq<u64>,
    wires2: Seq<u64>,
    cbase: u64,
    k: int,
)
    requires
        wires.len() == n + 1,
        wires2.len() == n + 1,
        valid_row(wires),
        valid_row(wires2),
        forall|j: int| 0 <= j <= n ==> cc_constraint(n, wires, cbase, j) == 0,
        0 <= k <= n,
        wires2[k] != wires[k],
        forall|j: int| 0 <= j <= n && j != k ==> wires2[j] == wires[j],
    ensures
        exists|j: int| 0 <= j <= n && cc_constraint(n, wires2, cbase, j) != 0,
{
    if k < n {
        assert(cc_constraint(n, wires, cbase, k) == 0);
        assert(cc_prev(wires2, k + 1) == cc_prev(wires, k + 1));
        assert(cc_step(wires2, cbase, k + 1) == cc_step(wires, cbase, k + 1));
        lemma_fsub_left_injective(wires2[k] as int, wires[k] as int, cc_step(wires, cbase, k + 1));
        assert(cc_constraint(n, wires2, cbase, k) != 0);
    } else if n == 0 {
        assert(cc_constraint(n, wires, cbase, 0) == 0);
        lemma_fsub_right_injective(1, wires2[0] as int, wires[0] as int);
        assert(cc_constraint(n, wires2, cbase, n as int) != 0);
    } else {
        assert(cc_constraint(n, wires, cbase, n as int) == 0);
        assert(cc_prev(wires2, n as int) == cc_prev(wires, n as int));
        assert(cc_step(wires2, cbase, n as int) == cc_step(wires, cbase, n as int));
        lemma_fsub_right_injective(
            cc_step(wires, cbase, n as int),
            wires2[n as int] as int,
            wires[n as int] as int,
        );
        assert(cc_constraint(n, wires2, cbase, n as int) != 0);
    }
}

/// Serializing a gate and reading it back, whatever lies around the bytes,
/// yields the same instance.
pub proof fn lemma_cc_gate_round_trip(g: SimpleExpConstantGate, prefix: Seq<u8>, suffix: Seq<u8>)
    ensures
        SimpleExpConstantGate::parse_gate(
            prefix + g.spec_bytes() + suffix,
            prefix.len() as int,
        ) == Some((g, prefix.len() as int + 8)),
{
    lemma_parse_u64_of_write(prefix, g.num_limbs as u64, suffix);
}

/// Serializing a generator and reading it back, whatever lies around the
/// bytes, yields the same row, gate and base constant.
pub proof fn lemma_cc_generator_round_trip(
    g: SimpleExpConstantGenerator,
    prefix: Seq<u8>,
    suffix: Seq<u8>,
)
    ensures
        SimpleExpConstantGenerator::parse_generator(
            prefix + g.spec_bytes() + suffix,
            prefix.len() as int,
        ) == Some((g, prefix.len() as int + 24)),
{
    let s = prefix + g.spec_bytes() + suffix;
    let p0 = prefix.len() as int;
    assert(s =~= prefix + u64_le_bytes(g.row as u64) + (g.gate.spec_bytes() + u64_le_bytes(
        g.const_base,
    ) + suffix));
    lemma_parse_u64_of_write(
        prefix,
        g.row as u64,
        g.gate.spec_bytes() + u64_le_bytes(g.const_base) + suffix,
    );
    assert(parse_u64(s, p0) == Some((g.row as u64, p0 + 8)));
    assert(s =~= (prefix + u64_le_bytes(g.row as u64)) + u64_le_bytes(g.gate.num_limbs as u64) + (
    u64_le_bytes(g.const_base) + suffix));
    lemma_parse_u64_of_write(
        prefix + u64_le_bytes(g.row as u64),
        g.gate.num_limbs as u64,
        u64_le_bytes(g.const_base) + suffix,
    );
    assert(parse_u64(s, p0 + 8) == Some((g.gate.num_limbs as u64, p0 + 16)));
    assert(s =~= (prefix + u64_le_bytes(g.row as u64) + u64_le_bytes(g.gate.num_limbs as u64))
        + u64_le_bytes(g.const_base) + suffix);
    lemma_parse_u64_of_write(
        prefix + u64_le_bytes(g.row as u64) + u64_le_bytes(g.gate.num_limbs as u64),
        g.const_base,
        suffix,
    );
    assert(parse_u64(s, p0 + 16) == Some((g.const_base, p0 + 24)));
}

/// The chain op list of `i` steps has `2 i + 1` operations.
pub proof fn lemma_cc_chain_ops_len(i: nat)
    ensures
        cc_chain_ops(i).len() == 2 * i + 1,
    decreases i,
{
    if i > 0 {
        lemma_cc_chain_ops_len((i - 1) as nat);
    }
}

} // verus!

verus! {

/// The expression multiplied by the base at step `i`.
pub open spec fn cc_prev_expr(i: int) -> Expr {
    if i <= 1 {
        Expr::One
    } else {
        Expr::Wire((i - 2) as usize)
    }
}

/// The expression recomputing the power of step `i`.
pub open spec fn cc_step_expr(i: int) -> Expr {
    Expr::Mul(Box::new(cc_prev_expr(i)), Box::new(Expr::Constant(0)))
}

/// Constraint `j` as a polynomial expression.
pub open spec fn cc_expr(n: nat, j: int) -> Expr
    recommends
        0 <= j <= n,
{
    if j < n {
        Expr::Sub(Box::new(Expr::Wire(j as usize)), Box::new(cc_step_expr(j + 1)))
    } else if n == 0 {
        Expr::Sub(Box::new(Expr::One), Box::new(Expr::Wire(0)))
    } else {
        Expr::Sub(Box::new(cc_step_expr(n as int)), Box::new(Expr::Wire(n as usize)))
    }
}

/// The constraint expressions evaluate to exactly what the packed base
/// evaluator computes, so the degree accounting below speaks of the real
/// constraints.
pub proof fn lemma_cc_expr_eval(n: nat, wires: Seq<u64>, consts: Seq<u64>, j: int)
    requires
        n < usize::MAX / 2,
        wires.len() == n + 1,
        consts.len() >= 1,
        0 <= j <= n,
    ensures
        eval_expr(cc_expr(n, j), wires, consts) == cc_constraint(n, wires, consts[0], j),
{
    assert(eval_expr(Expr::Constant(0), wires, consts) == consts[0] as int);
    if j < n {
        let pe = cc_prev_expr(j + 1);
        assert(eval_expr(pe, wires, consts) == cc_prev(wires, j + 1));
        assert(cc_step_expr(j + 1) == Expr::Mul(Box::new(pe), Box::new(Expr::Constant(0))));
        assert(eval_expr(cc_step_expr(j + 1), wires, consts) == fmul(
            eval_expr(pe, wires, consts),
            eval_expr(Expr::Constant(0), wires, consts),
        ));
        assert(eval_expr(cc_step_expr(j + 1), wires, consts) == cc_step(wires, consts[0], j + 1));
        assert(eval_expr(Expr::Wire(j as usize), wires, consts) == wires[j] as int);
        assert(cc_expr(n, j) == Expr::Sub(
            Box::new(Expr::Wire(j as usize)),
            Box::new(cc_step_expr(j + 1)),
        ));
        assert(eval_expr(cc_expr(n, j), wires, consts) == fsub(
            wires[j] as int,
            cc_step(wires, consts[0], j + 1),
        ));
    } else if n == 0 {
        assert(eval_expr(Expr::Wire(0), wires, consts) == wires[0] as int);
        assert(eval_expr(Expr::One, wires, consts) == 1);
        assert(eval_expr(cc_expr(n, j), wires, consts) == fsub(1, wires[0] as int));
    } else {
        let pe = cc_prev_expr(n as int);
        assert(eval_expr(pe, wires, consts) == cc_prev(wires, n as int));
        assert(cc_step_expr(n as int) == Expr::Mul(Box::new(pe), Box::new(Expr::Constant(0))));
        assert(eval_expr(cc_step_expr(n as int), wires, consts) == fmul(
            eval_expr(pe, wires, consts),
            eval_expr(Expr::Constant(0), wires, consts),
        ));
        assert(eval_expr(cc_step_expr(n as int), wires, consts) == cc_step(
            wires,
            consts[0],
            n as int,
        ));
        assert(eval_expr(Expr::Wire(n as usize), wires, consts) == wires[n as int] as int);
        assert(cc_expr(n, j) == Expr::Sub(
            Box::new(cc_step_expr(n as int)),
            Box::new(Expr::Wire(n as usize)),
        ));
        assert(eval_expr(cc_expr(n, j), wires, consts) == fsub(
            cc_step(wires, consts[0], n as int),
            wires[n as int] as int,
        ));
    }
}

/// The declared degree is a true upper bound: every constraint expression
/// multiplies at most one wire by the one base constant, so its degree never
/// exceeds two, whatever the chain length.
pub proof fn lemma_cc_degree_bound(n: nat, j: int)
    requires
        0 <= j <= n,
    ensures
        expr_degree(cc_expr(n, j)) <= 2,
{
    assert(expr_degree(Expr::Constant(0)) == 1);
    if j < n {
        let pe = cc_prev_expr(j + 1);
        assert(expr_degree(pe) <= 1);
        assert(cc_step_expr(j + 1) == Expr::Mul(Box::new(pe), Box::new(Expr::Constant(0))));
        assert(expr_degree(cc_step_expr(j + 1)) == expr_degree(pe) + expr_degree(
            Expr::Constant(0),
        ));
        assert(expr_degree(cc_step_expr(j + 1)) <= 2);
        assert(cc_expr(n, j) == Expr::Sub(
            Box::new(Expr::Wire(j as usize)),
            Box::new(cc_step_expr(j + 1)),
        ));
        assert(expr_degree(Expr::Wire(j as usize)) == 1);
        assert(expr_degree(cc_expr(n, j)) <= 2);
    } else if n == 0 {
        assert(expr_degree(Expr::One) == 0);
        assert(expr_degree(Expr::Wire(0)) == 1);
        assert(expr_degree(cc_expr(n, j)) <= 2);
    } else {
        let pe = cc_prev_expr(n as int);
        assert(expr_degree(pe) <= 1);
        assert(cc_step_expr(n as int) == Expr::Mul(Box::new(pe), Box::new(Expr::Constant(0))));
        assert(expr_degree(cc_step_expr(n as int)) == expr_degree(pe) + expr_degree(
            Expr::Constant(0),
        ));
        assert(expr_degree(cc_step_expr(n as int)) <= 2);
        assert(cc_expr(n, j) == Expr::Sub(
            Box::new(cc_step_expr(n as int)),
            Box::new(Expr::Wire(n as usize)),
        ));
        assert(expr_degree(Expr::Wire(n as usize)) == 1);
        assert(expr_degree(cc_expr(n, j)) <= 2);
    }
}

} // verus!
