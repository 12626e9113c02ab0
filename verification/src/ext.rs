//! The quadratic extension of the Goldilocks field.
//!
//! Elements are pairs (c0, c1) standing for c0 + c1*x in the extension by a
//! root of the irreducible polynomial x^2 - 7.  Constraints are
//! evaluated over this extension during recursive composition; on elements
//! embedded from the base field the evaluation coincides with the base-field
//! one, which is proved below.

use vstd::prelude::*;

use crate::field::fadd;
use crate::field::fmul;
use crate::field::fsub;
use crate::field::valid_elem;
use crate::field::f_add;
use crate::field::f_mul;
use crate::field::f_sub;
use crate::field::pow_f;
use crate::field::FIELD_ORDER;

verus! {

/// The extension is generated by a square root of this base-field constant.
pub const EXT_W: u64 = 7;

/// An element of the quadratic extension, in canonical representatives.
#[derive(Clone, Copy, Debug, PartialEq, Eq, Structural)]
pub struct ExtElem {
    pub c0: u64,
    pub c1: u64,
}

impl ExtElem {
    /// Both components are canonical base-field representatives.
    pub open spec fn valid(self) -> bool {
        valid_elem(self.c0) && valid_elem(self.c1)
    }

    /// The pair of integers the element stands for.
    pub open spec fn sval(self) -> (int, int) {
        (self.c0 as int, self.c1 as int)
    }

    /// The multiplicative unit of the extension.
    pub fn one() -> (r: ExtElem)
        ensures
            r.valid(),
            r.sval() == e_one(),
    {
        ExtElem { c0: 1, c1: 0 }
    }

    /// Embeds a base-field element into the extension.
    pub fn from_base(x: u64) -> (r: ExtElem)
        requires
            valid_elem(x),
        ensures
            r.valid(),
            r.sval() == embed(x),
    {
        ExtElem { c0: x, c1: 0 }
    }
}

/// Every entry of the sequence is a valid extension element.
pub open spec fn valid_ext_row(s: Seq<ExtElem>) -> bool {
    forall|i: int| 0 <= i < s.len() ==> (#[trigger] s[i]).valid()
}

/// The pairs of integers a sequence of extension elements stands for.
pub open spec fn svals(s: Seq<ExtElem>) -> Seq<(int, int)> {
    s.map(|i: int, e: ExtElem| e.sval())
}

/// The image of a base-field element in the extension.
pub open spec fn embed(x: u64) -> (int, int) {
    (x as int, 0int)
}

/// The image of a base-field row in the extension.
pub open spec fn embed_row(s: Seq<u64>) -> Seq<(int, int)> {
    s.map(|i: int, x: u64| embed(x))
}

/// The multiplicative unit of the extension.
pub open spec fn e_one() -> (int, int) {
    (1int, 0int)
}

/// Extension addition, componentwise.
pub open spec fn e_add(a: (int, int), b: (int, int)) -> (int, int) {
    (fadd(a.0, b.0), fadd(a.1, b.1))
}

/// Extension subtraction, componentwise.
pub open spec fn e_sub(a: (int, int), b: (int, int)) -> (int, int) {
    (fsub(a.0, b.0), fsub(a.1, b.1))
}

/// Extension multiplication: (a0 + a1 x)(b0 + b1 x) with x^2 = EXT_W.
pub open spec fn e_mul(a: (int, int), b: (int, int)) -> (int, int) {
    (
        fadd(fmul(a.0, b.0), fmul(EXT_W as int, fmul(a.1, b.1))),
        fadd(fmul(a.0, b.1), fmul(a.1, b.0)),
    )
}

/// The e-th power in the extension, folded from the left.
pub open spec fn e_pow(b: (int, int), e: nat) -> (int, int)
    decreases e,
{
    if e == 0 {
        e_one()
    } else {
        e_mul(e_pow(b, (e - 1) as nat), b)
    }
}

/// Extension addition of two elements.
pub fn ext_add(a: ExtElem, b: ExtElem) -> (r: ExtElem)
    requires
        a.valid(),
        b.valid(),
    ensures
        r.valid(),
        r.sval() == e_add(a.sval(), b.sval()),
{
    ExtElem { c0: f_add(a.c0, b.c0), c1: f_add(a.c1, b.c1) }
}

/// Extension subtraction of two elements.
pub fn ext_sub(a: ExtElem, b: ExtElem) -> (r: ExtElem)
    requires
        a.valid(),
        b.valid(),
    ensures
        r.valid(),
        r.sval() == e_sub(a.sval(), b.sval()),
{
    ExtElem { c0: f_sub(a.c0, b.c0), c1: f_sub(a.c1, b.c1) }
}

/// Extension multiplication of two elements.
pub fn ext_mul(a: ExtElem, b: ExtElem) -> (r: ExtElem)
    requires
        a.valid(),
        b.valid(),
    ensures
        r.valid(),
        r.sval() == e_mul(a.sval(), b.sval()),
{
    ExtElem {
        c0: f_add(f_mul(a.c0, b.c0), f_mul(EXT_W, f_mul(a.c1, b.c1))),
        c1: f_add(f_mul(a.c0, b.c1), f_mul(a.c1, b.c0)),
    }
}

/// Residues modulo the field order lie in the canonical range.
pub proof fn lemma_mod_in_range(x: int)
    ensures
        0 <= x % (FIELD_ORDER as int) < FIELD_ORDER as int,
{
    vstd::arithmetic::div_mod::lemma_mod_division_less_than_divisor(x, FIELD_ORDER as int);
}

/// Powers of a canonical element are canonical.
pub proof fn lemma_pow_f_range(b: int, e: nat)
    ensures
        0 <= pow_f(b, e) < FIELD_ORDER as int,
    decreases e,
{
    if e == 0 {
    } else {
        lemma_pow_f_range(b, (e - 1) as nat);
        lemma_mod_in_range(pow_f(b, (e - 1) as nat) * b);
    }
}

/// Extension multiplication agrees with base-field multiplication on embedded
/// elements.
pub proof fn lemma_e_mul_embed(a: int, b: int)
    requires
        0 <= a < FIELD_ORDER as int,
        0 <= b < FIELD_ORDER as int,
    ensures
        e_mul((a, 0int), (b, 0int)).0 == fmul(a, b),
        e_mul((a, 0int), (b, 0int)).1 == 0,
{
    let p = FIELD_ORDER as int;
    assert(fmul(a, 0int) == 0);
    assert(fmul(0int, b) == 0);
    assert(fmul(0int, 0int) == 0);
    assert(fmul(EXT_W as int, 0int) == 0);
    lemma_mod_in_range(a * b);
    vstd::arithmetic::div_mod::lemma_small_mod(fmul(a, b) as nat, p as nat);
    assert(fadd(fmul(a, b), 0int) == fmul(a, b));
    assert(fadd(0int, 0int) == 0);
}

/// Extension powers agree with base-field powers on embedded elements.
pub proof fn lemma_e_pow_embed(b: u64, e: nat)
    requires
        valid_elem(b),
    ensures
        e_pow(embed(b), e).0 == pow_f(b as int, e),
        e_pow(embed(b), e).1 == 0,
    decreases e,
{
    if e == 0 {
    } else {
        lemma_e_pow_embed(b, (e - 1) as nat);
        lemma_pow_f_range(b as int, (e - 1) as nat);
        lemma_e_mul_embed(pow_f(b as int, (e - 1) as nat), b as int);
    }
}

} // verus!
