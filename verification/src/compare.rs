//! Comparison of values.
//!
//! Numbers compare by what they stand for, strings byte by byte in their UTF-8
//! encoding. Nothing else can be compared.

use vstd::prelude::*;
use vstd::string::*;
use vstd::utf8::encode_utf8;
use crate::error::VmError;
use crate::instruction::CompareOps;
use crate::single::{equal, equal_to, less, less_than};
use crate::value::{Value, ValueView};

verus! {

/// How one value stands to another.
#[derive(Clone, Copy, Debug, PartialEq, Eq, Structural)]
pub enum Relation {
    Less,
    Equal,
    Greater,
    /// Neither below, nor equal, nor above: one of the two is not a number.
    Unordered,
}

/// How the integer `a` stands to the integer `b`.
pub open spec fn int_relation(a: int, b: int) -> Relation {
    if a < b {
        Relation::Less
    } else if a == b {
        Relation::Equal
    } else {
        Relation::Greater
    }
}

/// How the number with pattern `a` stands to the number with pattern `b`.
pub open spec fn single_relation(a: u32, b: u32) -> Relation {
    if less_than(a, b) {
        Relation::Less
    } else if equal_to(a, b) {
        Relation::Equal
    } else if less_than(b, a) {
        Relation::Greater
    } else {
        Relation::Unordered
    }
}

/// How the byte string `a` stands to the byte string `b` in dictionary order.
pub open spec fn bytes_relation(a: Seq<u8>, b: Seq<u8>) -> Relation
    decreases a.len(),
{
    if a.len() == 0 || b.len() == 0 {
        int_relation(a.len() as int, b.len() as int)
    } else if a[0] != b[0] {
        int_relation(a[0] as int, b[0] as int)
    } else {
        bytes_relation(a.drop_first(), b.drop_first())
    }
}

/// How `a` stands to `b`, where the two can be compared.
///
/// Two numbers are compared as integers if neither is in single precision, a truth
/// value counting as 0 or 1, and as single-precision numbers otherwise. Two strings
/// are compared in dictionary order.
pub open spec fn relation_of(a: ValueView, b: ValueView) -> Result<Relation, VmError> {
    if a.is_number() && b.is_number() {
        if a is Float || b is Float {
            Ok(single_relation(a.single_value(), b.single_value()))
        } else {
            Ok(int_relation(a.int_value() as int, b.int_value() as int))
        }
    } else {
        match (a, b) {
            (ValueView::Str(x), ValueView::Str(y)) => Ok(
                bytes_relation(encode_utf8(x), encode_utf8(y)),
            ),
            _ => Err(VmError::TypeMismatch),
        }
    }
}

/// Whether a comparison holds of two values that stand in `relation`.
pub open spec fn holds(op: CompareOps, relation: Relation) -> bool {
    match op {
        CompareOps::LessThan => relation == Relation::Less,
        CompareOps::LessThanOrEqual => relation == Relation::Less || relation == Relation::Equal,
        CompareOps::Equal => relation == Relation::Equal,
        CompareOps::NotEqual => relation != Relation::Equal,
        CompareOps::GreaterThan => relation == Relation::Greater,
        CompareOps::GreaterThanOrEqual => relation == Relation::Greater || relation
            == Relation::Equal,
    }
}

/// The truth of `a op b`, where the two can be compared.
pub open spec fn compare_result(op: CompareOps, a: ValueView, b: ValueView) -> Result<
    bool,
    VmError,
> {
    match relation_of(a, b) {
        Ok(relation) => Ok(holds(op, relation)),
        Err(e) => Err(e),
    }
}

/// Dictionary order looks only at what follows a common prefix.
proof fn lemma_bytes_relation_skips_prefix(a: Seq<u8>, b: Seq<u8>, n: int)
    requires
        0 <= n <= a.len(),
        n <= b.len(),
        forall|j: int| 0 <= j < n ==> a[j] == b[j],
    ensures
        bytes_relation(a, b) == bytes_relation(a.skip(n), b.skip(n)),
    decreases n,
{
    if n == 0 {
        assert(a.skip(0) =~= a);
        assert(b.skip(0) =~= b);
    } else {
        lemma_bytes_relation_skips_prefix(a, b, n - 1);
        let x = a.skip(n - 1);
        let y = b.skip(n - 1);
        assert(x[0] == a[n - 1]);
        assert(y[0] == b[n - 1]);
        assert(x.drop_first() =~= a.skip(n));
        assert(y.drop_first() =~= b.skip(n));
    }
}

/// How the integer `a` stands to the integer `b`.
pub fn relate_ints(a: i32, b: i32) -> (r: Relation)
    ensures
        r == int_relation(a as int, b as int),
{
    if a < b {
        Relation::Less
    } else if a == b {
        Relation::Equal
    } else {
        Relation::Greater
    }
}

/// How the number with pattern `a` stands to the number with pattern `b`.
pub fn relate_singles(a: u32, b: u32) -> (r: Relation)
    ensures
        r == single_relation(a, b),
{
    if less(a, b) {
        Relation::Less
    } else if equal(a, b) {
        Relation::Equal
    } else if less(b, a) {
        Relation::Greater
    } else {
        Relation::Unordered
    }
}

/// How the byte string `a` stands to the byte string `b` in dictionary order.
pub fn relate_bytes(a: &[u8], b: &[u8]) -> (r: Relation)
    ensures
        r == bytes_relation(a@, b@),
{
    let mut i: usize = 0;
    while i < a.len() && i < b.len()
        invariant
            i <= a.len(),
            i <= b.len(),
            forall|j: int| 0 <= j < i ==> a@[j] == b@[j],
        decreases a.len() - i,
    {
        if a[i] != b[i] {
            proof {
                lemma_bytes_relation_skips_prefix(a@, b@, i as int);
            }
            return if a[i] < b[i] {
                Relation::Less
            } else {
                Relation::Greater
            };
        }
        i += 1;
    }
    proof {
        lemma_bytes_relation_skips_prefix(a@, b@, i as int);
    }
    if a.len() < b.len() {
        Relation::Less
    } else if a.len() == b.len() {
        Relation::Equal
    } else {
        Relation::Greater
    }
}

/// Whether a comparison holds of two values that stand in `relation`.
pub fn relation_holds(op: CompareOps, relation: Relation) -> (r: bool)
    ensures
        r == holds(op, relation),
{
    match op {
        CompareOps::LessThan => matches!(relation, Relation::Less),
        CompareOps::LessThanOrEqual => matches!(relation, Relation::Less | Relation::Equal),
        CompareOps::Equal => matches!(relation, Relation::Equal),
        CompareOps::NotEqual => !matches!(relation, Relation::Equal),
        CompareOps::GreaterThan => matches!(relation, Relation::Greater),
        CompareOps::GreaterThanOrEqual => matches!(relation, Relation::Greater | Relation::Equal),
    }
}

impl Value {
    /// How `self` stands to `other`; a type mismatch where the two cannot be compared.
    pub fn relation(&self, other: &Value) -> (r: Result<Relation, VmError>)
        ensures
            r == relation_of(self@, other@),
    {
        if self.is_number() && other.is_number() {
            let floating = match (self, other) {
                (Value::Float(_), _) => true,
                (_, Value::Float(_)) => true,
                _ => false,
            };
            if floating {
                Ok(relate_singles(self.single_value(), other.single_value()))
            } else {
                Ok(relate_ints(self.int_value(), other.int_value()))
            }
        } else {
            match (self, other) {
                (Value::Str(x), Value::Str(y)) => Ok(
                    relate_bytes(x.as_str().as_bytes(), y.as_str().as_bytes()),
                ),
                _ => Err(VmError::TypeMismatch),
            }
        }
    }

    /// The truth of `self op other`; a type mismatch where the two cannot be compared.
    pub fn compare(&self, op: CompareOps, other: &Value) -> (r: Result<bool, VmError>)
        ensures
            r == compare_result(op, self@, other@),
    {
        match self.relation(other) {
            Ok(relation) => Ok(relation_holds(op, relation)),
            Err(e) => Err(e),
        }
    }
}

} // verus!
