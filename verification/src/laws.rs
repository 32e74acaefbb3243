//! What holds of values, frames and calls in general.

use vstd::prelude::*;
use vstd::utf8::{decode_utf8, encode_utf8, encode_utf8_decode_utf8};
use vstd::arithmetic::power2::{lemma2_to64, lemma_pow2_adds, lemma_pow2_pos, pow2};
use crate::arith::{
    arith_result, copies_for, int_result, repeated, ArithOp, FloatRequest, OutcomeView,
};
use crate::compare::{bytes_relation, compare_result, int_relation, relation_of, Relation};
use crate::error::VmError;
use crate::instruction::CompareOps;
use crate::single::{
    bit_length, encode, exponent_field, fraction_field, is_nan, is_negative,
    lemma_bit_length_bounds, nearest, round_half_even, truncated, whole_magnitude, HIDDEN_BIT,
};
use crate::value::{FrameView, ValueView};

verus! {

/// The sum, difference or product of two integers, unbounded.
pub open spec fn exact_result(op: ArithOp, a: int, b: int) -> int
    recommends
        op != ArithOp::Div,
{
    match op {
        ArithOp::Add => a + b,
        ArithOp::Sub => a - b,
        _ => a * b,
    }
}

/// Where the sum, difference or product of two integers fits in 32 bits, integer
/// arithmetic gives exactly that.
pub proof fn lemma_int_result_is_exact(op: ArithOp, a: i32, b: i32)
    requires
        op != ArithOp::Div,
        i32::MIN <= exact_result(op, a as int, b as int) <= i32::MAX,
    ensures
        int_result(op, a, b) == exact_result(op, a as int, b as int),
{
    let exact = exact_result(op, a as int, b as int);
    if exact < 0 {
        assert(exact % 0x1_0000_0000 == exact + 0x1_0000_0000);
    } else {
        assert(exact % 0x1_0000_0000 == exact);
    }
}

/// The kind of result that each pair of numbers gives. Addition, subtraction and
/// multiplication of integers and truth values give an integer, with truth values
/// widened to 0 and 1. Every division, and every operation with a single-precision
/// operand, gives a request whose operands are the two numbers in single precision.
pub proof fn lemma_number_pairs(op: ArithOp, a: ValueView, b: ValueView)
    requires
        a.is_number(),
        b.is_number(),
    ensures
        op != ArithOp::Div && !(a is Float) && !(b is Float) ==> arith_result(op, a, b) == Ok::<
            OutcomeView,
            VmError,
        >(
            OutcomeView::Ready(
                ValueView::Int(int_result(op, a.int_value(), b.int_value())),
            ),
        ),
        op == ArithOp::Div || a is Float || b is Float ==> arith_result(op, a, b) == Ok::<
            OutcomeView,
            VmError,
        >(
            OutcomeView::Deferred(
                FloatRequest { op, lhs: a.single_value(), rhs: b.single_value() },
            ),
        ),
{
}

/// Every pair of values that is not a pair of numbers, two strings under `+`, or a
/// string and an integer under `*`, is a type mismatch.
pub proof fn lemma_other_pairs_mismatch(op: ArithOp, a: ValueView, b: ValueView)
    requires
        !(a.is_number() && b.is_number()),
        !(op == ArithOp::Add && a is Str && b is Str),
        !(op == ArithOp::Mul && a is Str && b is Int),
        !(op == ArithOp::Mul && a is Int && b is Str),
    ensures
        arith_result(op, a, b) == Err::<OutcomeView, VmError>(VmError::TypeMismatch),
{
}

/// Two strings add to the first followed by the second, and a string times an
/// integer that is not negative is the string repeated, whichever way round the two
/// are written.
pub proof fn lemma_string_pairs(x: Seq<char>, y: Seq<char>, count: i32)
    requires
        count >= 0,
    ensures
        arith_result(ArithOp::Add, ValueView::Str(x), ValueView::Str(y)) == Ok::<
            OutcomeView,
            VmError,
        >(OutcomeView::Ready(ValueView::Str(x + y))),
        arith_result(ArithOp::Mul, ValueView::Str(x), ValueView::Int(count)) == Ok::<
            OutcomeView,
            VmError,
        >(OutcomeView::Ready(ValueView::Str(repeated(x, copies_for(count))))),
        arith_result(ArithOp::Mul, ValueView::Int(count), ValueView::Str(x)) == arith_result(
            ArithOp::Mul,
            ValueView::Str(x),
            ValueView::Int(count),
        ),
{
}

/// A string repeated zero times or once is the string itself, once.
pub proof fn lemma_repetition_by_zero_or_one(s: Seq<char>, count: i32)
    requires
        count == 0 || count == 1,
    ensures
        arith_result(ArithOp::Mul, ValueView::Str(s), ValueView::Int(count)) == Ok::<
            OutcomeView,
            VmError,
        >(OutcomeView::Ready(ValueView::Str(s))),
        arith_result(ArithOp::Mul, ValueView::Int(count), ValueView::Str(s)) == Ok::<
            OutcomeView,
            VmError,
        >(OutcomeView::Ready(ValueView::Str(s))),
{
    assert(repeated(s, 0) =~= Seq::<char>::empty());
    assert(repeated(s, 1) =~= s);
}

/// `count` copies of a string are `count` times as long as the string.
pub proof fn lemma_repetition_length(s: Seq<char>, count: nat)
    ensures
        repeated(s, count).len() == count * s.len(),
    decreases count,
{
    if count > 0 {
        lemma_repetition_length(s, (count - 1) as nat);
        assert(repeated(s, count) == repeated(s, (count - 1) as nat) + s);
        assert(count * s.len() == (count - 1) * s.len() + s.len()) by (nonlinear_arith);
    }
}

/// Truncation goes toward zero. The result has the sign of the number, or is zero;
/// its magnitude is the whole part of the number's magnitude, which never exceeds
/// that magnitude: for a number below two to the power twenty-four, the whole part
/// `w` and the significand `m`, which stands for `m / d` with `d` a power of two,
/// satisfy `w * d <= m < (w + 1) * d`.
pub proof fn lemma_truncation_goes_toward_zero(bits: u32)
    requires
        !is_nan(bits),
    ensures
        is_negative(bits) ==> truncated(bits) <= 0,
        !is_negative(bits) ==> truncated(bits) >= 0,
        whole_magnitude(bits) >= 0,
        whole_magnitude(bits) <= i32::MAX ==> truncated(bits) == if is_negative(bits) {
            -whole_magnitude(bits)
        } else {
            whole_magnitude(bits)
        },
        exponent_field(bits) < 127 ==> whole_magnitude(bits) == 0,
        127 <= exponent_field(bits) <= 150 ==> {
            let divisor = pow2((150 - exponent_field(bits)) as nat) as int;
            let significand = HIDDEN_BIT + fraction_field(bits);
            whole_magnitude(bits) * divisor <= significand < (whole_magnitude(bits) + 1) * divisor
        },
{
    let scale = exponent_field(bits) - 127;
    let significand = HIDDEN_BIT + fraction_field(bits);
    if 0 <= scale <= 23 {
        let divisor = pow2((23 - scale) as nat) as int;
        lemma_pow2_pos((23 - scale) as nat);
        let whole = significand / divisor;
        assert(whole * divisor <= significand < (whole + 1) * divisor && whole >= 0)
            by (nonlinear_arith)
            requires
                whole == significand / divisor,
                divisor > 0,
                significand >= 0,
        ;
    } else if scale > 23 {
        lemma_pow2_pos((scale - 23) as nat);
        assert(significand * pow2((scale - 23) as nat) >= 0) by (nonlinear_arith)
            requires
                significand >= 0,
                pow2((scale - 23) as nat) > 0,
        ;
    }
}

/// A pattern put together from a sign, a biased exponent and a significand has that
/// sign, that exponent and the fraction of that significand.
pub proof fn lemma_fields_of_encoding(negative: bool, exponent: nat, significand: nat)
    requires
        exponent < 256,
        0x80_0000 <= significand < 0x100_0000,
    ensures
        0 <= encode(negative, exponent, significand) <= u32::MAX,
        is_negative(encode(negative, exponent, significand) as u32) == negative,
        exponent_field(encode(negative, exponent, significand) as u32) == exponent,
        fraction_field(encode(negative, exponent, significand) as u32) == significand - 0x80_0000,
{
}

/// Rounding a quotient to the nearest integer misses the quotient by half at most:
/// the rounded quotient times the divisor differs from the dividend by at most half
/// the divisor.
pub proof fn lemma_rounding_is_nearest(n: nat, d: nat)
    requires
        d > 0,
    ensures
        2 * (round_half_even(n, d) * d - n) <= d,
        2 * (n - round_half_even(n, d) * d) <= d,
{
    let quotient = n / d;
    let rest = n % d;
    assert(n == quotient * d + rest && 0 <= rest < d) by (nonlinear_arith)
        requires
            quotient == n / d,
            rest == n % d,
            d > 0,
    ;
    assert((quotient + 1) * d == quotient * d + d) by (nonlinear_arith);
}

/// An integer of at most 24 binary digits is converted to single precision exactly:
/// truncating the pattern that is nearest to it gives the integer back.
pub proof fn lemma_small_integers_are_exact(x: int)
    requires
        -0x100_0000 < x < 0x100_0000,
    ensures
        0 <= nearest(x) <= u32::MAX,
        !is_nan(nearest(x) as u32),
        truncated(nearest(x) as u32) == x,
{
    lemma2_to64();
    if x != 0 {
        let magnitude = (if x < 0 {
            -x
        } else {
            x
        }) as nat;
        lemma_bit_length_bounds(magnitude);
        let length = bit_length(magnitude);
        if length > 24 {
            vstd::arithmetic::power2::lemma_pow2_strictly_increases(24, (length - 1) as nat);
        }
        let factor = pow2((24 - length) as nat);
        lemma_pow2_pos((24 - length) as nat);
        lemma_pow2_adds((length - 1) as nat, (24 - length) as nat);
        lemma_pow2_adds(length, (24 - length) as nat);
        let low = pow2((length - 1) as nat);
        let high = pow2(length);
        assert(low * factor <= magnitude * factor < high * factor) by (nonlinear_arith)
            requires
                low <= magnitude < high,
                factor > 0,
        ;
        let significand = magnitude * factor;
        lemma_fields_of_encoding(x < 0, 126 + length, significand);
        assert((magnitude * factor) as int / (factor as int) == magnitude) by (nonlinear_arith)
            requires
                factor > 0,
        ;
    }
}

/// A 32-bit integer of more than 24 binary digits is converted to the single-precision
/// number nearest to it: the magnitude of that number is a multiple of the power of
/// two `d` that the last place of its significand stands for, and differs from the
/// magnitude of the integer by at most half of `d`.
pub proof fn lemma_large_integers_are_rounded(x: i32)
    requires
        x <= -0x100_0000 || x >= 0x100_0000,
    ensures
        0 <= nearest(x as int) <= u32::MAX,
        !is_nan(nearest(x as int) as u32),
        is_negative(nearest(x as int) as u32) == (x < 0),
        ({
            let magnitude = (if x < 0 {
                -x
            } else {
                x as int
            }) as nat;
            let d = pow2((bit_length(magnitude) - 24) as nat);
            let whole = whole_magnitude(nearest(x as int) as u32);
            &&& whole == round_half_even(magnitude, d) * d
            &&& 2 * (whole - magnitude) <= d
            &&& 2 * (magnitude - whole) <= d
        }),
{
    lemma2_to64();
    let magnitude = (if x < 0 {
        -x
    } else {
        x as int
    }) as nat;
    lemma_bit_length_bounds(magnitude);
    let length = bit_length(magnitude);
    if length <= 24 {
        vstd::arithmetic::power2::lemma_pow2_strictly_increases(length, 25);
        if length < 24 {
            vstd::arithmetic::power2::lemma_pow2_strictly_increases(length, 24);
        }
    }
    if length > 32 {
        vstd::arithmetic::power2::lemma_pow2_strictly_increases(32, (length - 1) as nat);
    }
    assert(24 < length <= 32);
    let d = pow2((length - 24) as nat);
    lemma_pow2_pos((length - 24) as nat);
    lemma_pow2_adds(23, (length - 24) as nat);
    lemma_pow2_adds(24, (length - 24) as nat);
    lemma_rounding_is_nearest(magnitude, d);
    let quotient = magnitude / d;
    assert(0x80_0000 <= quotient < 0x100_0000) by (nonlinear_arith)
        requires
            quotient == magnitude / d,
            0x80_0000 * d <= magnitude < 0x100_0000 * d,
            d > 0,
    ;
    let rounded = round_half_even(magnitude, d);
    if rounded == 0x100_0000 {
        lemma_fields_of_encoding(x < 0, 127 + length, 0x80_0000);
        lemma_pow2_adds(1, (length - 24) as nat);
        assert(0x80_0000 * (2 * d) == 0x100_0000 * d) by (nonlinear_arith);
    } else {
        lemma_fields_of_encoding(x < 0, 126 + length, rounded);
    }
}

/// What a frame that waited on a quotient, a sum, a difference or a product puts in
/// place of the operands: a floor division puts the integer that the delivered
/// pattern truncates to, every other instruction puts the pattern itself, as a
/// single-precision number.
pub proof fn lemma_delivery_replaces_the_operands(frame: FrameView, bits: u32)
    requires
        frame.awaited() is Some,
    ensures
        frame.delivered(bits).stack.len() > 0,
        frame.instructions[frame.ip as int].truncates() ==> frame.delivered(bits).top()
            == ValueView::Int(truncated(bits)),
        !frame.instructions[frame.ip as int].truncates() ==> frame.delivered(bits).top()
            == ValueView::Float(bits),
{
}

/// An absolute jump goes to half its operand, a forward jump goes on by half its
/// operand and one; either fails if that lies beyond the end of the program. So an
/// absolute jump with operand 10 goes to instruction 5, and a forward jump with
/// operand 4 goes on by 3.
pub proof fn lemma_jump_targets(frame: FrameView, arg: usize)
    ensures
        arg / 2 <= frame.instructions.len() ==> frame.jump_absolute(arg) == Ok::<
            FrameView,
            VmError,
        >(frame.at((arg / 2) as usize)),
        arg / 2 > frame.instructions.len() ==> frame.jump_absolute(arg) == Err::<
            FrameView,
            VmError,
        >(VmError::InvalidOperand),
        frame.ip + arg / 2 + 1 <= frame.instructions.len() ==> frame.jump_forward(arg) == Ok::<
            FrameView,
            VmError,
        >(frame.at((frame.ip + arg / 2 + 1) as usize)),
        frame.ip + arg / 2 + 1 > frame.instructions.len() ==> frame.jump_forward(arg) == Err::<
            FrameView,
            VmError,
        >(VmError::InvalidOperand),
        frame.instructions.len() >= 5 ==> frame.jump_absolute(10) == Ok::<FrameView, VmError>(
            frame.at(5),
        ),
        frame.ip + 3 <= frame.instructions.len() ==> frame.jump_forward(4) == Ok::<
            FrameView,
            VmError,
        >(frame.at((frame.ip + 3) as usize)),
{
}

/// `DupTopTwo` doubles each of the top two values where it lies: a stack that ends
/// in `b, c` ends in `b, b, c, c` afterwards, and what lies beneath stays.
pub proof fn lemma_dup_top_two_doubles_in_place(frame: FrameView)
    requires
        frame.stack.len() >= 2,
    ensures
        frame.dup_top_two() == Ok::<FrameView, VmError>(
            frame.with_stack(
                frame.below(2) + seq![frame.peek(1), frame.peek(1), frame.peek(0), frame.peek(0)],
            ).advanced(),
        ),
{
    let pushed = frame.stack.push(frame.top());
    let place = pushed.len() - 3;
    assert(pushed.insert(place, pushed[place]) =~= frame.below(2) + seq![
        frame.peek(1),
        frame.peek(1),
        frame.peek(0),
        frame.peek(0),
    ]);
}

/// A callee gets one scope of its caller as its global scope: a copy of the local
/// scope if the caller is at depth 0, a copy of the global scope otherwise. Its depth
/// is one more than the caller's, and the caller keeps both its scopes.
pub proof fn lemma_call_hands_over_one_scope(caller: FrameView, arg: usize)
    requires
        caller.call_function(arg) is Ok,
    ensures
        caller.depth == 0 ==> caller.call_function(arg)->Ok_0.1.globals == caller.locals,
        caller.depth != 0 ==> caller.call_function(arg)->Ok_0.1.globals == caller.globals,
        caller.call_function(arg)->Ok_0.1.depth == caller.depth + 1,
        caller.call_function(arg)->Ok_0.0.locals == caller.locals,
        caller.call_function(arg)->Ok_0.0.globals == caller.globals,
{
}

/// The arguments of a call are bound from the last fast name backward: the top of the
/// caller's stack to the last name, the value beneath it to the name before.
pub proof fn lemma_last_name_gets_the_top(callee: FrameView, stack: Seq<ValueView>, count: nat)
    requires
        1 <= count <= stack.len(),
        count <= callee.fast_names.len(),
        forall|i: int|
            callee.fast_names.len() - count <= i < callee.fast_names.len() - 1
                ==> callee.fast_names[i] != callee.fast_names.last(),
    ensures
        callee.bound_arguments(stack, count).contains_key(callee.fast_names.last()),
        callee.bound_arguments(stack, count)[callee.fast_names.last()] == stack.last(),
    decreases count,
{
    if count > 1 {
        lemma_last_name_gets_the_top(callee, stack, (count - 1) as nat);
    }
}

/// A name that has been stored and then deleted cannot be loaded: the load fails with
/// a name error. This holds of plain names, of fast names and of global names.
pub proof fn lemma_deleted_name_cannot_be_loaded(frame: FrameView, arg: usize)
    requires
        frame.stack.len() > 0,
    ensures
        arg < frame.names.len() ==> frame.store_name(arg)->Ok_0.delete_name(arg)->Ok_0.load_name(
            arg,
        ) == Err::<FrameView, VmError>(VmError::NameError),
        arg < frame.fast_names.len() ==> frame.store_fast(arg)->Ok_0.delete_fast(
            arg,
        )->Ok_0.load_fast(arg) == Err::<FrameView, VmError>(VmError::NameError),
        arg < frame.names.len() ==> frame.store_global(arg)->Ok_0.delete_global(
            arg,
        )->Ok_0.load_global(arg) == Err::<FrameView, VmError>(VmError::NameError),
{
}

/// Plain names and fast names address one scope: what is stored under a fast name
/// can be loaded under the same plain name.
pub proof fn lemma_plain_and_fast_names_share_a_scope(frame: FrameView, fast: usize, plain: usize)
    requires
        frame.stack.len() > 0,
        fast < frame.fast_names.len(),
        plain < frame.names.len(),
        frame.fast_names[fast as int] == frame.names[plain as int],
    ensures
        frame.store_fast(fast) is Ok,
        frame.store_fast(fast)->Ok_0.load_name(plain) is Ok,
        frame.store_fast(fast)->Ok_0.load_name(plain)->Ok_0.top() == frame.top(),
{
}

/// Two byte strings are equal in dictionary order just when they are the same.
pub proof fn lemma_equal_bytes_are_the_same(a: Seq<u8>, b: Seq<u8>)
    ensures
        bytes_relation(a, b) == Relation::Equal <==> a == b,
    decreases a.len(),
{
    if a.len() > 0 && b.len() > 0 {
        lemma_equal_bytes_are_the_same(a.drop_first(), b.drop_first());
        if a[0] == b[0] && a.drop_first() == b.drop_first() {
            assert(a =~= seq![a[0]] + a.drop_first());
            assert(b =~= seq![b[0]] + b.drop_first());
        }
    } else if a.len() == 0 && b.len() == 0 {
        assert(a =~= b);
    }
}

/// Two strings are equal under comparison just when they are the same string.
pub proof fn lemma_equal_strings_are_the_same(x: Seq<char>, y: Seq<char>)
    ensures
        relation_of(ValueView::Str(x), ValueView::Str(y)) == Ok::<Relation, VmError>(
            Relation::Equal,
        ) <==> x == y,
        compare_result(CompareOps::Equal, ValueView::Str(x), ValueView::Str(y)) == Ok::<
            bool,
            VmError,
        >(x == y),
{
    lemma_equal_bytes_are_the_same(encode_utf8(x), encode_utf8(y));
    encode_utf8_decode_utf8(x);
    encode_utf8_decode_utf8(y);
    if encode_utf8(x) == encode_utf8(y) {
        assert(decode_utf8(encode_utf8(x)) == decode_utf8(encode_utf8(y)));
    }
}

/// Comparing two numbers the other way round turns less into greater, and leaves
/// equal and unordered as they are.
pub proof fn lemma_comparison_turns_round(a: ValueView, b: ValueView)
    requires
        a.is_number(),
        b.is_number(),
    ensures
        relation_of(a, b) == Ok::<Relation, VmError>(Relation::Less) <==> relation_of(b, a) == Ok::<
            Relation,
            VmError,
        >(Relation::Greater),
        relation_of(a, b) == Ok::<Relation, VmError>(Relation::Equal) <==> relation_of(b, a) == Ok::<
            Relation,
            VmError,
        >(Relation::Equal),
        relation_of(a, b) == Ok::<Relation, VmError>(Relation::Unordered) <==> relation_of(b, a)
            == Ok::<Relation, VmError>(Relation::Unordered),
{
}

/// In a comparison, a truth value counts as the integer 0 or 1, on either side. So
/// `true` is less than 2.
pub proof fn lemma_truth_values_compare_as_integers(truth: bool, i: i32)
    ensures
        relation_of(ValueView::Bool(truth), ValueView::Int(i)) == Ok::<_, VmError>(
            int_relation(
                if truth {
                    1
                } else {
                    0
                },
                i as int,
            ),
        ),
        relation_of(ValueView::Int(i), ValueView::Bool(truth)) == Ok::<_, VmError>(
            int_relation(
                i as int,
                if truth {
                    1
                } else {
                    0
                },
            ),
        ),
        compare_result(CompareOps::LessThan, ValueView::Bool(true), ValueView::Int(2)) == Ok::<
            bool,
            VmError,
        >(true),
{
}

} // verus!
