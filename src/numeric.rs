//! Matching of scalar values against built-in types and literals.
use vstd::prelude::*;
use crate::ast::Type2;
use crate::error::{Error, Expected, Failure, mismatch, mismatch_error};
use crate::ast::MemberKey;
use crate::text::str_eq;
use crate::value::{Number, Value};
use vstd::arithmetic::power2::{lemma2_to64, lemma2_to64_rest, lemma_pow2_adds, lemma_pow2_pos, lemma_pow2_unfold, pow2};

verus! {

/// 2^52: the place of the exponent field in a binary64 bit pattern.
pub const EXPONENT_UNIT: u64 = 0x10_0000_0000_0000;

/// 2^63: the place of the sign bit in a binary64 bit pattern.
pub const SIGN_UNIT: u64 = 0x8000_0000_0000_0000;

/// Whether a binary64 bit pattern is a finite number (neither infinite nor NaN).
pub open spec fn is_finite_bits(b: u64) -> bool {
    (b / EXPONENT_UNIT) % 2048 != 2047
}

/// The value of a finite binary64 bit pattern, times 2^1074: an integer.
pub open spec fn float_scaled(b: u64) -> int {
    let e: int = (b as int / EXPONENT_UNIT as int) % 2048;
    let f: int = b as int % EXPONENT_UNIT as int;
    let mag: int = if e == 0 {
        f
    } else {
        (EXPONENT_UNIT as int + f) * pow2((e - 1) as nat)
    };
    if b >= SIGN_UNIT {
        -mag
    } else {
        mag
    }
}

/// The value of a number, times 2^1074.
pub open spec fn number_scaled(n: Number) -> int {
    match n {
        Number::PosInt(u) => u as int * pow2(1074),
        Number::NegInt(i) => i as int * pow2(1074),
        Number::Float(b) => float_scaled(b),
    }
}

/// The absolute value of `x`.
pub open spec fn abs(x: int) -> int {
    if x < 0 {
        -x
    } else {
        x
    }
}

/// Whether a number lies within machine epsilon (2^-52) of the float literal `lit`.
/// Both must be finite; the distance is taken between exact values.
pub open spec fn float_matches(lit: u64, n: Number) -> bool {
    &&& is_finite_bits(lit)
    &&& (n is Float ==> is_finite_bits(n->Float_0))
    &&& abs(number_scaled(n) - float_scaled(lit)) < pow2(1022)
}

/// The magnitude `m` with a sign.
pub open spec fn signed(neg: bool, m: int) -> int {
    if neg {
        -m
    } else {
        m
    }
}

proof fn lemma_signed_mul(n: bool, m: int, k: nat)
    ensures
        signed(n, m) * k == signed(n, m * k),
{
    if n {
        assert((-m) * k == -(m * k)) by (nonlinear_arith);
    }
}

proof fn lemma_pow2_mono(a: nat, b: nat)
    requires
        a <= b,
    ensures
        pow2(a) <= pow2(b),
{
    lemma_pow2_adds(a, (b - a) as nat);
    lemma_pow2_pos((b - a) as nat);
    lemma_pow2_pos(a);
    assert(pow2(a) <= pow2(b)) by (nonlinear_arith)
        requires
            pow2(b) == pow2(a) * pow2((b - a) as nat),
            pow2((b - a) as nat) > 0,
            pow2(a) > 0,
    ;
}

proof fn lemma_pow2_128()
    ensures
        pow2(128) == 0x1_0000_0000_0000_0000int * 0x1_0000_0000_0000_0000int,
        pow2(64) == 0x1_0000_0000_0000_0000int,
{
    lemma2_to64();
    lemma2_to64_rest();
    lemma_pow2_adds(64, 64);
}

fn pow2_u128(k: u64) -> (p: u128)
    requires
        k <= 127,
    ensures
        p as int == pow2(k as nat),
{
    let mut p: u128 = 1;
    let mut j: u64 = 0;
    proof {
        lemma2_to64();
        lemma_pow2_128();
    }
    while j < k
        invariant
            j <= k <= 127,
            p as int == pow2(j as nat),
            pow2(128) == 0x1_0000_0000_0000_0000int * 0x1_0000_0000_0000_0000int,
        decreases k - j,
    {
        proof {
            lemma_pow2_unfold((j + 1) as nat);
            lemma_pow2_mono((j + 1) as nat, 127);
            lemma_pow2_unfold(128);
        }
        p = p * 2;
        j += 1;
    }
    p
}

/// Whether `signed(np, mp) * 2^kp` and `signed(nq, mq) * 2^kq` are less than 2^1022 apart,
/// where `kp >= kq`.
fn close_ordered(np: bool, mp: u64, kp: u64, nq: bool, mq: u64, kq: u64) -> (r: bool)
    requires
        kq <= kp <= 4096,
    ensures
        r == (abs(signed(np, mp as int) * pow2(kp as nat) - signed(nq, mq as int) * pow2(
            kq as nat,
        )) < pow2(1022)),
{
    let d: u64 = kp - kq;
    let ghost pd = pow2(d as nat);
    let ghost pk: nat = pow2(kq as nat);
    let ghost pp: int = mp as int * pd;
    let ghost g: int = signed(np, pp) - signed(nq, mq as int);
    let ghost ag: int = if np == nq {
        abs(pp - mq as int)
    } else {
        pp + mq as int
    };
    proof {
        lemma_pow2_adds(kq as nat, d as nat);
        lemma_pow2_pos(d as nat);
        lemma_pow2_pos(kq as nat);
        lemma_pow2_128();
        lemma_pow2_pos(1022);
        lemma_signed_mul(np, mp as int, pow2(kp as nat));
        lemma_signed_mul(nq, mq as int, pk);
        lemma_signed_mul(np, pp, pk);
        assert(mp as int * pow2(kp as nat) == pp * pk) by (nonlinear_arith)
            requires
                pow2(kp as nat) == pk * pd,
                pp == mp as int * pd,
        ;
        assert(pk * g == signed(np, pp) * pk - signed(nq, mq as int) * pk) by (nonlinear_arith)
            requires
                g == signed(np, pp) - signed(nq, mq as int),
        ;
        assert(abs(g) == ag);
        assert(abs(pk * g) == pk * ag) by (nonlinear_arith)
            requires
                pk > 0,
                abs(g) == ag,
        ;
        assert(pp >= 0) by (nonlinear_arith)
            requires
                pp == mp as int * pd,
                pd > 0,
        ;
        assert(mp == 0 ==> pp == 0) by (nonlinear_arith)
            requires
                pp == mp as int * pd,
        ;
        assert(mp >= 1 ==> pp >= pd) by (nonlinear_arith)
            requires
                pp == mp as int * pd,
                pd > 0,
        ;
    }
    if kq >= 1022 {
        proof {
            lemma_pow2_mono(1022, kq as nat);
            assert((pk * ag < pow2(1022)) == (ag == 0)) by (nonlinear_arith)
                requires
                    pk >= pow2(1022),
                    ag >= 0,
                    pow2(1022) > 0,
            ;
        }
        if np != nq {
            return mp == 0 && mq == 0;
        }
        if d > 64 {
            proof {
                lemma_pow2_mono(65, d as nat);
                lemma_pow2_mono(64, 65);
            }
            return mp == 0 && mq == 0;
        }
        let p = pow2_u128(d);
        proof {
            lemma_pow2_mono(d as nat, 64);
            assert(mp as int * p as int <= 0xFFFF_FFFF_FFFF_FFFFint * 0x1_0000_0000_0000_0000int) by (nonlinear_arith)
                requires
                    mp < 0x1_0000_0000_0000_0000int,
                    p as int <= 0x1_0000_0000_0000_0000int,
                    p >= 0,
            ;
        }
        return (mp as u128) * p == mq as u128;
    }
    let t: u64 = 1022 - kq;
    proof {
        lemma_pow2_adds(kq as nat, t as nat);
        lemma_pow2_pos(t as nat);
        assert((pk * ag < pow2(1022)) == (ag < pow2(t as nat))) by (nonlinear_arith)
            requires
                pow2(1022) == pk * pow2(t as nat),
                pk > 0,
        ;
    }
    if d <= 64 {
        let p = pow2_u128(d);
        proof {
            lemma_pow2_mono(d as nat, 64);
            assert(mp as int * p as int <= 0xFFFF_FFFF_FFFF_FFFFint * 0x1_0000_0000_0000_0000int) by (nonlinear_arith)
                requires
                    mp < 0x1_0000_0000_0000_0000int,
                    p as int <= 0x1_0000_0000_0000_0000int,
                    p >= 0,
            ;
        }
        let pv: u128 = (mp as u128) * p;
        let mag: u128 = if np == nq {
            if pv >= mq as u128 {
                pv - mq as u128
            } else {
                mq as u128 - pv
            }
        } else {
            pv + mq as u128
        };
        if t >= 128 {
            proof {
                lemma_pow2_mono(128, t as nat);
            }
            return true;
        }
        let bound = pow2_u128(t);
        return mag < bound;
    }
    proof {
        lemma_pow2_mono(65, d as nat);
        lemma_pow2_mono(64, 65);
        lemma_pow2_unfold(65);
    }
    if mp == 0 {
        if t >= 64 {
            proof {
                lemma_pow2_mono(64, t as nat);
            }
            return true;
        }
        let bound = pow2_u128(t);
        return (mq as u128) < bound;
    }
    if t < d {
        proof {
            lemma_pow2_mono(t as nat, (d - 1) as nat);
            lemma_pow2_unfold(d as nat);
            lemma_pow2_mono(64, (d - 1) as nat);
        }
        return false;
    }
    let u: u64 = t - d;
    proof {
        lemma_pow2_adds(d as nat, u as nat);
        lemma_pow2_pos(u as nat);
    }
    let ghost pu = pow2(u as nat);
    if u >= 64 {
        proof {
            lemma_pow2_mono(64, u as nat);
            assert(pp + mq < pd * pu) by (nonlinear_arith)
                requires
                    pp == mp as int * pd,
                    mp < 0x1_0000_0000_0000_0000int,
                    pu >= 0x1_0000_0000_0000_0000int,
                    mq < pd,
            ;
        }
        return true;
    }
    let bound = pow2_u128(u);
    proof {
        assert((pp + mq < pd * pu) == (mp < pu)) by (nonlinear_arith)
            requires
                pp == mp as int * pd,
                0 <= mq < pd,
                pd > 0,
        ;
        assert(mq > 0 ==> ((pp - mq < pd * pu) == (mp <= pu))) by (nonlinear_arith)
            requires
                pp == mp as int * pd,
                0 <= mq < pd,
                pd > 0,
        ;
    }
    if np != nq || mq == 0 {
        (mp as u128) < bound
    } else {
        (mp as u128) <= bound
    }
}

/// Whether two scaled values `signed(na, ma) * 2^ka` and `signed(nb, mb) * 2^kb` are less
/// than 2^1022 apart.
fn scaled_close(na: bool, ma: u64, ka: u64, nb: bool, mb: u64, kb: u64) -> (r: bool)
    requires
        ka <= 4096,
        kb <= 4096,
    ensures
        r == (abs(signed(na, ma as int) * pow2(ka as nat) - signed(nb, mb as int) * pow2(
            kb as nat,
        )) < pow2(1022)),
{
    if ka >= kb {
        close_ordered(na, ma, ka, nb, mb, kb)
    } else {
        close_ordered(nb, mb, kb, na, ma, ka)
    }
}

/// The sign, magnitude and scale of a finite binary64 bit pattern.
fn float_parts(b: u64) -> (r: (bool, u64, u64))
    ensures
        r.2 <= 2046,
        signed(r.0, r.1 as int) * pow2(r.2 as nat) == float_scaled(b),
{
    let e: u64 = (b / EXPONENT_UNIT) % 2048;
    let f: u64 = b % EXPONENT_UNIT;
    let neg = b >= SIGN_UNIT;
    proof {
        lemma2_to64();
        lemma_signed_mul(neg, f as int, pow2(0));
        if e != 0 {
            lemma_signed_mul(neg, EXPONENT_UNIT as int + f as int, pow2((e - 1) as nat));
        }
    }
    if e == 0 {
        (neg, f, 0)
    } else {
        (neg, EXPONENT_UNIT + f, e - 1)
    }
}

/// Whether a number equals the numeric literal `t2`.
pub open spec fn literal_matches(t2: Type2, n: Number) -> bool {
    match t2 {
        Type2::IntValue(i) => n.spec_as_i64() == Some(i),
        Type2::UintValue(u) => n.spec_as_u64() == Some(u),
        Type2::FloatValue(f) => float_matches(f, n),
        _ => true,
    }
}

/// A numeric literal against a value.
pub open spec fn numeric_value_outcome<'a>(t2: &'a Type2, v: &'a Value) -> Result<(), Failure<'a>> {
    match v {
        Value::Number(n) => if literal_matches(*t2, *n) {
            Ok(())
        } else {
            Err(mismatch(None, Expected::Type2(t2), None, v))
        },
        _ => Err(mismatch(None, Expected::Type2(t2), None, v)),
    }
}

fn float_literal_matches(lit: u64, n: &Number) -> (r: bool)
    ensures
        r == float_matches(lit, *n),
{
    if (lit / EXPONENT_UNIT) % 2048 == 2047 {
        return false;
    }
    let (nl, ml, kl) = float_parts(lit);
    let (nv, mv, kv) = match n {
        Number::Float(b) => {
            if (*b / EXPONENT_UNIT) % 2048 == 2047 {
                return false;
            }
            float_parts(*b)
        },
        Number::PosInt(u) => (false, *u, 1074),
        Number::NegInt(i) => {
            let m: u64 = if *i < 0 {
                (-(*i as i128)) as u64
            } else {
                *i as u64
            };
            (*i < 0, m, 1074)
        },
    };
    scaled_close(nv, mv, kv, nl, ml, kl)
}

/// Matches a value against a numeric literal.
pub fn validate_numeric_value<'a>(t2: &'a Type2, v: &'a Value) -> (r: Result<(), Error<'a>>)
    ensures
        crate::error::outcome(r) == numeric_value_outcome(t2, v),
{
    match v {
        Value::Number(n) => {
            let ok = match t2 {
                Type2::IntValue(i) => n.as_i64() == Some(*i),
                Type2::UintValue(u) => n.as_u64() == Some(*u),
                Type2::FloatValue(f) => float_literal_matches(*f, n),
                _ => true,
            };
            if ok {
                Ok(())
            } else {
                Err(mismatch_error(None, Expected::Type2(t2), None, v))
            }
        },
        _ => Err(mismatch_error(None, Expected::Type2(t2), None, v)),
    }
}

/// The value `null` against a type name.
pub open spec fn null_outcome<'a>(ident: &'a String, v: &'a Value) -> Result<(), Failure<'a>> {
    if ident@ == "null"@ || ident@ == "nil"@ {
        Ok(())
    } else {
        Err(mismatch(None, Expected::Ident(ident), None, v))
    }
}

/// Matches the value `null` against a type name.
pub fn expect_null<'a>(ident: &'a String, v: &'a Value) -> (r: Result<(), Error<'a>>)
    ensures
        crate::error::outcome(r) == null_outcome(ident, v),
{
    if str_eq(ident.as_str(), "null") || str_eq(ident.as_str(), "nil") {
        Ok(())
    } else {
        Err(mismatch_error(None, Expected::Ident(ident), None, v))
    }
}

/// Whether the boolean `b` has the type named `ident`.
pub open spec fn bool_matches(ident: Seq<char>, b: bool) -> bool {
    ident == "bool"@ || (ident == "true"@ && b) || (ident == "false"@ && !b)
}

/// A boolean value against a type name.
pub open spec fn bool_outcome<'a>(ident: &'a String, v: &'a Value) -> Result<(), Failure<'a>> {
    match v {
        Value::Bool(b) => if bool_matches(ident@, *b) {
            Ok(())
        } else {
            Err(mismatch(None, Expected::Ident(ident), None, v))
        },
        _ => Err(mismatch(None, Expected::Ident(ident), None, v)),
    }
}

/// Matches a boolean value against a type name.
pub fn expect_bool<'a>(ident: &'a String, v: &'a Value) -> (r: Result<(), Error<'a>>)
    ensures
        crate::error::outcome(r) == bool_outcome(ident, v),
{
    match v {
        Value::Bool(b) => {
            if str_eq(ident.as_str(), "bool") {
                return Ok(());
            }
            if (str_eq(ident.as_str(), "true") && *b) || (str_eq(ident.as_str(), "false") && !*b) {
                return Ok(());
            }
            Err(mismatch_error(None, Expected::Ident(ident), None, v))
        },
        _ => Err(mismatch_error(None, Expected::Ident(ident), None, v)),
    }
}

/// Whether the number `n` has the numeric type named `ident`.
pub open spec fn numeric_type_matches(ident: Seq<char>, n: Number) -> bool {
    if ident == "uint"@ {
        n.spec_as_u64().is_some()
    } else if ident == "nint"@ {
        n.spec_as_i64().is_some() && n.spec_as_i64().unwrap() < 0
    } else if ident == "int"@ {
        n.spec_as_i64().is_some()
    } else {
        ident == "number"@ || ident == "float16"@ || ident == "float32"@
    }
}

/// A number against a type name.
pub open spec fn numeric_type_outcome<'a>(
    emk: Option<&'a MemberKey>,
    amk: Option<&'a String>,
    ident: &'a String,
    v: &'a Value,
) -> Result<(), Failure<'a>> {
    match v {
        Value::Number(n) => if numeric_type_matches(ident@, *n) {
            Ok(())
        } else {
            Err(mismatch(emk, Expected::Ident(ident), amk, v))
        },
        _ => Err(mismatch(emk, Expected::Ident(ident), amk, v)),
    }
}

/// Matches a number against a numeric type name.
pub fn validate_numeric_data_type<'a>(
    emk: Option<&'a MemberKey>,
    amk: Option<&'a String>,
    ident: &'a String,
    v: &'a Value,
) -> (r: Result<(), Error<'a>>)
    ensures
        crate::error::outcome(r) == numeric_type_outcome(emk, amk, ident, v),
{
    match v {
        Value::Number(n) => {
            let id = ident.as_str();
            let ok = if str_eq(id, "uint") {
                n.as_u64().is_some()
            } else if str_eq(id, "nint") {
                match n.as_i64() {
                    Some(i) => i < 0,
                    None => false,
                }
            } else if str_eq(id, "int") {
                n.as_i64().is_some()
            } else {
                str_eq(id, "number") || str_eq(id, "float16") || str_eq(id, "float32")
            };
            if ok {
                Ok(())
            } else {
                Err(mismatch_error(emk, Expected::Ident(ident), amk, v))
            }
        },
        _ => Err(mismatch_error(emk, Expected::Ident(ident), amk, v)),
    }
}

} // verus!
