//! The numeric kinds of the value tower, their ranges and the
//! two's-complement truncation used by casts and wrapping arithmetic.
use vstd::prelude::*;
use vstd::arithmetic::div_mod::lemma_mod_bound;
use vstd::arithmetic::div_mod::lemma_mod_add_multiples_vanish;
use vstd::arithmetic::div_mod::lemma_small_mod;

verus! {

/// The numeric kinds. `Ibig` and `Ubig` are arbitrary-precision.
#[derive(Clone, Copy, PartialEq, Eq, Structural, Debug)]
pub enum NumKind {
    I8,
    I16,
    I32,
    I64,
    I128,
    Isize,
    Ibig,
    U8,
    U16,
    U32,
    U64,
    U128,
    Usize,
    Ubig,
}

/// The floating-point kinds. Their values are carried as raw bit patterns;
/// no floating-point arithmetic belongs to this core.
#[derive(Clone, Copy, PartialEq, Eq, Structural, Debug)]
pub enum FloatKind {
    F16,
    F32,
    F64,
}

pub open spec fn is_signed_kind(k: NumKind) -> bool {
    match k {
        NumKind::I8 | NumKind::I16 | NumKind::I32 | NumKind::I64 | NumKind::I128 | NumKind::Isize
            | NumKind::Ibig => true,
        _ => false,
    }
}

pub open spec fn is_big_kind(k: NumKind) -> bool {
    k is Ibig || k is Ubig
}

pub open spec fn is_fixed_kind(k: NumKind) -> bool {
    !is_big_kind(k)
}

/// `2^width` of a fixed kind; 0 for the big kinds.
pub open spec fn kind_mod(k: NumKind) -> int {
    match k {
        NumKind::I8 | NumKind::U8 => 0x100int,
        NumKind::I16 | NumKind::U16 => 0x1_0000int,
        NumKind::I32 | NumKind::U32 => 0x1_0000_0000int,
        NumKind::I64 | NumKind::U64 => 0x1_0000_0000_0000_0000int,
        NumKind::I128 | NumKind::U128 => u128::MAX as int + 1,
        NumKind::Isize | NumKind::Usize => usize::MAX as int + 1,
        NumKind::Ibig | NumKind::Ubig => 0int,
    }
}

/// Whether `v` is representable in kind `k`.
pub open spec fn in_kind_range(k: NumKind, v: int) -> bool {
    match k {
        NumKind::Ibig => true,
        NumKind::Ubig => v >= 0,
        _ => {
            if is_signed_kind(k) {
                -(kind_mod(k) / 2) <= v < kind_mod(k) / 2
            } else {
                0 <= v < kind_mod(k)
            }
        },
    }
}

/// Two's-complement truncation of `v` into kind `k`; the identity on the
/// big kinds.
pub open spec fn wrap_kind(k: NumKind, v: int) -> int {
    if is_big_kind(k) {
        v
    } else {
        let m = kind_mod(k);
        let r = v % m;
        if is_signed_kind(k) && r >= m / 2 {
            r - m
        } else {
            r
        }
    }
}

/// The signed value of a sign-and-magnitude pair.
pub open spec fn sm_val(neg: bool, mag: int) -> int {
    if neg {
        -mag
    } else {
        mag
    }
}

/// Quotient truncated toward zero, as host integer division computes it.
pub open spec fn trunc_div(x: int, d: int) -> int {
    if x == 0 {
        0
    } else if x > 0 && d > 0 {
        x / d
    } else if x < 0 && d < 0 {
        (x * -1) / (d * -1)
    } else if x < 0 {
        ((x * -1) / d) * -1
    } else {
        (x / (d * -1)) * -1
    }
}

/// Remainder with the dividend's sign, as the host `%` computes it.
pub open spec fn trunc_rem(x: int, d: int) -> int {
    if x == 0 {
        0
    } else if x > 0 && d > 0 {
        x % d
    } else if x < 0 && d < 0 {
        ((x * -1) % (d * -1)) * -1
    } else if x < 0 {
        ((x * -1) % d) * -1
    } else {
        x % (d * -1)
    }
}

/// Truncation is total on the fixed kinds: it always lands in range, and
/// it is the identity exactly on the values already in range.
pub proof fn lemma_wrap_kind(k: NumKind, v: int)
    requires
        is_fixed_kind(k),
    ensures
        in_kind_range(k, wrap_kind(k, v)),
        in_kind_range(k, v) ==> wrap_kind(k, v) == v,
{
    let m = kind_mod(k);
    assert(m >= 0x100);
    lemma_mod_bound(v, m);
    if in_kind_range(k, v) {
        if is_signed_kind(k) {
            if v < 0 {
                lemma_mod_add_multiples_vanish(v, m);
                lemma_small_mod((v + m) as nat, m as nat);
            } else {
                lemma_small_mod(v as nat, m as nat);
            }
        } else {
            lemma_small_mod(v as nat, m as nat);
        }
    }
}

impl NumKind {
    /// Whether the kind is signed.
    pub fn signed(&self) -> (r: bool)
        ensures
            r == is_signed_kind(*self),
    {
        match self {
            NumKind::I8 | NumKind::I16 | NumKind::I32 | NumKind::I64 | NumKind::I128
                | NumKind::Isize | NumKind::Ibig => true,
            _ => false,
        }
    }

    /// Whether the kind is arbitrary-precision.
    pub fn big(&self) -> (r: bool)
        ensures
            r == is_big_kind(*self),
    {
        match self {
            NumKind::Ibig | NumKind::Ubig => true,
            _ => false,
        }
    }
}

/// The type name of each numeric kind.
pub open spec fn kind_name(k: NumKind) -> Seq<char> {
    match k {
        NumKind::I8 => "i8"@,
        NumKind::I16 => "i16"@,
        NumKind::I32 => "i32"@,
        NumKind::I64 => "i64"@,
        NumKind::I128 => "i128"@,
        NumKind::Isize => "isize"@,
        NumKind::Ibig => "ibig"@,
        NumKind::U8 => "u8"@,
        NumKind::U16 => "u16"@,
        NumKind::U32 => "u32"@,
        NumKind::U64 => "u64"@,
        NumKind::U128 => "u128"@,
        NumKind::Usize => "usize"@,
        NumKind::Ubig => "ubig"@,
    }
}

/// The type name of each floating-point kind.
pub open spec fn float_kind_name(k: FloatKind) -> Seq<char> {
    match k {
        FloatKind::F16 => "f16"@,
        FloatKind::F32 => "f32"@,
        FloatKind::F64 => "f64"@,
    }
}

impl NumKind {
    /// The type name of the kind, e.g. `i32`.
    pub fn name(&self) -> (r: &'static str)
        ensures
            r@ == kind_name(*self),
    {
        match self {
            NumKind::I8 => "i8",
            NumKind::I16 => "i16",
            NumKind::I32 => "i32",
            NumKind::I64 => "i64",
            NumKind::I128 => "i128",
            NumKind::Isize => "isize",
            NumKind::Ibig => "ibig",
            NumKind::U8 => "u8",
            NumKind::U16 => "u16",
            NumKind::U32 => "u32",
            NumKind::U64 => "u64",
            NumKind::U128 => "u128",
            NumKind::Usize => "usize",
            NumKind::Ubig => "ubig",
        }
    }
}

impl FloatKind {
    /// The type name of the kind, e.g. `f64`.
    pub fn name(&self) -> (r: &'static str)
        ensures
            r@ == float_kind_name(*self),
    {
        match self {
            FloatKind::F16 => "f16",
            FloatKind::F32 => "f32",
            FloatKind::F64 => "f64",
        }
    }
}

} // verus!
