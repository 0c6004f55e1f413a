//! Deterministic column data for test tables.
use vstd::prelude::*;

use crate::arrow::{ArrowDataType, TimeUnit};
use crate::text::{chars_of, i64_text, owned};

#[allow(unused_imports)]
use crate::arrow::ArrowV;
#[allow(unused_imports)]
use crate::text::{int_text, texts};

verus! {

/// The floating point types.
#[derive(Clone, Copy, Debug, PartialEq, Eq, Structural)]
pub enum FloatKind {
    /// Half precision: the value of row `i` is `base + i * 0.5`
    Half,
    /// Single precision: the value of row `i` is `base + i * 0.5`
    Single,
    /// Double precision: the value of row `i` is `base + i * 0.25`
    Double,
}

/// The values of a column.
#[derive(Debug)]
pub enum ColumnData {
    Boolean(Vec<bool>),
    Int8(Vec<i8>),
    Int16(Vec<i16>),
    Int32(Vec<i32>),
    Int64(Vec<i64>),
    /// The kind, the value of the first row and the number of rows
    Float(FloatKind, i32, usize),
    Utf8(Vec<String>),
    Binary(Vec<Vec<u8>>),
    Date32(Vec<i32>),
    /// Microseconds, and the time zone where there is one
    TimestampMicrosecond(Vec<i64>, Option<String>),
    /// Unscaled values, precision and scale
    Decimal128(Vec<i128>, u8, i8),
}

/// The model of [`ColumnData`].
pub enum ColumnV {
    Boolean(Seq<bool>),
    Int8(Seq<i8>),
    Int16(Seq<i16>),
    Int32(Seq<i32>),
    Int64(Seq<i64>),
    Float(FloatKind, i32, usize),
    Utf8(Seq<Seq<char>>),
    Binary(Seq<Seq<u8>>),
    Date32(Seq<i32>),
    TimestampMicrosecond(Seq<i64>, Option<Seq<char>>),
    Decimal128(Seq<i128>, u8, i8),
}

impl View for ColumnData {
    type V = ColumnV;

    open spec fn view(&self) -> ColumnV {
        match self {
            ColumnData::Boolean(v) => ColumnV::Boolean(v@),
            ColumnData::Int8(v) => ColumnV::Int8(v@),
            ColumnData::Int16(v) => ColumnV::Int16(v@),
            ColumnData::Int32(v) => ColumnV::Int32(v@),
            ColumnData::Int64(v) => ColumnV::Int64(v@),
            ColumnData::Float(kind, base, rows) => ColumnV::Float(*kind, *base, *rows),
            ColumnData::Utf8(v) => ColumnV::Utf8(texts(v@)),
            ColumnData::Binary(v) => ColumnV::Binary(byte_views(v@)),
            ColumnData::Date32(v) => ColumnV::Date32(v@),
            ColumnData::TimestampMicrosecond(v, zone) => ColumnV::TimestampMicrosecond(
                v@,
                match zone {
                    Some(z) => Some(z@),
                    None => None,
                },
            ),
            ColumnData::Decimal128(v, precision, scale) => ColumnV::Decimal128(
                v@,
                *precision,
                *scale,
            ),
        }
    }
}

/// Lists of bytes as models.
pub open spec fn byte_views(v: Seq<Vec<u8>>) -> Seq<Seq<u8>> {
    Seq::new(v.len(), |i: int| v[i]@)
}

/// The remainder of a division that rounds towards zero: it has the sign of the dividend.
pub open spec fn remainder(x: int, m: int) -> int {
    if x >= 0 {
        x % m
    } else {
        -((-x) % m)
    }
}

/// A power of ten.
pub open spec fn power_of_ten(n: nat) -> int
    decreases n,
{
    if n == 0 {
        1
    } else {
        10 * power_of_ten((n - 1) as nat)
    }
}

/// A prefix and a number, as bytes.
pub open spec fn numbered_bytes(prefix: Seq<char>, n: int) -> Seq<u8> {
    Seq::new((prefix + int_text(n)).len(), |k: int| (prefix + int_text(n))[k] as u8)
}

/// The column of a type with the given number of rows. The values are derived from `base` and the
/// position of the row.
pub open spec fn generated(t: ArrowV, rows: usize, base: i32) -> ColumnV {
    match t {
        ArrowV::Leaf(leaf) => match leaf {
            ArrowDataType::Boolean => ColumnV::Boolean(
                Seq::new(rows as nat, |i: int| (base + i) % 2 == 0),
            ),
            ArrowDataType::Int8 => ColumnV::Int8(
                Seq::new(rows as nat, |i: int| remainder(base + i, 120) as i8),
            ),
            ArrowDataType::Int16 => ColumnV::Int16(
                Seq::new(rows as nat, |i: int| remainder(base + i, 30000) as i16),
            ),
            ArrowDataType::Int32 => ColumnV::Int32(
                Seq::new(rows as nat, |i: int| (base + i) as i32),
            ),
            ArrowDataType::Int64 => ColumnV::Int64(
                Seq::new(rows as nat, |i: int| ((base + i) * 1000) as i64),
            ),
            ArrowDataType::Float16 => ColumnV::Float(FloatKind::Half, base, rows),
            ArrowDataType::Float32 => ColumnV::Float(FloatKind::Single, base, rows),
            ArrowDataType::Float64 => ColumnV::Float(FloatKind::Double, base, rows),
            ArrowDataType::Utf8 => ColumnV::Utf8(
                Seq::new(rows as nat, |i: int| "val_"@ + int_text(base + i)),
            ),
            ArrowDataType::Binary => ColumnV::Binary(
                Seq::new(rows as nat, |i: int| numbered_bytes("bin_"@, base + i)),
            ),
            ArrowDataType::Date32 => ColumnV::Date32(
                Seq::new(rows as nat, |i: int| (18000 + base + i) as i32),
            ),
            ArrowDataType::Decimal128(precision, scale) => ColumnV::Decimal128(
                Seq::new(
                    rows as nat,
                    |i: int| ((base + i) * power_of_ten(scale as nat)) as i128,
                ),
                precision,
                scale,
            ),
            _ => arbitrary(),
        },
        ArrowV::Timestamp(_, zone) => ColumnV::TimestampMicrosecond(
            Seq::new(rows as nat, |i: int| ((18000 + base + i) * 86_400_000_000) as i64),
            zone,
        ),
        _ => arbitrary(),
    }
}

/// Whether there is data of a type: it is one of the supported types, and its parameters are those
/// of a type that exists.
pub open spec fn is_supported(t: ArrowV) -> bool {
    match t {
        ArrowV::Leaf(leaf) => match leaf {
            ArrowDataType::Boolean
            | ArrowDataType::Int8
            | ArrowDataType::Int16
            | ArrowDataType::Int32
            | ArrowDataType::Int64
            | ArrowDataType::Float16
            | ArrowDataType::Float32
            | ArrowDataType::Float64
            | ArrowDataType::Utf8
            | ArrowDataType::Binary
            | ArrowDataType::Date32 => true,
            ArrowDataType::Decimal128(precision, scale) => 1 <= precision <= 38 && 0 <= scale
                <= precision,
            _ => false,
        },
        ArrowV::Timestamp(unit, _) => unit == TimeUnit::Microsecond,
        _ => false,
    }
}

/// Whether the values of a column can be computed without overflow.
pub open spec fn values_fit(t: ArrowV, rows: usize, base: i32) -> bool {
    rows == 0 || match t {
        ArrowV::Leaf(leaf) => match leaf {
            ArrowDataType::Boolean => flags_fit(rows, base),
            ArrowDataType::Float16 | ArrowDataType::Float32 | ArrowDataType::Float64 => true,
            ArrowDataType::Date32 => rows - 1 <= i32::MAX && 18000 + base <= i32::MAX && 18000
                + base + rows - 1 <= i32::MAX,
            ArrowDataType::Decimal128(_, scale) => {
                &&& rows - 1 <= i32::MAX
                &&& base + rows - 1 <= i32::MAX
                &&& i128::MIN <= base * power_of_ten(scale as nat)
                &&& (base + rows - 1) * power_of_ten(scale as nat) <= i128::MAX
            },
            _ => rows - 1 <= i32::MAX && base + rows - 1 <= i32::MAX,
        },
        _ => rows - 1 <= i32::MAX && -106_751_991 <= 18000 + base && 18000 + base + rows - 1
            <= 106_751_991,
    }
}

/// Whether the row numbers from a base on can be counted without overflow. A base below 0 counts up
/// to -1.
pub open spec fn flags_fit(rows: usize, base: i32) -> bool {
    if base >= 0 {
        base + rows - 1 <= usize::MAX
    } else {
        rows <= -base
    }
}

fn booleans(rows: usize, base: i32) -> (r: Vec<bool>)
    requires
        rows == 0 || flags_fit(rows, base),
    ensures
        r@ == Seq::new(rows as nat, |i: int| (base + i) % 2 == 0),
{
    let mut r: Vec<bool> = Vec::new();
    let mut i: usize = 0;
    let first: i64 = base as i64;
    let mut even = if first >= 0 {
        first % 2 == 0
    } else {
        (-first) % 2 == 0
    };
    while i < rows
        invariant
            i <= rows,
            even == ((base + i) % 2 == 0),
            r@ == Seq::new(i as nat, |k: int| (base + k) % 2 == 0),
        decreases rows - i,
    {
        r.push(even);
        even = !even;
        i = i + 1;
        assert(r@ =~= Seq::new(i as nat, |k: int| (base + k) % 2 == 0));
    }
    r
}

fn rem(x: i32, m: i32) -> (r: i32)
    requires
        0 < m,
    ensures
        r == remainder(x as int, m as int),
        -m < r < m,
{
    if x >= 0 {
        x % m
    } else {
        let y: i64 = (-(x as i64)) % (m as i64);
        -(y as i32)
    }
}

fn bytes(rows: usize, base: i32) -> (r: Vec<i8>)
    requires
        rows == 0 || rows - 1 <= i32::MAX && base + rows - 1 <= i32::MAX,
    ensures
        r@ == Seq::new(rows as nat, |i: int| remainder(base + i, 120) as i8),
{
    let mut r: Vec<i8> = Vec::new();
    let mut i: usize = 0;
    while i < rows
        invariant
            i <= rows,
            rows == 0 || rows - 1 <= i32::MAX && base + rows - 1 <= i32::MAX,
            r@ == Seq::new(i as nat, |k: int| remainder(base + k, 120) as i8),
        decreases rows - i,
    {
        r.push(rem(base + i as i32, 120) as i8);
        i = i + 1;
        assert(r@ =~= Seq::new(i as nat, |k: int| remainder(base + k, 120) as i8));
    }
    r
}

fn shorts(rows: usize, base: i32) -> (r: Vec<i16>)
    requires
        rows == 0 || rows - 1 <= i32::MAX && base + rows - 1 <= i32::MAX,
    ensures
        r@ == Seq::new(rows as nat, |i: int| remainder(base + i, 30000) as i16),
{
    let mut r: Vec<i16> = Vec::new();
    let mut i: usize = 0;
    while i < rows
        invariant
            i <= rows,
            rows == 0 || rows - 1 <= i32::MAX && base + rows - 1 <= i32::MAX,
            r@ == Seq::new(i as nat, |k: int| remainder(base + k, 30000) as i16),
        decreases rows - i,
    {
        r.push(rem(base + i as i32, 30000) as i16);
        i = i + 1;
        assert(r@ =~= Seq::new(i as nat, |k: int| remainder(base + k, 30000) as i16));
    }
    r
}

fn integers(rows: usize, base: i32) -> (r: Vec<i32>)
    requires
        rows == 0 || rows - 1 <= i32::MAX && base + rows - 1 <= i32::MAX,
    ensures
        r@ == Seq::new(rows as nat, |i: int| (base + i) as i32),
{
    let mut r: Vec<i32> = Vec::new();
    let mut i: usize = 0;
    while i < rows
        invariant
            i <= rows,
            rows == 0 || rows - 1 <= i32::MAX && base + rows - 1 <= i32::MAX,
            r@ == Seq::new(i as nat, |k: int| (base + k) as i32),
        decreases rows - i,
    {
        r.push(base + i as i32);
        i = i + 1;
        assert(r@ =~= Seq::new(i as nat, |k: int| (base + k) as i32));
    }
    r
}

fn longs(rows: usize, base: i32) -> (r: Vec<i64>)
    requires
        rows == 0 || rows - 1 <= i32::MAX && base + rows - 1 <= i32::MAX,
    ensures
        r@ == Seq::new(rows as nat, |i: int| ((base + i) * 1000) as i64),
{
    let mut r: Vec<i64> = Vec::new();
    let mut i: usize = 0;
    while i < rows
        invariant
            i <= rows,
            rows == 0 || rows - 1 <= i32::MAX && base + rows - 1 <= i32::MAX,
            r@ == Seq::new(i as nat, |k: int| ((base + k) * 1000) as i64),
        decreases rows - i,
    {
        r.push((base + i as i32) as i64 * 1000);
        i = i + 1;
        assert(r@ =~= Seq::new(i as nat, |k: int| ((base + k) * 1000) as i64));
    }
    r
}

fn times(rows: usize, base: i32) -> (r: Vec<i64>)
    requires
        rows == 0 || rows - 1 <= i32::MAX && -106_751_991 <= 18000 + base && 18000 + base + rows - 1
            <= 106_751_991,
    ensures
        r@ == Seq::new(rows as nat, |i: int| ((18000 + base + i) * 86_400_000_000) as i64),
{
    let mut r: Vec<i64> = Vec::new();
    let mut i: usize = 0;
    while i < rows
        invariant
            i <= rows,
            rows == 0 || rows - 1 <= i32::MAX && -106_751_991 <= 18000 + base && 18000 + base + rows
                - 1 <= 106_751_991,
            r@ == Seq::new(i as nat, |k: int| ((18000 + base + k) * 86_400_000_000) as i64),
        decreases rows - i,
    {
        r.push((18000 + base + i as i32) as i64 * 86_400_000_000);
        i = i + 1;
        assert(r@ =~= Seq::new(i as nat, |k: int| ((18000 + base + k) * 86_400_000_000) as i64));
    }
    r
}

fn numbered_texts(rows: usize, base: i32) -> (r: Vec<String>)
    requires
        rows == 0 || rows - 1 <= i32::MAX && base + rows - 1 <= i32::MAX,
    ensures
        texts(r@) == Seq::new(rows as nat, |i: int| "val_"@ + int_text(base + i)),
{
    let mut r: Vec<String> = Vec::new();
    let mut i: usize = 0;
    assert(texts(r@) =~= Seq::new(0, |k: int| "val_"@ + int_text(base + k)));
    while i < rows
        invariant
            i <= rows,
            rows == 0 || rows - 1 <= i32::MAX && base + rows - 1 <= i32::MAX,
            texts(r@) == Seq::new(i as nat, |k: int| "val_"@ + int_text(base + k)),
        decreases rows - i,
    {
        let ghost before = texts(r@);
        let number = i64_text((base + i as i32) as i64);
        let mut text = owned("val_");
        text.push_str(number.as_str());
        r.push(text);
        i = i + 1;
        assert(texts(r@) =~= before.push("val_"@ + int_text(base + (i - 1))));
        assert(texts(r@) =~= Seq::new(i as nat, |k: int| "val_"@ + int_text(base + k)));
    }
    r
}

fn numbered_binary(rows: usize, base: i32) -> (r: Vec<Vec<u8>>)
    requires
        rows == 0 || rows - 1 <= i32::MAX && base + rows - 1 <= i32::MAX,
    ensures
        byte_views(r@) == Seq::new(rows as nat, |i: int| numbered_bytes("bin_"@, base + i)),
{
    let mut r: Vec<Vec<u8>> = Vec::new();
    let mut i: usize = 0;
    assert(byte_views(r@) =~= Seq::new(0, |k: int| numbered_bytes("bin_"@, base + k)));
    while i < rows
        invariant
            i <= rows,
            rows == 0 || rows - 1 <= i32::MAX && base + rows - 1 <= i32::MAX,
            byte_views(r@) == Seq::new(i as nat, |k: int| numbered_bytes("bin_"@, base + k)),
        decreases rows - i,
    {
        let ghost before = byte_views(r@);
        let number = i64_text((base + i as i32) as i64);
        let mut text = owned("bin_");
        text.push_str(number.as_str());
        let chars = chars_of(text.as_str());
        let mut bytes: Vec<u8> = Vec::new();
        let mut k: usize = 0;
        while k < chars.len()
            invariant
                k <= chars.len(),
                bytes@ == Seq::new(k as nat, |j: int| chars@[j] as u8),
            decreases chars.len() - k,
        {
            bytes.push(chars[k] as u8);
            k = k + 1;
            assert(bytes@ =~= Seq::new(k as nat, |j: int| chars@[j] as u8));
        }
        assert(bytes@ =~= numbered_bytes("bin_"@, base + i));
        r.push(bytes);
        i = i + 1;
        assert(byte_views(r@) =~= before.push(numbered_bytes("bin_"@, base + (i - 1))));
        assert(byte_views(r@) =~= Seq::new(
            i as nat,
            |k: int| numbered_bytes("bin_"@, base + k),
        ));
    }
    r
}

fn ten_to_the(n: u8) -> (r: i128)
    requires
        n <= 38,
    ensures
        r == power_of_ten(n as nat),
{
    let mut r: i128 = 1;
    let mut i: u8 = 0;
    while i < n
        invariant
            i <= n <= 38,
            r == power_of_ten(i as nat),
        decreases n - i,
    {
        proof {
            lemma_power_of_ten_bound((i + 1) as nat);
        }
        r = 10 * r;
        i = i + 1;
    }
    r
}

proof fn lemma_power_of_ten_bound(n: nat)
    requires
        n <= 38,
    ensures
        1 <= power_of_ten(n) <= 100_000_000_000_000_000_000_000_000_000_000_000_000,
{
    reveal_with_fuel(power_of_ten, 39);
}

fn decimals(rows: usize, base: i32, scale: i8) -> (r: Vec<i128>)
    requires
        0 <= scale <= 38,
        rows == 0 || {
            &&& rows - 1 <= i32::MAX
            &&& base + rows - 1 <= i32::MAX
            &&& i128::MIN <= base * power_of_ten(scale as nat)
            &&& (base + rows - 1) * power_of_ten(scale as nat) <= i128::MAX
        },
    ensures
        r@ == Seq::new(
            rows as nat,
            |i: int| ((base + i) * power_of_ten(scale as nat)) as i128,
        ),
{
    let factor: i128 = ten_to_the(scale as u8);
    proof {
        lemma_power_of_ten_bound(scale as nat);
    }
    let mut r: Vec<i128> = Vec::new();
    let mut i: usize = 0;
    while i < rows
        invariant
            i <= rows,
            factor == power_of_ten(scale as nat),
            1 <= factor,
            rows == 0 || {
                &&& rows - 1 <= i32::MAX
                &&& base + rows - 1 <= i32::MAX
                &&& i128::MIN <= base * power_of_ten(scale as nat)
                &&& (base + rows - 1) * power_of_ten(scale as nat) <= i128::MAX
            },
            r@ == Seq::new(
                i as nat,
                |k: int| ((base + k) * power_of_ten(scale as nat)) as i128,
            ),
        decreases rows - i,
    {
        let x: i32 = base + i as i32;
        assert(i128::MIN <= x * factor <= i128::MAX) by (nonlinear_arith)
            requires
                1 <= factor,
                base <= x <= base + rows - 1,
                i128::MIN <= base * factor,
                (base + rows - 1) * factor <= i128::MAX,
        ;
        r.push(x as i128 * factor);
        i = i + 1;
        assert(r@ =~= Seq::new(
            i as nat,
            |k: int| ((base + k) * power_of_ten(scale as nat)) as i128,
        ));
    }
    r
}

fn copy_zone(zone: &Option<String>) -> (r: Option<String>)
    ensures
        match r {
            Some(a) => zone matches Some(b) && a@ == b@,
            None => zone is None,
        },
{
    match zone {
        Some(z) => Some(owned(z.as_str())),
        None => None,
    }
}

/// Whether there is data of an Arrow type and its values can be computed without overflow.
pub fn column_fits(arrow_type: &ArrowDataType, rows: usize, base: i32) -> (r: bool)
    ensures
        r == (is_supported(arrow_type@) && values_fit(arrow_type@, rows, base)),
{
    let last: i128 = base as i128 + rows as i128 - 1;
    let counts = rows == 0 || rows as i128 - 1 <= i32::MAX as i128 && last <= i32::MAX as i128;
    match arrow_type {
        ArrowDataType::Float16 | ArrowDataType::Float32 | ArrowDataType::Float64 => true,
        ArrowDataType::Boolean => {
            rows == 0 || if base >= 0 {
                last <= usize::MAX as i128
            } else {
                last < 0
            }
        },
        ArrowDataType::Int8
        | ArrowDataType::Int16
        | ArrowDataType::Int32
        | ArrowDataType::Int64
        | ArrowDataType::Utf8
        | ArrowDataType::Binary => counts,
        ArrowDataType::Date32 => {
            rows == 0 || rows as i128 - 1 <= i32::MAX as i128 && base as i128 + 18000
                <= i32::MAX as i128 && last + 18000 <= i32::MAX as i128
        },
        ArrowDataType::Timestamp(unit, _) => {
            *unit == TimeUnit::Microsecond && (rows == 0 || rows as i128 - 1 <= i32::MAX as i128
                && -106_751_991 <= base as i128 + 18000 && last + 18000 <= 106_751_991)
        },
        ArrowDataType::Decimal128(precision, scale) => {
            if !(1 <= *precision && *precision <= 38 && 0 <= *scale && *scale as i32
                <= *precision as i32) {
                false
            } else if rows == 0 {
                true
            } else if !counts {
                false
            } else {
                let factor: i128 = ten_to_the(*scale as u8);
                proof {
                    lemma_power_of_ten_bound(*scale as nat);
                    lemma_products(base as int, last as int, factor as int);
                }
                factor.checked_mul(base as i128).is_some() && factor.checked_mul(last).is_some()
            }
        },
        _ => false,
    }
}

/// Between two products with a factor lie all the products between.
proof fn lemma_products(low: int, high: int, factor: int)
    requires
        low <= high,
        1 <= factor,
    ensures
        low * factor <= high * factor,
        factor * low == low * factor,
        factor * high == high * factor,
{
    assert(low * factor <= high * factor) by (nonlinear_arith)
        requires
            low <= high,
            1 <= factor,
    ;
    assert(factor * low == low * factor) by (nonlinear_arith);
    assert(factor * high == high * factor) by (nonlinear_arith);
}

/// Generates a single column of data of an Arrow type. Data is deterministic: values are derived
/// from `base`.
pub fn generate_column(arrow_type: &ArrowDataType, rows: usize, base: i32) -> (r: ColumnData)
    requires
        is_supported(arrow_type@),
        values_fit(arrow_type@, rows, base),
    ensures
        r@ == generated(arrow_type@, rows, base),
{
    match arrow_type {
        ArrowDataType::Boolean => ColumnData::Boolean(booleans(rows, base)),
        ArrowDataType::Int8 => ColumnData::Int8(bytes(rows, base)),
        ArrowDataType::Int16 => ColumnData::Int16(shorts(rows, base)),
        ArrowDataType::Int32 => ColumnData::Int32(integers(rows, base)),
        ArrowDataType::Int64 => ColumnData::Int64(longs(rows, base)),
        ArrowDataType::Float16 => ColumnData::Float(FloatKind::Half, base, rows),
        ArrowDataType::Float32 => ColumnData::Float(FloatKind::Single, base, rows),
        ArrowDataType::Float64 => ColumnData::Float(FloatKind::Double, base, rows),
        ArrowDataType::Utf8 => ColumnData::Utf8(numbered_texts(rows, base)),
        ArrowDataType::Binary => ColumnData::Binary(numbered_binary(rows, base)),
        ArrowDataType::Date32 => {
            if rows == 0 {
                let v: Vec<i32> = Vec::new();
                assert(v@ =~= Seq::new(0, |i: int| (18000 + base + i) as i32));
                ColumnData::Date32(v)
            } else {
                let v = integers(rows, 18000 + base);
                assert(v@ =~= Seq::new(rows as nat, |i: int| (18000 + base + i) as i32));
                ColumnData::Date32(v)
            }
        },
        ArrowDataType::Timestamp(_, zone) => ColumnData::TimestampMicrosecond(
            times(rows, base),
            copy_zone(zone),
        ),
        ArrowDataType::Decimal128(precision, scale) => ColumnData::Decimal128(
            decimals(rows, base, *scale),
            *precision,
            *scale,
        ),
        _ => {
            assert(false);
            ColumnData::Float(FloatKind::Half, base, rows)
        },
    }
}

/// The number of values of a column.
pub open spec fn value_count(c: ColumnV) -> nat {
    match c {
        ColumnV::Boolean(v) => v.len(),
        ColumnV::Int8(v) => v.len(),
        ColumnV::Int16(v) => v.len(),
        ColumnV::Int32(v) => v.len(),
        ColumnV::Int64(v) => v.len(),
        ColumnV::Float(_, _, rows) => rows as nat,
        ColumnV::Utf8(v) => v.len(),
        ColumnV::Binary(v) => v.len(),
        ColumnV::Date32(v) => v.len(),
        ColumnV::TimestampMicrosecond(v, _) => v.len(),
        ColumnV::Decimal128(v, _, _) => v.len(),
    }
}

/// Each column has as many values as rows are asked for.
pub proof fn law_one_value_per_row(t: ArrowV, rows: usize, base: i32)
    requires
        is_supported(t),
    ensures
        value_count(generated(t, rows, base)) == rows,
{
}

/// The values of generated columns, type by type: row `i` of a column with base `base` has the value
/// that belongs to the number `base + i`.
pub proof fn law_generated_values(t: ArrowDataType, rows: usize, base: i32, i: int)
    requires
        is_supported(ArrowV::Leaf(t)),
        values_fit(ArrowV::Leaf(t), rows, base),
        0 <= i < rows,
    ensures
        match generated(ArrowV::Leaf(t), rows, base) {
            ColumnV::Boolean(v) => t is Boolean && v.len() == rows && v[i] == ((base + i) % 2 == 0),
            ColumnV::Int8(v) => t is Int8 && v.len() == rows && -120 < v[i] < 120 && (base + i
                - v[i]) % 120 == 0 && (base + i >= 0 ==> v[i] >= 0) && (base + i <= 0 ==> v[i] <= 0),
            ColumnV::Int16(v) => t is Int16 && v.len() == rows && -30000 < v[i] < 30000 && (base + i
                - v[i]) % 30000 == 0 && (base + i >= 0 ==> v[i] >= 0) && (base + i <= 0 ==> v[i]
                <= 0),
            ColumnV::Int32(v) => t is Int32 && v.len() == rows && v[i] == base + i,
            ColumnV::Int64(v) => t is Int64 && v.len() == rows && v[i] == (base + i) * 1000,
            ColumnV::Float(kind, b, n) => b == base && n == rows && match t {
                ArrowDataType::Float16 => kind is Half,
                ArrowDataType::Float32 => kind is Single,
                ArrowDataType::Float64 => kind is Double,
                _ => false,
            },
            ColumnV::Utf8(v) => t is Utf8 && v.len() == rows && v[i] == "val_"@ + int_text(base + i),
            ColumnV::Binary(v) => t is Binary && v.len() == rows && v[i].len() == ("bin_"@
                + int_text(base + i)).len() && forall|k: int|
                0 <= k < v[i].len() ==> #[trigger] v[i][k] == ("bin_"@ + int_text(base + i))[k] as u8,
            ColumnV::Date32(v) => t is Date32 && v.len() == rows && v[i] == 18000 + base + i,
            ColumnV::Decimal128(v, precision, scale) => t == ArrowDataType::Decimal128(
                precision,
                scale,
            ) && v.len() == rows && v[i] == (base + i) * power_of_ten(scale as nat),
            ColumnV::TimestampMicrosecond(..) => false,
        },
{
    match t {
        ArrowDataType::Int8 => {
            lemma_remainder(base + i, 120);
        },
        ArrowDataType::Int16 => {
            lemma_remainder(base + i, 30000);
        },
        ArrowDataType::Decimal128(_, scale) => {
            lemma_power_of_ten_bound(scale as nat);
            let f = power_of_ten(scale as nat);
            assert(i128::MIN <= (base + i) * f <= i128::MAX) by (nonlinear_arith)
                requires
                    1 <= f,
                    base <= base + i <= base + rows - 1,
                    i128::MIN <= base * f,
                    (base + rows - 1) * f <= i128::MAX,
            ;
        },
        _ => {},
    }
}

proof fn lemma_remainder(x: int, m: int)
    requires
        0 < m,
    ensures
        -m < remainder(x, m) < m,
        (x - remainder(x, m)) % m == 0,
        x >= 0 ==> remainder(x, m) >= 0,
        x <= 0 ==> remainder(x, m) <= 0,
{
    if x >= 0 {
        vstd::arithmetic::div_mod::lemma_fundamental_div_mod(x, m);
        vstd::arithmetic::div_mod::lemma_mod_bound(x, m);
        vstd::arithmetic::div_mod::lemma_mod_multiples_basic(x / m, m);
        assert(x - x % m == (x / m) * m) by (nonlinear_arith)
            requires
                x == m * (x / m) + x % m,
        ;
    } else {
        let y = -x;
        vstd::arithmetic::div_mod::lemma_fundamental_div_mod(y, m);
        vstd::arithmetic::div_mod::lemma_mod_bound(y, m);
        vstd::arithmetic::div_mod::lemma_mod_multiples_basic(-(y / m), m);
        assert(x + y % m == (-(y / m)) * m) by (nonlinear_arith)
            requires
                x == -y,
                y == m * (y / m) + y % m,
        ;
    }
}

/// The times of generated columns: one day for each number, from the base on, with the time zone of
/// the type.
pub proof fn law_generated_times(
    unit: TimeUnit,
    zone: Option<Seq<char>>,
    rows: usize,
    base: i32,
    i: int,
)
    requires
        values_fit(ArrowV::Timestamp(unit, zone), rows, base),
        0 <= i < rows,
    ensures
        generated(ArrowV::Timestamp(unit, zone), rows, base) matches ColumnV::TimestampMicrosecond(
            v,
            z,
        ) && z == zone && v.len() == rows && v[i] == (18000 + base + i) * 86_400_000_000,
{
}

/// Powers of ten.
pub proof fn law_powers_of_ten(n: nat)
    ensures
        power_of_ten(0) == 1,
        power_of_ten(n + 1) == 10 * power_of_ten(n),
{
}

/// The types that values are made for, one by one.
pub proof fn law_types_with_data(leaf: ArrowDataType, unit: TimeUnit, zone: Option<Seq<char>>)
    ensures
        is_supported(ArrowV::Leaf(leaf)) <==> {
            ||| leaf is Boolean
            ||| leaf is Int8 || leaf is Int16 || leaf is Int32 || leaf is Int64
            ||| leaf is Float16 || leaf is Float32 || leaf is Float64
            ||| leaf is Utf8 || leaf is Binary || leaf is Date32
            ||| leaf matches ArrowDataType::Decimal128(precision, scale) && precision >= 1
                && precision <= 38 && scale >= 0 && scale <= precision
        },
        is_supported(ArrowV::Timestamp(unit, zone)) <==> unit == TimeUnit::Microsecond,
{
}

} // verus!
