//! Primitive data types, and their names in schema text.
use vstd::prelude::*;

use crate::error::{DeltaResult, Error};
use crate::text::{cat2, cat3, chars_of, owned, text_eq, text_of, u64_text};

#[allow(unused_imports)]
use crate::error::ErrorV;
#[allow(unused_imports)]
use crate::text::nat_text;

verus! {

/// A decimal type: at most 38 digits, of which at most all stand behind the point.
#[derive(Clone, Copy, Debug, PartialEq, Eq, Structural)]
pub struct DecimalType {
    pub(crate) precision: u8,
    pub(crate) scale: u8,
}

/// Whether a decimal type can have this precision and scale.
pub open spec fn valid_decimal(precision: u8, scale: u8) -> bool {
    0 < precision <= 38 && scale <= precision
}

/// The text of the error for a precision and scale that no decimal type has.
pub open spec fn decimal_error(precision: u8, scale: u8) -> Seq<char> {
    if 0 < precision <= 38 {
        "scale must be in range 0.."@ + nat_text(precision as nat) + " inclusive, found: "@
            + nat_text(scale as nat) + "."@
    } else {
        "precision must be in range 1..38 inclusive, found: "@ + nat_text(precision as nat) + "."@
    }
}

impl DecimalType {
    #[verifier::type_invariant]
    closed spec fn well_formed(self) -> bool {
        valid_decimal(self.precision, self.scale)
    }

    /// The number of digits.
    pub open(crate) spec fn digits(self) -> u8 {
        self.precision
    }

    /// The number of digits behind the point.
    pub open(crate) spec fn fraction_digits(self) -> u8 {
        self.scale
    }

    /// The decimal type of this precision and scale.
    pub open(crate) spec fn of(precision: u8, scale: u8) -> DecimalType {
        DecimalType { precision, scale }
    }

    /// The decimal type of the given precision and scale, where there is one.
    pub fn try_new(precision: u8, scale: u8) -> (r: DeltaResult<Self>)
        ensures
            match r {
                Ok(t) => valid_decimal(precision, scale) && t == DecimalType::of(precision, scale)
                    && t.digits() == precision && t.fraction_digits() == scale,
                Err(e) => !valid_decimal(precision, scale) && e@ == ErrorV::InvalidDecimal(
                    decimal_error(precision, scale),
                ),
            },
    {
        if !(0 < precision && precision <= 38) {
            return Err(
                Error::InvalidDecimal(
                    cat3(
                        "precision must be in range 1..38 inclusive, found: ",
                        u64_text(precision as u64).as_str(),
                        ".",
                    ),
                ),
            );
        }
        if !(scale <= precision) {
            return Err(
                Error::InvalidDecimal(
                    crate::text::cat5(
                        "scale must be in range 0..",
                        u64_text(precision as u64).as_str(),
                        " inclusive, found: ",
                        u64_text(scale as u64).as_str(),
                        ".",
                    ),
                ),
            );
        }
        Ok(DecimalType { precision, scale })
    }

    /// The number of digits.
    pub fn precision(&self) -> (r: u8)
        ensures
            r == self.digits(),
            0 < r <= 38,
    {
        proof {
            use_type_invariant(*self);
        }
        self.precision
    }

    /// The number of digits behind the point.
    pub fn scale(&self) -> (r: u8)
        ensures
            r == self.fraction_digits(),
            r <= self.digits(),
    {
        proof {
            use_type_invariant(*self);
        }
        self.scale
    }
}

/// A data type without parts.
#[derive(Clone, Copy, Debug, PartialEq, Eq, Structural)]
pub enum PrimitiveType {
    /// UTF-8 encoded string of characters
    String,
    /// i64: 8-byte signed integer. Range: -9223372036854775808 to 9223372036854775807
    Long,
    /// i32: 4-byte signed integer. Range: -2147483648 to 2147483647
    Integer,
    /// i16: 2-byte signed integer numbers. Range: -32768 to 32767
    Short,
    /// i8: 1-byte signed integer number. Range: -128 to 127
    Byte,
    /// f16: 2-byte half-precision floating-point numbers
    Float16,
    /// f32: 4-byte single-precision floating-point numbers
    Float,
    /// f64: 8-byte double-precision floating-point numbers
    Double,
    /// bool: boolean values
    Boolean,
    /// Bytes
    Binary,
    /// Days since the epoch
    Date,
    /// Microsecond precision timestamp, adjusted to UTC.
    Timestamp,
    /// Microsecond precision timestamp without time zone
    TimestampNtz,
    /// Decimal number of fixed precision and scale
    Decimal(DecimalType),
}

/// The order of the integer types by width; `None` for every other type.
pub open spec fn integer_rank(t: PrimitiveType) -> Option<int> {
    match t {
        PrimitiveType::Byte => Some(0),
        PrimitiveType::Short => Some(1),
        PrimitiveType::Integer => Some(2),
        PrimitiveType::Long => Some(3),
        _ => None,
    }
}

/// The order of the floating point types by width; `None` for every other type.
pub open spec fn float_rank(t: PrimitiveType) -> Option<int> {
    match t {
        PrimitiveType::Float16 => Some(0),
        PrimitiveType::Float => Some(1),
        PrimitiveType::Double => Some(2),
        _ => None,
    }
}

/// Whether values of type `from` can be read as values of type `to`: a wider integer or floating
/// point type, or the other one of the two timestamp types.
pub open spec fn widens(from: PrimitiveType, to: PrimitiveType) -> bool {
    ||| integer_rank(from) is Some && integer_rank(to) is Some && integer_rank(from)->0
        < integer_rank(to)->0
    ||| float_rank(from) is Some && float_rank(to) is Some && float_rank(from)->0 < float_rank(
        to,
    )->0
    ||| from is Timestamp && to is TimestampNtz
    ||| from is TimestampNtz && to is Timestamp
}

/// Whether `from` is the bare integer type that stores values of the date or timestamp type `to`.
pub open spec fn stored_without_annotation(from: PrimitiveType, to: PrimitiveType) -> bool {
    ||| from is Integer && to is Date
    ||| from is Long && (to is Timestamp || to is TimestampNtz)
}

/// Widening in several steps is widening in one: what can be read as a type that can be read as a
/// third one can be read as the third one, unless that leads back to where it started.
pub proof fn law_widening_steps_add_up(a: PrimitiveType, b: PrimitiveType, c: PrimitiveType)
    requires
        widens(a, b),
        widens(b, c),
        a != c,
    ensures
        widens(a, c),
{
}

/// Widening goes one way, and never from a type to itself. The two timestamp types alone can be
/// read as each other.
pub proof fn law_widening_goes_one_way(a: PrimitiveType, b: PrimitiveType)
    requires
        widens(a, b),
    ensures
        a != b,
        widens(b, a) ==> (a is Timestamp || a is TimestampNtz) && (b is Timestamp || b
            is TimestampNtz),
{
}

/// Whether columns of statistics of type `from` can be read as those of type `to`.
pub open spec fn stats_compatible(from: PrimitiveType, to: PrimitiveType) -> bool {
    from == to || widens(from, to) || stored_without_annotation(from, to)
}

/// Compatibility of statistics is wider than widening: it has all of it, the same types, and what
/// some checkpoint writers store as bare integers, which is no widening.
pub proof fn law_stats_compatibility_is_wider(a: PrimitiveType, b: PrimitiveType)
    ensures
        widens(a, b) ==> stats_compatible(a, b),
        stats_compatible(a, a),
        stored_without_annotation(a, b) ==> stats_compatible(a, b) && !widens(a, b),
{
}

/// The name of a primitive type in schema text.
pub open spec fn primitive_text(t: PrimitiveType) -> Seq<char> {
    match t {
        PrimitiveType::String => "string"@,
        PrimitiveType::Long => "long"@,
        PrimitiveType::Integer => "integer"@,
        PrimitiveType::Short => "short"@,
        PrimitiveType::Byte => "byte"@,
        PrimitiveType::Float16 => "float16"@,
        PrimitiveType::Float => "float"@,
        PrimitiveType::Double => "double"@,
        PrimitiveType::Boolean => "boolean"@,
        PrimitiveType::Binary => "binary"@,
        PrimitiveType::Date => "date"@,
        PrimitiveType::Timestamp => "timestamp"@,
        PrimitiveType::TimestampNtz => "timestamp_ntz"@,
        PrimitiveType::Decimal(d) => "decimal("@ + nat_text(d.digits() as nat) + ","@ + nat_text(
            d.fraction_digits() as nat,
        ) + ")"@,
    }
}

/// The primitive types that have a fixed name.
pub open spec fn named_primitive(name: Seq<char>) -> Option<PrimitiveType> {
    if name == "string"@ {
        Some(PrimitiveType::String)
    } else if name == "long"@ {
        Some(PrimitiveType::Long)
    } else if name == "integer"@ {
        Some(PrimitiveType::Integer)
    } else if name == "short"@ {
        Some(PrimitiveType::Short)
    } else if name == "byte"@ {
        Some(PrimitiveType::Byte)
    } else if name == "float16"@ {
        Some(PrimitiveType::Float16)
    } else if name == "float"@ {
        Some(PrimitiveType::Float)
    } else if name == "double"@ {
        Some(PrimitiveType::Double)
    } else if name == "boolean"@ {
        Some(PrimitiveType::Boolean)
    } else if name == "binary"@ {
        Some(PrimitiveType::Binary)
    } else if name == "date"@ {
        Some(PrimitiveType::Date)
    } else if name == "timestamp"@ {
        Some(PrimitiveType::Timestamp)
    } else if name == "timestamp_ntz"@ {
        Some(PrimitiveType::TimestampNtz)
    } else {
        None
    }
}

/// The white space characters of Unicode.
pub open spec fn is_white(c: char) -> bool {
    ||| '\u{9}' <= c <= '\u{d}'
    ||| c == ' '
    ||| c == '\u{85}'
    ||| c == '\u{a0}'
    ||| c == '\u{1680}'
    ||| '\u{2000}' <= c <= '\u{200a}'
    ||| c == '\u{2028}'
    ||| c == '\u{2029}'
    ||| c == '\u{202f}'
    ||| c == '\u{205f}'
    ||| c == '\u{3000}'
}

/// Text without the white space at its start.
pub open spec fn trim_start(s: Seq<char>) -> Seq<char>
    decreases s.len(),
{
    if s.len() > 0 && is_white(s[0]) {
        trim_start(s.skip(1))
    } else {
        s
    }
}

/// Text without the white space at its end.
pub open spec fn trim_end(s: Seq<char>) -> Seq<char>
    decreases s.len(),
{
    if s.len() > 0 && is_white(s.last()) {
        trim_end(s.drop_last())
    } else {
        s
    }
}

/// Text without the white space at its two ends.
pub open spec fn trimmed(s: Seq<char>) -> Seq<char> {
    trim_end(trim_start(s))
}

/// The number that decimal digits stand for; `None` where there are none or another character is
/// among them.
pub open spec fn digits_value(s: Seq<char>) -> Option<nat>
    decreases s.len(),
{
    if s.len() == 0 || !('0' <= s.last() <= '9') {
        None
    } else {
        let last = (s.last() as int - 48) as nat;
        if s.len() == 1 {
            Some(last)
        } else {
            match digits_value(s.drop_last()) {
                Some(v) => Some(10 * v + last),
                None => None,
            }
        }
    }
}

/// A number below 256 in decimal, with an optional plus sign in front.
pub open spec fn u8_value(s: Seq<char>) -> Option<u8> {
    let digits = if s.len() > 0 && s[0] == '+' {
        s.skip(1)
    } else {
        s
    };
    match digits_value(digits) {
        Some(v) => if v <= 255 {
            Some(v as u8)
        } else {
            None
        },
        None => None,
    }
}

/// The pieces of a text between the commas in it.
pub open spec fn comma_parts(s: Seq<char>) -> Seq<Seq<char>>
    decreases s.len(),
{
    if s.len() == 0 {
        seq![seq![]]
    } else {
        let before = comma_parts(s.drop_last());
        if s.last() == ',' {
            before.push(seq![])
        } else {
            before.drop_last().push(before.last().push(s.last()))
        }
    }
}

/// Whether a text has the shape of a decimal type's name.
pub open spec fn looks_decimal(name: Seq<char>) -> bool {
    &&& name.len() >= 9
    &&& name.take(8) == "decimal("@
    &&& name.last() == ')'
}

/// The decimal type that a text of that shape names, or what is wrong with it.
pub open spec fn decimal_named(name: Seq<char>) -> Result<PrimitiveType, Seq<char>> {
    let parts = comma_parts(name.subrange(8, name.len() - 1));
    match u8_value(trimmed(parts[0])) {
        None => Err("Invalid precision in decimal: "@ + name),
        Some(precision) => if parts.len() < 2 || u8_value(trimmed(parts[1])) is None {
            Err("Invalid scale in decimal: "@ + name)
        } else {
            let scale = u8_value(trimmed(parts[1]))->0;
            if parts.len() > 2 {
                Err("Invalid decimal format (expected 2 parts): "@ + name)
            } else if valid_decimal(precision, scale) {
                Ok(PrimitiveType::Decimal(DecimalType::of(precision, scale)))
            } else {
                Err(decimal_error(precision, scale))
            }
        },
    }
}

/// The primitive type that a name in schema text stands for, or what is wrong with the name.
pub open spec fn primitive_named(name: Seq<char>) -> Result<PrimitiveType, Seq<char>> {
    match named_primitive(name) {
        Some(t) => Ok(t),
        None => if looks_decimal(name) {
            decimal_named(name)
        } else {
            Err("Unsupported Delta table type: '"@ + name + "'"@)
        },
    }
}

proof fn lemma_comma_parts(s: Seq<char>)
    ensures
        comma_parts(s).len() > 0,
    decreases s.len(),
{
    if s.len() > 0 {
        lemma_comma_parts(s.drop_last());
    }
}

/// Splits a text at its commas.
fn split_commas(chars: &Vec<char>) -> (r: Vec<Vec<char>>)
    ensures
        r@.len() == comma_parts(chars@).len(),
        forall|i: int| 0 <= i < r@.len() ==> #[trigger] r@[i]@ == comma_parts(chars@)[i],
        r@.len() > 0,
{
    let mut done: Vec<Vec<char>> = Vec::new();
    let mut part: Vec<char> = Vec::new();
    let mut i: usize = 0;
    assert(chars@.take(0) =~= seq![]);
    while i < chars.len()
        invariant
            i <= chars.len(),
            done@.len() + 1 == comma_parts(chars@.take(i as int)).len(),
            forall|j: int|
                0 <= j < done@.len() ==> #[trigger] done@[j]@ == comma_parts(
                    chars@.take(i as int),
                )[j],
            part@ == comma_parts(chars@.take(i as int)).last(),
        decreases chars.len() - i,
    {
        assert(chars@.take(i + 1).drop_last() =~= chars@.take(i as int));
        let c = chars[i];
        if c == ',' {
            done.push(part);
            part = Vec::new();
            assert(part@ =~= seq![]);
        } else {
            part.push(c);
        }
        i = i + 1;
    }
    assert(chars@.take(i as int) =~= chars@);
    done.push(part);
    done
}

fn white(c: char) -> (r: bool)
    ensures
        r == is_white(c),
{
    ('\u{9}' <= c && c <= '\u{d}') || c == ' ' || c == '\u{85}' || c == '\u{a0}' || c == '\u{1680}'
        || ('\u{2000}' <= c && c <= '\u{200a}') || c == '\u{2028}' || c == '\u{2029}' || c
        == '\u{202f}' || c == '\u{205f}' || c == '\u{3000}'
}

/// Where a text starts and ends without the white space around it.
fn trim_range(s: &Vec<char>) -> (r: (usize, usize))
    ensures
        r.0 <= r.1 <= s@.len(),
        s@.subrange(r.0 as int, r.1 as int) == trimmed(s@),
{
    let mut from: usize = 0;
    assert(s@.skip(0) =~= s@);
    while from < s.len() && white(s[from])
        invariant
            from <= s@.len(),
            trim_start(s@) == trim_start(s@.skip(from as int)),
        decreases s@.len() - from,
    {
        assert(s@.skip(from as int).skip(1) =~= s@.skip(from + 1));
        from = from + 1;
    }
    assert(trim_start(s@) == s@.skip(from as int));
    let mut to: usize = s.len();
    assert(s@.subrange(from as int, to as int) =~= s@.skip(from as int));
    while from < to && white(s[to - 1])
        invariant
            from <= to <= s@.len(),
            trimmed(s@) == trim_end(s@.subrange(from as int, to as int)),
        decreases to,
    {
        assert(s@.subrange(from as int, to as int).drop_last() =~= s@.subrange(
            from as int,
            to - 1,
        ));
        to = to - 1;
    }
    (from, to)
}

/// Reads a number below 256.
fn parse_u8(s: &Vec<char>, from: usize, to: usize) -> (r: Option<u8>)
    requires
        from <= to <= s@.len(),
    ensures
        r == u8_value(s@.subrange(from as int, to as int)),
{
    let ghost all = s@.subrange(from as int, to as int);
    let mut start: usize = from;
    if from < to && s[from] == '+' {
        start = from + 1;
    }
    let ghost digits = s@.subrange(start as int, to as int);
    assert(digits =~= if all.len() > 0 && all[0] == '+' {
        all.skip(1)
    } else {
        all
    });
    if start == to {
        return None;
    }
    let mut value: u32 = 0;
    let mut large: bool = false;
    let mut i: usize = start;
    while i < to
        invariant
            start <= i <= to <= s@.len(),
            digits == s@.subrange(start as int, to as int),
            all == s@.subrange(from as int, to as int),
            digits == if all.len() > 0 && all[0] == '+' {
                all.skip(1)
            } else {
                all
            },
            i > start ==> digits_value(digits.take(i - start)) is Some,
            i > start && !large ==> digits_value(digits.take(i - start)) == Some(value as nat),
            i > start && large ==> digits_value(digits.take(i - start))->0 > 255,
            i == start ==> value == 0 && !large,
            value <= 255,
        decreases to - i,
    {
        let c = s[i];
        let ghost next = digits.take(i - start + 1);
        assert(next.drop_last() =~= digits.take(i - start));
        assert(next.last() == c);
        if !('0' <= c && c <= '9') {
            proof {
                lemma_not_digits(digits, i - start);
            }
            return None;
        }
        let d: u32 = c as u32 - 48;
        if !large {
            let sum: u32 = 10 * value + d;
            if sum <= 255 {
                value = sum;
            } else {
                large = true;
            }
        }
        i = i + 1;
    }
    assert(digits.take(to - start) =~= digits);
    if large {
        None
    } else {
        Some(value as u8)
    }
}

proof fn lemma_not_digits(s: Seq<char>, i: int)
    requires
        0 <= i < s.len(),
        !('0' <= s[i] <= '9'),
    ensures
        digits_value(s) is None,
    decreases s.len(),
{
    if i < s.len() - 1 {
        lemma_not_digits(s.drop_last(), i);
    }
}

fn parse_part(part: &Vec<char>) -> (r: Option<u8>)
    ensures
        r == u8_value(trimmed(part@)),
{
    let (from, to) = trim_range(part);
    parse_u8(part, from, to)
}

fn parse_decimal(name: &str, chars: &Vec<char>) -> (r: DeltaResult<PrimitiveType>)
    requires
        chars@ == name@,
        looks_decimal(name@),
    ensures
        match r {
            Ok(t) => decimal_named(name@) == Ok::<PrimitiveType, Seq<char>>(t),
            Err(e) => e@ is Json && decimal_named(name@) == Err::<PrimitiveType, Seq<char>>(
                e@.text(),
            ),
        },
{
    let mut inner: Vec<char> = Vec::new();
    let mut i: usize = 8;
    while i < chars.len() - 1
        invariant
            8 <= i <= chars@.len() - 1,
            inner@ == chars@.subrange(8, i as int),
        decreases chars.len() - i,
    {
        inner.push(chars[i]);
        assert(inner@ =~= chars@.subrange(8, i + 1));
        i = i + 1;
    }
    let parts = split_commas(&inner);
    let precision = match parse_part(&parts[0]) {
        Some(p) => p,
        None => {
            return Err(Error::Json(cat2("Invalid precision in decimal: ", name)));
        },
    };
    if parts.len() < 2 {
        return Err(Error::Json(cat2("Invalid scale in decimal: ", name)));
    }
    let scale = match parse_part(&parts[1]) {
        Some(s) => s,
        None => {
            return Err(Error::Json(cat2("Invalid scale in decimal: ", name)));
        },
    };
    if parts.len() > 2 {
        return Err(Error::Json(cat2("Invalid decimal format (expected 2 parts): ", name)));
    }
    match DecimalType::try_new(precision, scale) {
        Ok(t) => Ok(PrimitiveType::Decimal(t)),
        Err(e) => Err(Error::Json(owned(e.text()))),
    }
}

fn parse_named(name: &str) -> (r: Option<PrimitiveType>)
    ensures
        r == named_primitive(name@),
{
    if text_eq(name, "string") {
        Some(PrimitiveType::String)
    } else if text_eq(name, "long") {
        Some(PrimitiveType::Long)
    } else if text_eq(name, "integer") {
        Some(PrimitiveType::Integer)
    } else if text_eq(name, "short") {
        Some(PrimitiveType::Short)
    } else if text_eq(name, "byte") {
        Some(PrimitiveType::Byte)
    } else if text_eq(name, "float16") {
        Some(PrimitiveType::Float16)
    } else if text_eq(name, "float") {
        Some(PrimitiveType::Float)
    } else if text_eq(name, "double") {
        Some(PrimitiveType::Double)
    } else if text_eq(name, "boolean") {
        Some(PrimitiveType::Boolean)
    } else if text_eq(name, "binary") {
        Some(PrimitiveType::Binary)
    } else if text_eq(name, "date") {
        Some(PrimitiveType::Date)
    } else if text_eq(name, "timestamp") {
        Some(PrimitiveType::Timestamp)
    } else if text_eq(name, "timestamp_ntz") {
        Some(PrimitiveType::TimestampNtz)
    } else {
        None
    }
}

impl PrimitiveType {
    /// The decimal type of the given precision and scale, where there is one.
    pub fn decimal(precision: u8, scale: u8) -> (r: DeltaResult<Self>)
        ensures
            match r {
                Ok(t) => valid_decimal(precision, scale) && t == PrimitiveType::Decimal(
                    DecimalType::of(precision, scale),
                ),
                Err(e) => !valid_decimal(precision, scale) && e@ == ErrorV::InvalidDecimal(
                    decimal_error(precision, scale),
                ),
            },
    {
        match DecimalType::try_new(precision, scale) {
            Ok(t) => Ok(PrimitiveType::Decimal(t)),
            Err(e) => Err(e),
        }
    }

    /// Whether values of this type can be read as values of the `target` type.
    ///
    /// - Integer widening: byte -> short -> int -> long
    /// - Float widening: float16 -> float -> double
    /// - Timestamp <-> TimestampNtz: both are microseconds since the epoch
    pub fn can_widen_to(&self, target: &Self) -> (r: bool)
        ensures
            r == widens(*self, *target),
    {
        match (self, target) {
            (
                PrimitiveType::Byte,
                PrimitiveType::Short | PrimitiveType::Integer | PrimitiveType::Long,
            ) => true,
            (PrimitiveType::Short, PrimitiveType::Integer | PrimitiveType::Long) => true,
            (PrimitiveType::Integer, PrimitiveType::Long) => true,
            (PrimitiveType::Float16, PrimitiveType::Float | PrimitiveType::Double) => true,
            (PrimitiveType::Float, PrimitiveType::Double) => true,
            (PrimitiveType::Timestamp, PrimitiveType::TimestampNtz) => true,
            (PrimitiveType::TimestampNtz, PrimitiveType::Timestamp) => true,
            _ => false,
        }
    }

    /// Whether this is the bare integer type that some checkpoint writers use for the date or
    /// timestamp type `target`, leaving out the annotation.
    pub fn is_checkpoint_cast_compatible(&self, target: &Self) -> (r: bool)
        ensures
            r == stored_without_annotation(*self, *target),
    {
        match (self, target) {
            (PrimitiveType::Integer, PrimitiveType::Date) => true,
            (PrimitiveType::Long, PrimitiveType::Timestamp | PrimitiveType::TimestampNtz) => true,
            _ => false,
        }
    }

    /// Whether statistics that a checkpoint stores in this type can be read as `target`.
    pub fn is_stats_type_compatible_with(&self, target: &Self) -> (r: bool)
        ensures
            r == stats_compatible(*self, *target),
    {
        *self == *target || self.can_widen_to(target) || self.is_checkpoint_cast_compatible(target)
    }

    /// The name of the type in schema text.
    pub fn text(&self) -> (r: String)
        ensures
            r@ == primitive_text(*self),
    {
        match self {
            PrimitiveType::String => owned("string"),
            PrimitiveType::Long => owned("long"),
            PrimitiveType::Integer => owned("integer"),
            PrimitiveType::Short => owned("short"),
            PrimitiveType::Byte => owned("byte"),
            PrimitiveType::Float16 => owned("float16"),
            PrimitiveType::Float => owned("float"),
            PrimitiveType::Double => owned("double"),
            PrimitiveType::Boolean => owned("boolean"),
            PrimitiveType::Binary => owned("binary"),
            PrimitiveType::Date => owned("date"),
            PrimitiveType::Timestamp => owned("timestamp"),
            PrimitiveType::TimestampNtz => owned("timestamp_ntz"),
            PrimitiveType::Decimal(d) => crate::text::cat5(
                "decimal(",
                u64_text(d.precision() as u64).as_str(),
                ",",
                u64_text(d.scale() as u64).as_str(),
                ")",
            ),
        }
    }

    /// The type that a name in schema text stands for.
    pub fn parse(name: &str) -> (r: DeltaResult<Self>)
        ensures
            match r {
                Ok(t) => primitive_named(name@) == Ok::<PrimitiveType, Seq<char>>(t),
                Err(e) => e@ is Json && primitive_named(name@) == Err::<PrimitiveType, Seq<char>>(
                    e@.text(),
                ),
            },
    {
        if let Some(t) = parse_named(name) {
            return Ok(t);
        }
        let chars = chars_of(name);
        if chars.len() >= 9 {
            let head = text_of(&chars, 0, 8);
            assert(chars@.subrange(0, 8) =~= name@.take(8));
            if text_eq(head.as_str(), "decimal(") && chars[chars.len() - 1] == ')' {
                return parse_decimal(name, &chars);
            }
        }
        Err(Error::Json(cat3("Unsupported Delta table type: '", name, "'")))
    }
}

impl From<DecimalType> for PrimitiveType {
    fn from(dtype: DecimalType) -> (r: Self) {
        PrimitiveType::Decimal(dtype)
    }
}

impl vstd::std_specs::convert::FromSpecImpl<DecimalType> for PrimitiveType {
    open spec fn obeys_from_spec() -> bool {
        true
    }

    open spec fn from_spec(dtype: DecimalType) -> PrimitiveType {
        PrimitiveType::Decimal(dtype)
    }
}

} // verus!
