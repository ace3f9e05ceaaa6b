//! The smallest and the largest value of a column.
use crate::calendar;
use crate::text;
use crate::write::columns::{
    ColumnField, ColumnType, Float16Bits, Float32Bits, Float64Bits, TimeUnit,
};
use crate::write::columns;
use vstd::prelude::*;

verus! {

/// Which extreme of a column is asked for.
#[derive(Clone, Copy, PartialEq, Eq, Structural, Debug)]
pub enum Extremum {
    Min,
    Max,
}

// ---------------------------------------------------------------------------
// Values in order
// ---------------------------------------------------------------------------

/// A value in an order: equal places are equal to the order. A value that is no number has no place,
/// and comes neither before nor behind any value.
pub trait OrderedValue: Sized + Copy {
    /// Whether the value has a place.
    spec fn placed(self) -> bool;

    /// The place of the value, where it has one.
    spec fn rank(self) -> int;

    /// Whether the value comes before another one.
    fn precedes(self, other: Self) -> (b: bool)
        ensures
            b == (self.placed() && other.placed() && self.rank() < other.rank()),
    ;
}

/// Whether a value comes before another one: both have a place, and its own is the lower one.
pub open spec fn comes_before<T: OrderedValue>(a: T, b: T) -> bool {
    a.placed() && b.placed() && a.rank() < b.rank()
}

impl OrderedValue for i8 {
    open spec fn placed(self) -> bool {
        true
    }

    open spec fn rank(self) -> int {
        self as int
    }

    fn precedes(self, other: i8) -> (b: bool) {
        self < other
    }
}

impl OrderedValue for i16 {
    open spec fn placed(self) -> bool {
        true
    }

    open spec fn rank(self) -> int {
        self as int
    }

    fn precedes(self, other: i16) -> (b: bool) {
        self < other
    }
}

impl OrderedValue for i32 {
    open spec fn placed(self) -> bool {
        true
    }

    open spec fn rank(self) -> int {
        self as int
    }

    fn precedes(self, other: i32) -> (b: bool) {
        self < other
    }
}

impl OrderedValue for i64 {
    open spec fn placed(self) -> bool {
        true
    }

    open spec fn rank(self) -> int {
        self as int
    }

    fn precedes(self, other: i64) -> (b: bool) {
        self < other
    }
}

impl OrderedValue for i128 {
    open spec fn placed(self) -> bool {
        true
    }

    open spec fn rank(self) -> int {
        self as int
    }

    fn precedes(self, other: i128) -> (b: bool) {
        self < other
    }
}

impl OrderedValue for u8 {
    open spec fn placed(self) -> bool {
        true
    }

    open spec fn rank(self) -> int {
        self as int
    }

    fn precedes(self, other: u8) -> (b: bool) {
        self < other
    }
}

impl OrderedValue for u16 {
    open spec fn placed(self) -> bool {
        true
    }

    open spec fn rank(self) -> int {
        self as int
    }

    fn precedes(self, other: u16) -> (b: bool) {
        self < other
    }
}

impl OrderedValue for u32 {
    open spec fn placed(self) -> bool {
        true
    }

    open spec fn rank(self) -> int {
        self as int
    }

    fn precedes(self, other: u32) -> (b: bool) {
        self < other
    }
}

impl OrderedValue for u64 {
    open spec fn placed(self) -> bool {
        true
    }

    open spec fn rank(self) -> int {
        self as int
    }

    fn precedes(self, other: u64) -> (b: bool) {
        self < other
    }
}

/// A value of floating point: a number, or none.
pub trait FloatValue: OrderedValue {
    /// Whether the value is no number.
    fn is_nan(self) -> (b: bool)
        ensures
            b == !self.placed(),
    ;
}

impl OrderedValue for Float16Bits {
    /// A number has a place. Of any other value the exponent has all its bits, and the fraction is
    /// not zero.
    open spec fn placed(self) -> bool {
        self.0 % 0x8000 <= 0x7c00
    }

    /// The bits behind the sign as a number, with the sign: both zeros have one place, and numbers
    /// have the places of their values.
    open spec fn rank(self) -> int {
        if self.0 < 0x8000 {
            self.0 as int
        } else {
            0x8000 - self.0
        }
    }

    fn precedes(self, other: Float16Bits) -> (b: bool) {
        let a: i32 = if self.0 < 0x8000 {
            self.0 as i32
        } else {
            0x8000 - self.0 as i32
        };
        let b: i32 = if other.0 < 0x8000 {
            other.0 as i32
        } else {
            0x8000 - other.0 as i32
        };
        self.0 % 0x8000 <= 0x7c00 && other.0 % 0x8000 <= 0x7c00 && a < b
    }
}

impl FloatValue for Float16Bits {
    fn is_nan(self) -> (b: bool) {
        self.0 % 0x8000 > 0x7c00
    }
}

impl OrderedValue for Float32Bits {
    /// A number has a place. Of any other value the exponent has all its bits, and the fraction is
    /// not zero.
    open spec fn placed(self) -> bool {
        self.0 % 0x8000_0000 <= 0x7f80_0000
    }

    /// The bits behind the sign as a number, with the sign: both zeros have one place, and numbers
    /// have the places of their values.
    open spec fn rank(self) -> int {
        if self.0 < 0x8000_0000 {
            self.0 as int
        } else {
            0x8000_0000 - self.0
        }
    }

    fn precedes(self, other: Float32Bits) -> (b: bool) {
        let a: i64 = if self.0 < 0x8000_0000 {
            self.0 as i64
        } else {
            0x8000_0000 - self.0 as i64
        };
        let b: i64 = if other.0 < 0x8000_0000 {
            other.0 as i64
        } else {
            0x8000_0000 - other.0 as i64
        };
        self.0 % 0x8000_0000 <= 0x7f80_0000 && other.0 % 0x8000_0000 <= 0x7f80_0000 && a < b
    }
}

impl FloatValue for Float32Bits {
    fn is_nan(self) -> (b: bool) {
        self.0 % 0x8000_0000 > 0x7f80_0000
    }
}

impl OrderedValue for Float64Bits {
    /// A number has a place. Of any other value the exponent has all its bits, and the fraction is
    /// not zero.
    open spec fn placed(self) -> bool {
        self.0 % 0x8000_0000_0000_0000 <= 0x7ff0_0000_0000_0000
    }

    /// The bits behind the sign as a number, with the sign: both zeros have one place, and numbers
    /// have the places of their values.
    open spec fn rank(self) -> int {
        if self.0 < 0x8000_0000_0000_0000 {
            self.0 as int
        } else {
            0x8000_0000_0000_0000 - self.0
        }
    }

    fn precedes(self, other: Float64Bits) -> (b: bool) {
        let a: i128 = if self.0 < 0x8000_0000_0000_0000 {
            self.0 as i128
        } else {
            0x8000_0000_0000_0000 - self.0 as i128
        };
        let b: i128 = if other.0 < 0x8000_0000_0000_0000 {
            other.0 as i128
        } else {
            0x8000_0000_0000_0000 - other.0 as i128
        };
        self.0 % 0x8000_0000_0000_0000 <= 0x7ff0_0000_0000_0000 && other.0 % 0x8000_0000_0000_0000 <= 0x7ff0_0000_0000_0000
            && a < b
    }
}

impl FloatValue for Float64Bits {
    fn is_nan(self) -> (b: bool) {
        self.0 % 0x8000_0000_0000_0000 > 0x7ff0_0000_0000_0000
    }
}

// ---------------------------------------------------------------------------
// The extreme of values
// ---------------------------------------------------------------------------

/// Whether a candidate takes the place of the extreme so far.
pub open spec fn replaces<T: OrderedValue>(current: Option<T>, candidate: T, op: Extremum) -> bool {
    match current {
        None => true,
        Some(found) => match op {
            Extremum::Min => comes_before(candidate, found),
            Extremum::Max => comes_before(found, candidate),
        },
    }
}

/// The extreme of values, `current` being the extreme before them.
pub open spec fn extreme<T: OrderedValue>(current: Option<T>, values: Seq<T>, op: Extremum) -> Option<
    T,
>
    decreases values.len(),
{
    if values.len() == 0 {
        current
    } else {
        let before = extreme(current, values.drop_last(), op);
        if replaces(before, values.last(), op) {
            Some(values.last())
        } else {
            before
        }
    }
}

/// The values of a column that are not null.
pub open spec fn present<T>(values: Seq<Option<T>>) -> Seq<T>
    decreases values.len(),
{
    if values.len() == 0 {
        seq![]
    } else {
        match values.last() {
            Some(value) => present(values.drop_last()).push(value),
            None => present(values.drop_last()),
        }
    }
}

/// The values of a column that are numbers.
pub open spec fn present_numbers<T: FloatValue>(values: Seq<Option<T>>) -> Seq<T>
    decreases values.len(),
{
    if values.len() == 0 {
        seq![]
    } else {
        match values.last() {
            Some(value) => if !value.placed() {
                present_numbers(values.drop_last())
            } else {
                present_numbers(values.drop_last()).push(value)
            },
            None => present_numbers(values.drop_last()),
        }
    }
}

/// Whether a candidate takes the place of the extreme so far.
pub fn should_replace<T: OrderedValue>(current: Option<T>, candidate: T, op: Extremum) -> (b: bool)
    ensures
        b == replaces(current, candidate, op),
{
    match current {
        None => true,
        Some(found) => match op {
            Extremum::Min => candidate.precedes(found),
            Extremum::Max => found.precedes(candidate),
        },
    }
}

/// The extreme of a column's values, `current` being the extreme before them. Nulls do not count.
pub fn update_ord<T: OrderedValue>(current: Option<T>, values: &[Option<T>], op: Extremum) -> (r:
    Option<T>)
    ensures
        r == extreme(current, present(values@), op),
{
    let mut r: Option<T> = current;
    for i in 0..values.len()
        invariant
            r == extreme(current, present(values@.take(i as int)), op),
    {
        let ghost front = present(values@.take(i as int));
        assert(values@.take(i + 1).drop_last() =~= values@.take(i as int));
        if let Some(value) = values[i] {
            assert(front.push(value).drop_last() =~= front);
            if should_replace(r, value, op) {
                r = Some(value);
            }
        }
    }
    assert(values@.take(values@.len() as int) =~= values@);
    r
}

/// The extreme of a column's numbers, `current` being the extreme before them. Nulls and values
/// that are no numbers do not count.
pub fn update_float<T: FloatValue>(current: Option<T>, values: &[Option<T>], op: Extremum) -> (r:
    Option<T>)
    ensures
        r == extreme(current, present_numbers(values@), op),
{
    let mut r: Option<T> = current;
    for i in 0..values.len()
        invariant
            r == extreme(current, present_numbers(values@.take(i as int)), op),
    {
        let ghost front = present_numbers(values@.take(i as int));
        assert(values@.take(i + 1).drop_last() =~= values@.take(i as int));
        if let Some(value) = values[i] {
            if !value.is_nan() {
                assert(front.push(value).drop_last() =~= front);
                if should_replace(r, value, op) {
                    r = Some(value);
                }
            }
        }
    }
    assert(values@.take(values@.len() as int) =~= values@);
    r
}

// ---------------------------------------------------------------------------
// Values as text
// ---------------------------------------------------------------------------

/// `0` written `n` times.
pub open spec fn zeros(n: nat) -> Seq<char> {
    Seq::new(n, |i: int| '0')
}

/// The last `n` digits of a number.
pub open spec fn last_digits(value: nat, n: nat) -> Seq<char>
    decreases n,
{
    if n == 0 {
        seq![]
    } else {
        last_digits(value / 10, (n - 1) as nat).push(text::digit(value % 10))
    }
}

/// A number without its sign.
pub open spec fn magnitude(value: int) -> nat {
    if value < 0 {
        (-value) as nat
    } else {
        value as nat
    }
}

/// The sign of a number: `-`, or nothing.
pub open spec fn sign(value: int) -> Seq<char> {
    if value < 0 {
        seq!['-']
    } else {
        seq![]
    }
}

/// A decimal number: `value` over ten to the power of `scale`. With a scale of zero or less the
/// number is whole.
pub open spec fn decimal128(value: int, scale: int) -> Seq<char> {
    if scale <= 0 {
        text::signed_decimal(value) + zeros((-scale) as nat)
    } else {
        let whole = magnitude(value) as int / vstd::arithmetic::power::pow(10, scale as nat);
        sign(value) + text::decimal(whole as nat) + seq!['.'] + last_digits(
            magnitude(value),
            scale as nat,
        )
    }
}

/// The digits of a number behind as many zeros as it takes for more than `scale` digits.
spec fn padded(value: nat, scale: nat) -> Seq<char> {
    let digits = text::decimal(value);
    if digits.len() <= scale {
        zeros((scale + 1 - digits.len()) as nat) + digits
    } else {
        digits
    }
}

proof fn padded_splits(value: nat, scale: nat)
    ensures
        vstd::arithmetic::power::pow(10, scale) > 0,
        padded(value, scale) == text::decimal(
            (value as int / vstd::arithmetic::power::pow(10, scale)) as nat,
        ) + last_digits(value, scale),
        last_digits(value, scale).len() == scale,
    decreases scale,
{
    let power = vstd::arithmetic::power::pow(10, scale);
    vstd::arithmetic::power::lemma_pow_positive(10, scale);
    if scale == 0 {
        vstd::arithmetic::power::lemma_pow0(10);
        assert(value as int / power == value) by (nonlinear_arith)
            requires
                power == 1,
        ;
        assert(text::decimal(value).len() > 0);
        assert(padded(value, scale) =~= text::decimal(value) + last_digits(value, scale));
    } else {
        let shorter = (scale - 1) as nat;
        padded_splits(value / 10, shorter);
        let lower = vstd::arithmetic::power::pow(10, shorter);
        assert(power == 10 * lower) by {
            reveal(vstd::arithmetic::power::pow);
        }
        vstd::arithmetic::div_mod::lemma_div_denominator(value as int, 10, lower);
        let digits = text::decimal(value);
        let front = text::decimal(value / 10);
        let last = text::digit(value % 10);
        assert(padded(value, scale) =~= padded(value / 10, shorter).push(last)) by {
            if value < 10 {
                assert(front =~= seq!['0']) by {
                    assert(text::digit(0) == '0');
                }
                assert(digits =~= seq![last]);
            } else {
                assert(digits == front.push(last));
            }
        }
        assert(padded(value, scale) =~= text::decimal((value as int / power) as nat) + last_digits(
            value,
            scale,
        ));
    }
}

fn push_zeros(s: &mut String, n: usize)
    ensures
        final(s)@ == old(s)@ + zeros(n as nat),
{
    let ghost before = s@;
    assert(before + zeros(0) =~= before);
    for i in 0..n
        invariant
            s@ == before + zeros(i as nat),
    {
        s.push('0');
        assert(s@ =~= before + zeros((i + 1) as nat));
    }
}

/// A decimal number: `value` over ten to the power of `scale`.
pub fn format_decimal128(value: i128, scale: i8) -> (s: String)
    requires
        scale != i8::MIN,
    ensures
        s@ == decimal128(value as int, scale as int),
{
    if scale <= 0 {
        let mut s = text::signed_decimal_text(value);
        push_zeros(&mut s, (-scale) as usize);
        return s;
    }
    let places: usize = scale as usize;
    let magnitude: u128 = if value < 0 {
        (-(value + 1)) as u128 + 1
    } else {
        value as u128
    };
    let digits = text::chars_of(text::decimal_text(magnitude).as_str());
    assert(digits@ == text::decimal(magnitude as nat));
    proof {
        padded_splits(magnitude as nat, places as nat);
    }
    let mut all = String::new();
    assert(all@ + zeros(0) =~= all@);
    if digits.len() <= places {
        push_zeros(&mut all, places + 1 - digits.len());
    }
    all.append(text::text_of(digits.as_slice()).as_str());
    assert(all@ =~= padded(magnitude as nat, places as nat));
    let chars = text::chars_of(all.as_str());
    let ghost whole = text::decimal(
        (magnitude as int / vstd::arithmetic::power::pow(10, places as nat)) as nat,
    );
    let ghost fraction = last_digits(magnitude as nat, places as nat);
    assert(chars@ == whole + fraction);
    let point: usize = chars.len() - places;
    assert(point == whole.len());

    let mut s = String::new();
    if value < 0 {
        s.push('-');
    }
    let ghost sign = s@;
    assert(sign =~= if value < 0 {
        seq!['-']
    } else {
        seq![]
    });
    for i in 0..chars.len()
        invariant
            chars@ == whole + fraction,
            point == whole.len(),
            point <= chars@.len(),
            i <= point ==> s@ == sign + whole.take(i as int),
            i > point ==> s@ == sign + whole + seq!['.'] + fraction.take(i - point),
    {
        if i == point {
            s.push('.');
            assert(whole.take(i as int) =~= whole);
            assert(s@ =~= sign + whole + seq!['.'] + fraction.take(0));
        }
        let ghost before = s@;
        s.push(chars[i]);
        if i < point {
            assert(s@ =~= sign + whole.take(i + 1));
        } else {
            assert(before == sign + whole + seq!['.'] + fraction.take(i - point));
            assert(s@ =~= sign + whole + seq!['.'] + fraction.take(i + 1 - point));
        }
    }
    assert(fraction.take(fraction.len() as int) =~= fraction);
    s
}

/// A text, or the error that a value of some kind is out of range.
pub open spec fn in_range(found: Option<Seq<char>>, kind: Seq<char>) -> Result<Seq<char>, Seq<char>> {
    match found {
        Some(s) => Ok(s),
        None => Err(kind + " value out of range"@),
    }
}

/// A text, or the error that a value of some kind is out of range.
pub fn text_in_range(found: Option<String>, kind: &str) -> (r: Result<String, String>)
    ensures
        text::outcome(r) == in_range(found.deep_view(), kind@),
{
    match found {
        Some(s) => Ok(s),
        None => {
            let mut message = kind.to_owned();
            message.append(" value out of range");
            Err(message)
        },
    }
}

/// The text of the day `days` days after 1970-01-01.
pub open spec fn date32(days: i32) -> Result<Seq<char>, Seq<char>> {
    in_range(calendar::day_in_pattern(days, calendar::DAY_PATTERN@), "date32"@)
}

/// The text of the day `days` days after 1970-01-01; fails where the calendar has no such day.
pub fn format_date32(days: i32) -> (r: Result<String, String>)
    ensures
        text::outcome(r) == date32(days),
        r is Ok <==> calendar::in_calendar(days as int),
{
    text_in_range(calendar::write_day(days, calendar::DAY_PATTERN), "date32")
}

/// The text of the day of a moment, in milliseconds after 1970-01-01.
pub open spec fn date64(millis: i64) -> Result<Seq<char>, Seq<char>> {
    in_range(calendar::milli_day_in_pattern(millis, calendar::DAY_PATTERN@), "date64"@)
}

/// The text of the day of a moment, in milliseconds after 1970-01-01; fails where the calendar has
/// no such day.
pub fn format_date64(millis: i64) -> (r: Result<String, String>)
    ensures
        text::outcome(r) == date64(millis),
        r is Ok <==> calendar::in_calendar(millis as int / 86_400_000),
{
    text_in_range(calendar::write_milli_day(millis, calendar::DAY_PATTERN), "date64")
}

/// The text of a moment, in microseconds after 1970-01-01.
pub open spec fn timestamp(micros: i64, has_tz: bool) -> Result<Seq<char>, Seq<char>> {
    if has_tz {
        in_range(calendar::micros_in_rfc3339(micros), "timestamp"@)
    } else {
        in_range(calendar::micros_in_pattern(micros, calendar::TIME_PATTERN@), "timestamp"@)
    }
}

/// The text of a moment, in microseconds after 1970-01-01, with a time zone or without; fails
/// where the calendar has no such day.
pub fn format_timestamp_micros(micros: i64, has_tz: bool) -> (r: Result<String, String>)
    ensures
        text::outcome(r) == timestamp(micros, has_tz),
        r is Ok <==> calendar::in_calendar(micros as int / 86_400_000_000),
{
    if has_tz {
        text_in_range(calendar::write_micros_rfc3339(micros), "timestamp")
    } else {
        text_in_range(calendar::write_micros(micros, calendar::TIME_PATTERN), "timestamp")
    }
}

/// The nearest `i64` to a number.
pub open spec fn saturated(n: int) -> i64 {
    if n > i64::MAX {
        i64::MAX
    } else if n < i64::MIN {
        i64::MIN
    } else {
        n as i64
    }
}

/// A count of some unit in microseconds: seconds and milliseconds saturate, nanoseconds are cut
/// off towards zero.
pub open spec fn in_micros(value: i64, unit: TimeUnit) -> i64 {
    match unit {
        TimeUnit::Second => saturated(value * 1_000_000),
        TimeUnit::Millisecond => saturated(value * 1_000),
        TimeUnit::Microsecond => value,
        TimeUnit::Nanosecond => if value >= 0 {
            (value as int / 1_000) as i64
        } else {
            (-((-(value as int)) / 1_000)) as i64
        },
    }
}

fn saturate(n: i128) -> (r: i64)
    ensures
        r == saturated(n as int),
{
    if n > i64::MAX as i128 {
        i64::MAX
    } else if n < i64::MIN as i128 {
        i64::MIN
    } else {
        n as i64
    }
}

/// A count of some unit in microseconds.
pub fn micros_from(value: i64, unit: TimeUnit) -> (r: i64)
    ensures
        r == in_micros(value, unit),
{
    match unit {
        TimeUnit::Second => saturate(value as i128 * 1_000_000),
        TimeUnit::Millisecond => saturate(value as i128 * 1_000),
        TimeUnit::Microsecond => value,
        TimeUnit::Nanosecond => if value >= 0 {
            (value as u64 / 1_000) as i64
        } else {
            let magnitude: u128 = (-(value as i128)) as u128;
            (-((magnitude / 1_000) as i128)) as i64
        },
    }
}

// ---------------------------------------------------------------------------
// The extreme of a column
// ---------------------------------------------------------------------------

/// The values of a batch's column; nulls are `None`. Of a column of any other type nothing is
/// known.
#[derive(Debug)]
pub enum ColumnValues {
    Int8(Vec<Option<i8>>),
    Int16(Vec<Option<i16>>),
    Int32(Vec<Option<i32>>),
    Int64(Vec<Option<i64>>),
    UInt8(Vec<Option<u8>>),
    UInt16(Vec<Option<u16>>),
    UInt32(Vec<Option<u32>>),
    UInt64(Vec<Option<u64>>),
    Float16(Vec<Option<Float16Bits>>),
    Float32(Vec<Option<Float32Bits>>),
    Float64(Vec<Option<Float64Bits>>),
    Date32(Vec<Option<i32>>),
    Date64(Vec<Option<i64>>),
    TimestampSecond(Vec<Option<i64>>),
    TimestampMillisecond(Vec<Option<i64>>),
    TimestampMicrosecond(Vec<Option<i64>>),
    TimestampNanosecond(Vec<Option<i64>>),
    Decimal128(Vec<Option<i128>>),
    Other,
}

/// The extreme of a column so far. A timestamp remembers whether it has a time zone, a decimal
/// number its scale.
#[derive(Clone, Copy, PartialEq, Eq, Structural, Debug)]
pub enum ExtremumState {
    Int8(Option<i8>),
    Int16(Option<i16>),
    Int32(Option<i32>),
    Int64(Option<i64>),
    UInt8(Option<u8>),
    UInt16(Option<u16>),
    UInt32(Option<u32>),
    UInt64(Option<u64>),
    Float16(Option<Float16Bits>),
    Float32(Option<Float32Bits>),
    Float64(Option<Float64Bits>),
    Date32(Option<i32>),
    Date64(Option<i64>),
    TimestampSecond(Option<i64>, bool),
    TimestampMillisecond(Option<i64>, bool),
    TimestampMicrosecond(Option<i64>, bool),
    TimestampNanosecond(Option<i64>, bool),
    Decimal128(Option<i128>, i8),
}

/// An extreme: its text, or the bits of a floating-point number.
#[derive(Debug)]
pub enum ExtremumValue {
    Text(String),
    Float16(Float16Bits),
    Float32(Float32Bits),
    Float64(Float64Bits),
}

/// An extreme with its text as a sequence of characters.
pub ghost enum ExtremumModel {
    Text(Seq<char>),
    Float16(Float16Bits),
    Float32(Float32Bits),
    Float64(Float64Bits),
}

impl DeepView for ExtremumValue {
    type V = ExtremumModel;

    open spec fn deep_view(&self) -> ExtremumModel {
        match *self {
            ExtremumValue::Text(s) => ExtremumModel::Text(s@),
            ExtremumValue::Float16(bits) => ExtremumModel::Float16(bits),
            ExtremumValue::Float32(bits) => ExtremumModel::Float32(bits),
            ExtremumValue::Float64(bits) => ExtremumModel::Float64(bits),
        }
    }
}

/// The state before the first value of a column; not every type has extremes.
pub open spec fn fresh_state(data_type: ColumnType) -> Option<ExtremumState> {
    match data_type {
        ColumnType::Int8 => Some(ExtremumState::Int8(None)),
        ColumnType::Int16 => Some(ExtremumState::Int16(None)),
        ColumnType::Int32 => Some(ExtremumState::Int32(None)),
        ColumnType::Int64 => Some(ExtremumState::Int64(None)),
        ColumnType::UInt8 => Some(ExtremumState::UInt8(None)),
        ColumnType::UInt16 => Some(ExtremumState::UInt16(None)),
        ColumnType::UInt32 => Some(ExtremumState::UInt32(None)),
        ColumnType::UInt64 => Some(ExtremumState::UInt64(None)),
        ColumnType::Float16 => Some(ExtremumState::Float16(None)),
        ColumnType::Float32 => Some(ExtremumState::Float32(None)),
        ColumnType::Float64 => Some(ExtremumState::Float64(None)),
        ColumnType::Date32 => Some(ExtremumState::Date32(None)),
        ColumnType::Date64 => Some(ExtremumState::Date64(None)),
        ColumnType::Timestamp(TimeUnit::Second, has_tz) => Some(
            ExtremumState::TimestampSecond(None, has_tz),
        ),
        ColumnType::Timestamp(TimeUnit::Millisecond, has_tz) => Some(
            ExtremumState::TimestampMillisecond(None, has_tz),
        ),
        ColumnType::Timestamp(TimeUnit::Microsecond, has_tz) => Some(
            ExtremumState::TimestampMicrosecond(None, has_tz),
        ),
        ColumnType::Timestamp(TimeUnit::Nanosecond, has_tz) => Some(
            ExtremumState::TimestampNanosecond(None, has_tz),
        ),
        ColumnType::Decimal128(scale) => Some(ExtremumState::Decimal128(None, scale)),
        _ => None,
    }
}

/// The message for a column type that has no extremes.
pub open spec fn unsupported_type(type_text: Seq<char>) -> Seq<char> {
    "lance_min/lance_max do not support column type "@ + type_text
        + "; supported types are integer, float, date, timestamp, and decimal128"@
}

/// A state or a message as a sequence of characters.
pub open spec fn state_outcome(r: Result<ExtremumState, String>) -> Result<ExtremumState, Seq<char>> {
    match r {
        Ok(state) => Ok(state),
        Err(message) => Err(message@),
    }
}

/// The name of the arrays that a state takes.
pub open spec fn array_label(state: ExtremumState) -> Seq<char> {
    match state {
        ExtremumState::Int8(_) => "int8"@,
        ExtremumState::Int16(_) => "int16"@,
        ExtremumState::Int32(_) => "int32"@,
        ExtremumState::Int64(_) => "int64"@,
        ExtremumState::UInt8(_) => "uint8"@,
        ExtremumState::UInt16(_) => "uint16"@,
        ExtremumState::UInt32(_) => "uint32"@,
        ExtremumState::UInt64(_) => "uint64"@,
        ExtremumState::Float16(_) => "float16"@,
        ExtremumState::Float32(_) => "float32"@,
        ExtremumState::Float64(_) => "float64"@,
        ExtremumState::Date32(_) => "date32"@,
        ExtremumState::Date64(_) => "date64"@,
        ExtremumState::TimestampSecond(_, _) => "timestamp second"@,
        ExtremumState::TimestampMillisecond(_, _) => "timestamp millisecond"@,
        ExtremumState::TimestampMicrosecond(_, _) => "timestamp microsecond"@,
        ExtremumState::TimestampNanosecond(_, _) => "timestamp nanosecond"@,
        ExtremumState::Decimal128(_, _) => "decimal128"@,
    }
}

/// The state behind the values of a batch, where they are of the state's type.
pub open spec fn state_with(
    state: ExtremumState,
    column: ColumnValues,
    op: Extremum,
) -> Option<ExtremumState> {
    match (state, column) {
        (ExtremumState::Int8(current), ColumnValues::Int8(values)) => Some(
            ExtremumState::Int8(extreme(current, present(values@), op)),
        ),
        (ExtremumState::Int16(current), ColumnValues::Int16(values)) => Some(
            ExtremumState::Int16(extreme(current, present(values@), op)),
        ),
        (ExtremumState::Int32(current), ColumnValues::Int32(values)) => Some(
            ExtremumState::Int32(extreme(current, present(values@), op)),
        ),
        (ExtremumState::Int64(current), ColumnValues::Int64(values)) => Some(
            ExtremumState::Int64(extreme(current, present(values@), op)),
        ),
        (ExtremumState::UInt8(current), ColumnValues::UInt8(values)) => Some(
            ExtremumState::UInt8(extreme(current, present(values@), op)),
        ),
        (ExtremumState::UInt16(current), ColumnValues::UInt16(values)) => Some(
            ExtremumState::UInt16(extreme(current, present(values@), op)),
        ),
        (ExtremumState::UInt32(current), ColumnValues::UInt32(values)) => Some(
            ExtremumState::UInt32(extreme(current, present(values@), op)),
        ),
        (ExtremumState::UInt64(current), ColumnValues::UInt64(values)) => Some(
            ExtremumState::UInt64(extreme(current, present(values@), op)),
        ),
        (ExtremumState::Date32(current), ColumnValues::Date32(values)) => Some(
            ExtremumState::Date32(extreme(current, present(values@), op)),
        ),
        (ExtremumState::Date64(current), ColumnValues::Date64(values)) => Some(
            ExtremumState::Date64(extreme(current, present(values@), op)),
        ),
        (ExtremumState::Float16(current), ColumnValues::Float16(values)) => Some(
            ExtremumState::Float16(extreme(current, present_numbers(values@), op)),
        ),
        (ExtremumState::Float32(current), ColumnValues::Float32(values)) => Some(
            ExtremumState::Float32(extreme(current, present_numbers(values@), op)),
        ),
        (ExtremumState::Float64(current), ColumnValues::Float64(values)) => Some(
            ExtremumState::Float64(extreme(current, present_numbers(values@), op)),
        ),
        (ExtremumState::TimestampSecond(current, has_tz), ColumnValues::TimestampSecond(values)) => Some(
            ExtremumState::TimestampSecond(extreme(current, present(values@), op), has_tz),
        ),
        (ExtremumState::TimestampMillisecond(current, has_tz), ColumnValues::TimestampMillisecond(values)) => Some(
            ExtremumState::TimestampMillisecond(extreme(current, present(values@), op), has_tz),
        ),
        (ExtremumState::TimestampMicrosecond(current, has_tz), ColumnValues::TimestampMicrosecond(values)) => Some(
            ExtremumState::TimestampMicrosecond(extreme(current, present(values@), op), has_tz),
        ),
        (ExtremumState::TimestampNanosecond(current, has_tz), ColumnValues::TimestampNanosecond(values)) => Some(
            ExtremumState::TimestampNanosecond(extreme(current, present(values@), op), has_tz),
        ),
        (ExtremumState::Decimal128(current, scale), ColumnValues::Decimal128(values)) => Some(
            ExtremumState::Decimal128(extreme(current, present(values@), op), scale),
        ),
        _ => None,
    }
}

/// What updating a state comes to: the state behind the values of a batch, or the message that
/// they are of another type.
pub open spec fn updated(state: ExtremumState, column: ColumnValues, op: Extremum) -> Result<
    ExtremumState,
    Seq<char>,
> {
    match state_with(state, column, op) {
        Some(next) => Ok(next),
        None => Err("invalid "@ + array_label(state) + " array"@),
    }
}

/// The text of an extreme that is a whole number.
pub open spec fn whole(value: Option<int>) -> Result<Option<ExtremumModel>, Seq<char>> {
    match value {
        Some(n) => Ok(Some(ExtremumModel::Text(text::signed_decimal(n)))),
        None => Ok(None),
    }
}

/// The text of an extreme, where there is one and it has a text.
pub open spec fn shown(value: Option<Result<Seq<char>, Seq<char>>>) -> Result<
    Option<ExtremumModel>,
    Seq<char>,
> {
    match value {
        None => Ok(None),
        Some(Ok(s)) => Ok(Some(ExtremumModel::Text(s))),
        Some(Err(message)) => Err(message),
    }
}

/// The text of an extreme timestamp.
pub open spec fn shown_timestamp(value: Option<i64>, unit: TimeUnit, has_tz: bool) -> Result<
    Option<ExtremumModel>,
    Seq<char>,
> {
    match value {
        None => Ok(None),
        Some(n) => shown(Some(timestamp(in_micros(n, unit), has_tz))),
    }
}

/// The extreme that a state holds, as text.
pub open spec fn finished(state: ExtremumState) -> Result<Option<ExtremumModel>, Seq<char>> {
    match state {
        ExtremumState::Int8(value) => whole(
            match value {
                Some(n) => Some(n as int),
                None => None,
            },
        ),
        ExtremumState::Int16(value) => whole(
            match value {
                Some(n) => Some(n as int),
                None => None,
            },
        ),
        ExtremumState::Int32(value) => whole(
            match value {
                Some(n) => Some(n as int),
                None => None,
            },
        ),
        ExtremumState::Int64(value) => whole(
            match value {
                Some(n) => Some(n as int),
                None => None,
            },
        ),
        ExtremumState::UInt8(value) => whole(
            match value {
                Some(n) => Some(n as int),
                None => None,
            },
        ),
        ExtremumState::UInt16(value) => whole(
            match value {
                Some(n) => Some(n as int),
                None => None,
            },
        ),
        ExtremumState::UInt32(value) => whole(
            match value {
                Some(n) => Some(n as int),
                None => None,
            },
        ),
        ExtremumState::UInt64(value) => whole(
            match value {
                Some(n) => Some(n as int),
                None => None,
            },
        ),
        ExtremumState::Float16(value) => match value {
            Some(bits) => Ok(Some(ExtremumModel::Float16(bits))),
            None => Ok(None),
        },
        ExtremumState::Float32(value) => match value {
            Some(bits) => Ok(Some(ExtremumModel::Float32(bits))),
            None => Ok(None),
        },
        ExtremumState::Float64(value) => match value {
            Some(bits) => Ok(Some(ExtremumModel::Float64(bits))),
            None => Ok(None),
        },
        ExtremumState::Date32(value) => shown(
            match value {
                Some(n) => Some(date32(n)),
                None => None,
            },
        ),
        ExtremumState::Date64(value) => shown(
            match value {
                Some(n) => Some(date64(n)),
                None => None,
            },
        ),
        ExtremumState::TimestampSecond(value, has_tz) => shown_timestamp(
            value,
            TimeUnit::Second,
            has_tz,
        ),
        ExtremumState::TimestampMillisecond(value, has_tz) => shown_timestamp(
            value,
            TimeUnit::Millisecond,
            has_tz,
        ),
        ExtremumState::TimestampMicrosecond(value, has_tz) => shown_timestamp(
            value,
            TimeUnit::Microsecond,
            has_tz,
        ),
        ExtremumState::TimestampNanosecond(value, has_tz) => shown_timestamp(
            value,
            TimeUnit::Nanosecond,
            has_tz,
        ),
        ExtremumState::Decimal128(value, scale) => shown(
            match value {
                Some(n) => Some(Ok(decimal128(n as int, scale as int))),
                None => None,
            },
        ),
    }
}

/// Whether the calendar has the extreme that a state holds; one that is no day and no moment has
/// nothing to do with it.
pub open spec fn has_day(state: ExtremumState) -> bool {
    match state {
        ExtremumState::Date32(Some(days)) => calendar::in_calendar(days as int),
        ExtremumState::Date64(Some(millis)) => calendar::in_calendar(millis as int / 86_400_000),
        ExtremumState::TimestampSecond(Some(n), _) => moment_has_day(n, TimeUnit::Second),
        ExtremumState::TimestampMillisecond(Some(n), _) => moment_has_day(n, TimeUnit::Millisecond),
        ExtremumState::TimestampMicrosecond(Some(n), _) => moment_has_day(n, TimeUnit::Microsecond),
        ExtremumState::TimestampNanosecond(Some(n), _) => moment_has_day(n, TimeUnit::Nanosecond),
        _ => true,
    }
}

/// Whether the calendar has the day of a moment, counted in some unit from 1970-01-01.
pub open spec fn moment_has_day(n: i64, unit: TimeUnit) -> bool {
    calendar::in_calendar(in_micros(n, unit) as int / 86_400_000_000)
}

/// Whether the extreme that a state holds has a text: the scale of a decimal number is not the
/// least of its type.
pub open spec fn printable(state: ExtremumState) -> bool {
    state matches ExtremumState::Decimal128(Some(_), scale) ==> scale != i8::MIN
}

fn type_error(label: &str) -> (message: String)
    ensures
        message@ == "invalid "@ + label@ + " array"@,
{
    let mut message = "invalid ".to_owned();
    message.append(label);
    message.append(" array");
    message
}

fn whole_text(value: Option<i128>) -> (r: Result<Option<ExtremumValue>, String>)
    ensures
        text::outcome(r) == whole(
            match value {
                Some(n) => Some(n as int),
                None => None,
            },
        ),
{
    match value {
        Some(n) => Ok(Some(ExtremumValue::Text(text::signed_decimal_text(n)))),
        None => Ok(None),
    }
}

fn shown_text(value: Result<String, String>) -> (r: Result<Option<ExtremumValue>, String>)
    ensures
        text::outcome(r) == shown(Some(text::outcome(value))),
{
    match value {
        Ok(s) => Ok(Some(ExtremumValue::Text(s))),
        Err(message) => Err(message),
    }
}

fn timestamp_text(value: Option<i64>, unit: TimeUnit, has_tz: bool) -> (r: Result<
    Option<ExtremumValue>,
    String,
>)
    ensures
        text::outcome(r) == shown_timestamp(value, unit, has_tz),
        r is Ok <==> (value matches Some(n) ==> moment_has_day(n, unit)),
{
    match value {
        None => Ok(None),
        Some(n) => shown_text(format_timestamp_micros(micros_from(n, unit), has_tz)),
    }
}

impl ExtremumState {
    /// The state before the first value of a column; fails for a type that has no extremes.
    /// `type_text` is the text by which the type is shown.
    pub fn new(data_type: ColumnType, type_text: &str) -> (r: Result<ExtremumState, String>)
        ensures
            state_outcome(r) == (match fresh_state(data_type) {
                Some(state) => Ok::<ExtremumState, Seq<char>>(state),
                None => Err(unsupported_type(type_text@)),
            }),
    {
        match data_type {
            ColumnType::Int8 => Ok(ExtremumState::Int8(None)),
            ColumnType::Int16 => Ok(ExtremumState::Int16(None)),
            ColumnType::Int32 => Ok(ExtremumState::Int32(None)),
            ColumnType::Int64 => Ok(ExtremumState::Int64(None)),
            ColumnType::UInt8 => Ok(ExtremumState::UInt8(None)),
            ColumnType::UInt16 => Ok(ExtremumState::UInt16(None)),
            ColumnType::UInt32 => Ok(ExtremumState::UInt32(None)),
            ColumnType::UInt64 => Ok(ExtremumState::UInt64(None)),
            ColumnType::Float16 => Ok(ExtremumState::Float16(None)),
            ColumnType::Float32 => Ok(ExtremumState::Float32(None)),
            ColumnType::Float64 => Ok(ExtremumState::Float64(None)),
            ColumnType::Date32 => Ok(ExtremumState::Date32(None)),
            ColumnType::Date64 => Ok(ExtremumState::Date64(None)),
            ColumnType::Timestamp(TimeUnit::Second, has_tz) => Ok(
                ExtremumState::TimestampSecond(None, has_tz),
            ),
            ColumnType::Timestamp(TimeUnit::Millisecond, has_tz) => Ok(
                ExtremumState::TimestampMillisecond(None, has_tz),
            ),
            ColumnType::Timestamp(TimeUnit::Microsecond, has_tz) => Ok(
                ExtremumState::TimestampMicrosecond(None, has_tz),
            ),
            ColumnType::Timestamp(TimeUnit::Nanosecond, has_tz) => Ok(
                ExtremumState::TimestampNanosecond(None, has_tz),
            ),
            ColumnType::Decimal128(scale) => Ok(ExtremumState::Decimal128(None, scale)),
            _ => {
                let mut message = "lance_min/lance_max do not support column type ".to_owned();
                message.append(type_text);
                message.append(
                    "; supported types are integer, float, date, timestamp, and decimal128",
                );
                Err(message)
            },
        }
    }

    /// Takes the values of a batch; fails where they are of another type.
    pub fn update(&mut self, column: &ColumnValues, op: Extremum) -> (r: Result<(), String>)
        ensures
            r matches Ok(_) ==> updated(*old(self), *column, op) == Ok::<ExtremumState, Seq<char>>(
                *final(self),
            ),
            r matches Err(message) ==> updated(*old(self), *column, op) == Err::<
                ExtremumState,
                Seq<char>,
            >(message@) && *final(self) == *old(self),
    {
        match *self {
            ExtremumState::Int8(current) => match column {
                ColumnValues::Int8(values) => {
                    *self = ExtremumState::Int8(update_ord(current, values.as_slice(), op));
                    Ok(())
                },
                _ => Err(type_error("int8")),
            },
            ExtremumState::Int16(current) => match column {
                ColumnValues::Int16(values) => {
                    *self = ExtremumState::Int16(update_ord(current, values.as_slice(), op));
                    Ok(())
                },
                _ => Err(type_error("int16")),
            },
            ExtremumState::Int32(current) => match column {
                ColumnValues::Int32(values) => {
                    *self = ExtremumState::Int32(update_ord(current, values.as_slice(), op));
                    Ok(())
                },
                _ => Err(type_error("int32")),
            },
            ExtremumState::Int64(current) => match column {
                ColumnValues::Int64(values) => {
                    *self = ExtremumState::Int64(update_ord(current, values.as_slice(), op));
                    Ok(())
                },
                _ => Err(type_error("int64")),
            },
            ExtremumState::UInt8(current) => match column {
                ColumnValues::UInt8(values) => {
                    *self = ExtremumState::UInt8(update_ord(current, values.as_slice(), op));
                    Ok(())
                },
                _ => Err(type_error("uint8")),
            },
            ExtremumState::UInt16(current) => match column {
                ColumnValues::UInt16(values) => {
                    *self = ExtremumState::UInt16(update_ord(current, values.as_slice(), op));
                    Ok(())
                },
                _ => Err(type_error("uint16")),
            },
            ExtremumState::UInt32(current) => match column {
                ColumnValues::UInt32(values) => {
                    *self = ExtremumState::UInt32(update_ord(current, values.as_slice(), op));
                    Ok(())
                },
                _ => Err(type_error("uint32")),
            },
            ExtremumState::UInt64(current) => match column {
                ColumnValues::UInt64(values) => {
                    *self = ExtremumState::UInt64(update_ord(current, values.as_slice(), op));
                    Ok(())
                },
                _ => Err(type_error("uint64")),
            },
            ExtremumState::Date32(current) => match column {
                ColumnValues::Date32(values) => {
                    *self = ExtremumState::Date32(update_ord(current, values.as_slice(), op));
                    Ok(())
                },
                _ => Err(type_error("date32")),
            },
            ExtremumState::Date64(current) => match column {
                ColumnValues::Date64(values) => {
                    *self = ExtremumState::Date64(update_ord(current, values.as_slice(), op));
                    Ok(())
                },
                _ => Err(type_error("date64")),
            },
            ExtremumState::Float16(current) => match column {
                ColumnValues::Float16(values) => {
                    *self = ExtremumState::Float16(update_float(current, values.as_slice(), op));
                    Ok(())
                },
                _ => Err(type_error("float16")),
            },
            ExtremumState::Float32(current) => match column {
                ColumnValues::Float32(values) => {
                    *self = ExtremumState::Float32(update_float(current, values.as_slice(), op));
                    Ok(())
                },
                _ => Err(type_error("float32")),
            },
            ExtremumState::Float64(current) => match column {
                ColumnValues::Float64(values) => {
                    *self = ExtremumState::Float64(update_float(current, values.as_slice(), op));
                    Ok(())
                },
                _ => Err(type_error("float64")),
            },
            ExtremumState::TimestampSecond(current, has_tz) => match column {
                ColumnValues::TimestampSecond(values) => {
                    *self = ExtremumState::TimestampSecond(update_ord(current, values.as_slice(), op), has_tz);
                    Ok(())
                },
                _ => Err(type_error("timestamp second")),
            },
            ExtremumState::TimestampMillisecond(current, has_tz) => match column {
                ColumnValues::TimestampMillisecond(values) => {
                    *self = ExtremumState::TimestampMillisecond(update_ord(current, values.as_slice(), op), has_tz);
                    Ok(())
                },
                _ => Err(type_error("timestamp millisecond")),
            },
            ExtremumState::TimestampMicrosecond(current, has_tz) => match column {
                ColumnValues::TimestampMicrosecond(values) => {
                    *self = ExtremumState::TimestampMicrosecond(update_ord(current, values.as_slice(), op), has_tz);
                    Ok(())
                },
                _ => Err(type_error("timestamp microsecond")),
            },
            ExtremumState::TimestampNanosecond(current, has_tz) => match column {
                ColumnValues::TimestampNanosecond(values) => {
                    *self = ExtremumState::TimestampNanosecond(update_ord(current, values.as_slice(), op), has_tz);
                    Ok(())
                },
                _ => Err(type_error("timestamp nanosecond")),
            },
            ExtremumState::Decimal128(current, scale) => match column {
                ColumnValues::Decimal128(values) => {
                    *self = ExtremumState::Decimal128(update_ord(current, values.as_slice(), op), scale);
                    Ok(())
                },
                _ => Err(type_error("decimal128")),
            },
        }
    }

    /// The extreme of the column, as text; a floating-point number is left in its bits. Fails for
    /// a day or a moment that the calendar does not have.
    pub fn finish(self) -> (r: Result<Option<ExtremumValue>, String>)
        requires
            printable(self),
        ensures
            text::outcome(r) == finished(self),
            r is Ok <==> has_day(self),
    {
        match self {
            ExtremumState::Int8(value) => whole_text(
                match value {
                    Some(n) => Some(n as i128),
                    None => None,
                },
            ),
            ExtremumState::Int16(value) => whole_text(
                match value {
                    Some(n) => Some(n as i128),
                    None => None,
                },
            ),
            ExtremumState::Int32(value) => whole_text(
                match value {
                    Some(n) => Some(n as i128),
                    None => None,
                },
            ),
            ExtremumState::Int64(value) => whole_text(
                match value {
                    Some(n) => Some(n as i128),
                    None => None,
                },
            ),
            ExtremumState::UInt8(value) => whole_text(
                match value {
                    Some(n) => Some(n as i128),
                    None => None,
                },
            ),
            ExtremumState::UInt16(value) => whole_text(
                match value {
                    Some(n) => Some(n as i128),
                    None => None,
                },
            ),
            ExtremumState::UInt32(value) => whole_text(
                match value {
                    Some(n) => Some(n as i128),
                    None => None,
                },
            ),
            ExtremumState::UInt64(value) => whole_text(
                match value {
                    Some(n) => Some(n as i128),
                    None => None,
                },
            ),
            ExtremumState::Float16(value) => match value {
                Some(bits) => Ok(Some(ExtremumValue::Float16(bits))),
                None => Ok(None),
            },
            ExtremumState::Float32(value) => match value {
                Some(bits) => Ok(Some(ExtremumValue::Float32(bits))),
                None => Ok(None),
            },
            ExtremumState::Float64(value) => match value {
                Some(bits) => Ok(Some(ExtremumValue::Float64(bits))),
                None => Ok(None),
            },
            ExtremumState::Date32(value) => match value {
                Some(n) => shown_text(format_date32(n)),
                None => Ok(None),
            },
            ExtremumState::Date64(value) => match value {
                Some(n) => shown_text(format_date64(n)),
                None => Ok(None),
            },
            ExtremumState::TimestampSecond(value, has_tz) => timestamp_text(
                value,
                TimeUnit::Second,
                has_tz,
            ),
            ExtremumState::TimestampMillisecond(value, has_tz) => timestamp_text(
                value,
                TimeUnit::Millisecond,
                has_tz,
            ),
            ExtremumState::TimestampMicrosecond(value, has_tz) => timestamp_text(
                value,
                TimeUnit::Microsecond,
                has_tz,
            ),
            ExtremumState::TimestampNanosecond(value, has_tz) => timestamp_text(
                value,
                TimeUnit::Nanosecond,
                has_tz,
            ),
            ExtremumState::Decimal128(value, scale) => match value {
                Some(n) => Ok(Some(ExtremumValue::Text(format_decimal128(n, scale)))),
                None => Ok(None),
            },
        }
    }
}

// ---------------------------------------------------------------------------
// Asking for an extreme
// ---------------------------------------------------------------------------

/// A column whose extreme is asked for: its name, its type, the text by which the type is shown,
/// and which extreme.
#[derive(Debug)]
pub struct ExtremumQuery {
    pub column_name: String,
    pub data_type: ColumnType,
    pub type_text: String,
    pub op: Extremum,
}

/// A column whose extreme is asked for, with its texts as sequences of characters.
pub ghost struct QueryModel {
    pub column_name: Seq<char>,
    pub data_type: ColumnType,
    pub type_text: Seq<char>,
    pub op: Extremum,
}

impl DeepView for ExtremumQuery {
    type V = QueryModel;

    open spec fn deep_view(&self) -> QueryModel {
        QueryModel {
            column_name: self.column_name@,
            data_type: self.data_type,
            type_text: self.type_text@,
            op: self.op,
        }
    }
}

/// The first field with the given name.
pub open spec fn first_field(fields: Seq<columns::FieldModel>, name: Seq<char>) -> Option<
    columns::FieldModel,
>
    decreases fields.len(),
{
    if fields.len() == 0 {
        None
    } else if fields[0].name == name {
        Some(fields[0])
    } else {
        first_field(fields.drop_first(), name)
    }
}

/// The column of a dataset whose extreme is asked for.
pub open spec fn extremum_query(
    fields: Seq<columns::FieldModel>,
    column_name: Seq<char>,
    op: Extremum,
) -> Result<QueryModel, Seq<char>> {
    match first_field(fields, column_name) {
        None => Err("column '"@ + column_name + "' not found in Lance dataset"@),
        Some(field) => Ok(
            QueryModel {
                column_name,
                data_type: field.data_type,
                type_text: field.type_text,
                op,
            },
        ),
    }
}

fn lance_extremum_impl(fields: &[ColumnField], column_name: &str, op: Extremum) -> (r: Result<
    ExtremumQuery,
    String,
>)
    ensures
        text::outcome(r) == extremum_query(fields.deep_view(), column_name@, op),
{
    let ghost all = fields.deep_view();
    assert(all.skip(0) =~= all);
    for i in 0..fields.len()
        invariant
            all == fields.deep_view(),
            first_field(all, column_name@) == first_field(all.skip(i as int), column_name@),
    {
        let field = &fields[i];
        assert(all[i as int] == field.deep_view());
        assert(all.skip(i as int).drop_first() =~= all.skip(i + 1));
        if field.name.as_str().eq(column_name) {
            return Ok(
                ExtremumQuery {
                    column_name: column_name.to_owned(),
                    data_type: field.data_type,
                    type_text: field.type_text.clone(),
                    op,
                },
            );
        }
    }
    let mut message = "column '".to_owned();
    message.append(column_name);
    message.append("' not found in Lance dataset");
    Err(message)
}

/// Asks for the smallest value of a column; fails where the dataset has no such column.
pub fn lance_min_impl(fields: &[ColumnField], column_name: &str) -> (r: Result<
    ExtremumQuery,
    String,
>)
    ensures
        text::outcome(r) == extremum_query(fields.deep_view(), column_name@, Extremum::Min),
{
    lance_extremum_impl(fields, column_name, Extremum::Min)
}

/// Asks for the largest value of a column; fails where the dataset has no such column.
pub fn lance_max_impl(fields: &[ColumnField], column_name: &str) -> (r: Result<
    ExtremumQuery,
    String,
>)
    ensures
        text::outcome(r) == extremum_query(fields.deep_view(), column_name@, Extremum::Max),
{
    lance_extremum_impl(fields, column_name, Extremum::Max)
}

// ---------------------------------------------------------------------------
// What holds of extremes
// ---------------------------------------------------------------------------

/// Whether every value has a place.
pub open spec fn all_placed<T: OrderedValue>(values: Seq<T>) -> bool {
    forall|i: int| 0 <= i < values.len() ==> (#[trigger] values[i]).placed()
}

/// The values of a column that count as numbers all have a place.
pub proof fn numbers_are_placed<T: FloatValue>(values: Seq<Option<T>>)
    ensures
        all_placed(present_numbers(values)),
    decreases values.len(),
{
    if values.len() > 0 {
        numbers_are_placed(values.drop_last());
    }
}

/// A value that is no number takes no place, and nothing takes its place.
pub proof fn unplaced_values_replace_nothing<T: OrderedValue>(a: T, b: T, op: Extremum)
    requires
        !a.placed() || !b.placed(),
    ensures
        !replaces(Some(a), b, op),
{
}

/// The smallest of some values with places is one of them, the first of those that no other one
/// precedes; the largest likewise.
pub proof fn extreme_is_first_of_the_outermost<T: OrderedValue>(values: Seq<T>, op: Extremum)
    requires
        all_placed(values),
    ensures
        extreme(None, values, op) is Some <==> values.len() > 0,
        values.len() > 0 ==> exists|i: int|
            {
                &&& 0 <= i < values.len()
                &&& extreme(None, values, op) == Some(#[trigger] values[i])
                &&& forall|j: int|
                    0 <= j < values.len() ==> match op {
                        Extremum::Min => values[i].rank() <= (#[trigger] values[j]).rank(),
                        Extremum::Max => values[i].rank() >= (#[trigger] values[j]).rank(),
                    }
                &&& forall|j: int| 0 <= j < i ==> values[i].rank() != (#[trigger] values[j]).rank()
            },
    decreases values.len(),
{
    if values.len() > 0 {
        let front = values.drop_last();
        assert forall|i: int| 0 <= i < front.len() implies (#[trigger] front[i]).placed() by {
            assert(values[i].placed());
        }
        extreme_is_first_of_the_outermost(front, op);
        let n = values.len() - 1;
        assert(values[n].placed());
        if front.len() == 0 {
            assert(extreme(None, values, op) == Some(values[n]));
        } else {
            let k = choose|i: int|
                {
                    &&& 0 <= i < front.len()
                    &&& extreme(None, front, op) == Some(#[trigger] front[i])
                    &&& forall|j: int|
                        0 <= j < front.len() ==> match op {
                            Extremum::Min => front[i].rank() <= (#[trigger] front[j]).rank(),
                            Extremum::Max => front[i].rank() >= (#[trigger] front[j]).rank(),
                        }
                    &&& forall|j: int|
                        0 <= j < i ==> front[i].rank() != (#[trigger] front[j]).rank()
                };
            assert(front[k] == values[k]);
            assert(forall|j: int| 0 <= j < front.len() ==> front[j] == #[trigger] values[j]);
            if replaces(extreme(None, front, op), values[n], op) {
                assert(extreme(None, values, op) == Some(values[n]));
            } else {
                assert(extreme(None, values, op) == Some(values[k]));
            }
        }
    }
}

/// The smallest of some values with places does not come behind the largest.
pub proof fn smallest_is_not_above_largest<T: OrderedValue>(values: Seq<T>)
    requires
        all_placed(values),
        values.len() > 0,
    ensures
        extreme(None, values, Extremum::Min) matches Some(low) && extreme(
            None,
            values,
            Extremum::Max,
        ) matches Some(high) && low.rank() <= high.rank(),
{
    extreme_is_first_of_the_outermost(values, Extremum::Min);
    extreme_is_first_of_the_outermost(values, Extremum::Max);
    let i = choose|i: int|
        0 <= i < values.len() && extreme(None, values, Extremum::Max) == Some(#[trigger] values[i]);
}

/// Whether a type is one of whole numbers, of floating point, of days, of moments or of decimal
/// numbers.
pub open spec fn has_extremes(data_type: ColumnType) -> bool {
    match data_type {
        ColumnType::Int8 | ColumnType::Int16 | ColumnType::Int32 | ColumnType::Int64 => true,
        ColumnType::UInt8 | ColumnType::UInt16 | ColumnType::UInt32 | ColumnType::UInt64 => true,
        ColumnType::Float16 | ColumnType::Float32 | ColumnType::Float64 => true,
        ColumnType::Date32 | ColumnType::Date64 => true,
        ColumnType::Timestamp(_, _) => true,
        ColumnType::Decimal128(_) => true,
        _ => false,
    }
}

/// Columns of whole numbers, of floating point, of days, of moments and of decimal numbers have
/// extremes, and no others; without a value there is none.
pub proof fn extremes_are_of_ordered_types(data_type: ColumnType)
    ensures
        fresh_state(data_type) is Some <==> has_extremes(data_type),
        fresh_state(data_type) matches Some(state) ==> finished(state) == Ok::<
            Option<ExtremumModel>,
            Seq<char>,
        >(None),
{
}

/// The values of a batch leave a state at its type: it goes on taking arrays of that type.
pub proof fn state_keeps_its_type(state: ExtremumState, column: ColumnValues, op: Extremum)
    ensures
        state_with(state, column, op) matches Some(next) ==> {
            &&& array_label(next) == array_label(state)
            &&& state_with(next, column, op) is Some
        },
{
}

/// How the values are cut into batches does not matter.
pub proof fn batches_do_not_matter<T: OrderedValue>(
    current: Option<T>,
    first: Seq<Option<T>>,
    second: Seq<Option<T>>,
    op: Extremum,
)
    ensures
        extreme(extreme(current, present(first), op), present(second), op) == extreme(
            current,
            present(first + second),
            op,
        ),
    decreases second.len(),
{
    if second.len() == 0 {
        assert(first + second =~= first);
    } else {
        let front = second.drop_last();
        batches_do_not_matter(current, first, front, op);
        assert((first + second).drop_last() =~= first + front);
        match second.last() {
            None => {},
            Some(value) => {
                assert(present(front).push(value).drop_last() =~= present(front));
                assert(present(first + front).push(value).drop_last() =~= present(first + front));
            },
        }
    }
}

/// How the numbers are cut into batches does not matter.
pub proof fn batches_of_numbers_do_not_matter<T: FloatValue>(
    current: Option<T>,
    first: Seq<Option<T>>,
    second: Seq<Option<T>>,
    op: Extremum,
)
    ensures
        extreme(extreme(current, present_numbers(first), op), present_numbers(second), op)
            == extreme(current, present_numbers(first + second), op),
    decreases second.len(),
{
    if second.len() == 0 {
        assert(first + second =~= first);
    } else {
        let front = second.drop_last();
        batches_of_numbers_do_not_matter(current, first, front, op);
        assert((first + second).drop_last() =~= first + front);
        match second.last() {
            None => {},
            Some(value) => {
                assert(present_numbers(front).push(value).drop_last() =~= present_numbers(front));
                assert(present_numbers(first + front).push(value).drop_last() =~= present_numbers(
                    first + front,
                ));
            },
        }
    }
}

proof fn last_digits_read(value: nat, n: nat)
    ensures
        last_digits(value, n).len() == n,
        n > 0 ==> text::all_digits(last_digits(value, n)),
    decreases n,
{
    if n > 0 {
        last_digits_read(value / 10, (n - 1) as nat);
        let front = last_digits(value / 10, (n - 1) as nat);
        assert forall|i: int| 0 <= i < last_digits(value, n).len() implies text::is_digit(
            #[trigger] last_digits(value, n)[i],
        ) by {
            if i < front.len() {
                assert(last_digits(value, n)[i] == front[i]);
            }
        }
    }
}

proof fn parts_read(value: nat, n: nat)
    ensures
        vstd::arithmetic::power::pow(10, n) > 0,
        text::digits_value(
            text::decimal((value as int / vstd::arithmetic::power::pow(10, n)) as nat)
                + last_digits(value, n),
        ) == value,
    decreases n,
{
    let power = vstd::arithmetic::power::pow(10, n);
    vstd::arithmetic::power::lemma_pow_positive(10, n);
    if n == 0 {
        vstd::arithmetic::power::lemma_pow0(10);
        assert(value as int / power == value) by (nonlinear_arith)
            requires
                power == 1,
        ;
        text::decimal_reads_back(value);
        assert(text::decimal(value) + last_digits(value, n) =~= text::decimal(value));
    } else {
        let shorter = (n - 1) as nat;
        parts_read(value / 10, shorter);
        let lower = vstd::arithmetic::power::pow(10, shorter);
        assert(power == 10 * lower) by {
            reveal(vstd::arithmetic::power::pow);
        }
        vstd::arithmetic::div_mod::lemma_div_denominator(value as int, 10, lower);
        let whole = text::decimal((value as int / power) as nat);
        let all = whole + last_digits(value, n);
        assert(all.drop_last() =~= whole + last_digits(value / 10, shorter));
        assert(all.last() == text::digit(value % 10));
        assert(text::digit(value % 10) as nat - 48 == value % 10);
    }
}

/// Whether a text is that of `value` with `scale` digits behind the point: its sign, the digits
/// `whole`, the point and the digits `fraction`, which together are those of the value.
pub open spec fn splits_into(
    s: Seq<char>,
    value: int,
    scale: nat,
    whole: Seq<char>,
    fraction: Seq<char>,
) -> bool {
    &&& s == sign(value) + whole + seq!['.'] + fraction
    &&& text::all_digits(whole)
    &&& text::all_digits(fraction)
    &&& fraction.len() == scale
    &&& text::digits_value(whole + fraction) == magnitude(value)
}

/// The text of a decimal number with a positive scale stands for the value: behind the sign its
/// digits, without the point, are those of the value, and `scale` of them stand behind the point.
pub proof fn decimal128_stands_for_value(value: int, scale: nat)
    requires
        scale > 0,
    ensures
        exists|whole: Seq<char>, fraction: Seq<char>| #[trigger]
            splits_into(decimal128(value, scale as int), value, scale, whole, fraction),
{
    let n = magnitude(value);
    let power = vstd::arithmetic::power::pow(10, scale);
    parts_read(n, scale);
    last_digits_read(n, scale);
    let whole = text::decimal((n as int / power) as nat);
    let fraction = last_digits(n, scale);
    text::decimal_reads_back((n as int / power) as nat);
    assert(splits_into(decimal128(value, scale as int), value, scale, whole, fraction));
}

/// The number that floating-point bits stand for, in order: the bits behind the sign, negative
/// where the sign is set. What is no number has none.
pub open spec fn float_number(bits: int, sign: int, infinity: int) -> Option<int> {
    if bits % sign > infinity {
        None
    } else if bits < sign {
        Some(bits)
    } else {
        Some(sign - bits)
    }
}

/// The numbers in a column, in order; a null, and what is no number, has none.
pub open spec fn numbers_of(column: ColumnValues) -> Seq<Option<int>> {
    match column {
        ColumnValues::Int8(values) => values@.map_values(
            |value: Option<i8>|
                match value {
                    Some(n) => Some(n as int),
                    None => None,
                },
        ),
        ColumnValues::Int16(values) => values@.map_values(
            |value: Option<i16>|
                match value {
                    Some(n) => Some(n as int),
                    None => None,
                },
        ),
        ColumnValues::Int32(values) => values@.map_values(
            |value: Option<i32>|
                match value {
                    Some(n) => Some(n as int),
                    None => None,
                },
        ),
        ColumnValues::Int64(values) => values@.map_values(
            |value: Option<i64>|
                match value {
                    Some(n) => Some(n as int),
                    None => None,
                },
        ),
        ColumnValues::UInt8(values) => values@.map_values(
            |value: Option<u8>|
                match value {
                    Some(n) => Some(n as int),
                    None => None,
                },
        ),
        ColumnValues::UInt16(values) => values@.map_values(
            |value: Option<u16>|
                match value {
                    Some(n) => Some(n as int),
                    None => None,
                },
        ),
        ColumnValues::UInt32(values) => values@.map_values(
            |value: Option<u32>|
                match value {
                    Some(n) => Some(n as int),
                    None => None,
                },
        ),
        ColumnValues::UInt64(values) => values@.map_values(
            |value: Option<u64>|
                match value {
                    Some(n) => Some(n as int),
                    None => None,
                },
        ),
        ColumnValues::Date32(values) => values@.map_values(
            |value: Option<i32>|
                match value {
                    Some(n) => Some(n as int),
                    None => None,
                },
        ),
        ColumnValues::Date64(values) => values@.map_values(
            |value: Option<i64>|
                match value {
                    Some(n) => Some(n as int),
                    None => None,
                },
        ),
        ColumnValues::Float16(values) => values@.map_values(
            |value: Option<Float16Bits>|
                match value {
                    Some(bits) => float_number(bits.0 as int, 0x8000, 0x7c00),
                    None => None,
                },
        ),
        ColumnValues::Float32(values) => values@.map_values(
            |value: Option<Float32Bits>|
                match value {
                    Some(bits) => float_number(bits.0 as int, 0x8000_0000, 0x7f80_0000),
                    None => None,
                },
        ),
        ColumnValues::Float64(values) => values@.map_values(
            |value: Option<Float64Bits>|
                match value {
                    Some(bits) => float_number(bits.0 as int, 0x8000_0000_0000_0000, 0x7ff0_0000_0000_0000),
                    None => None,
                },
        ),
        ColumnValues::TimestampSecond(values) => values@.map_values(
            |value: Option<i64>|
                match value {
                    Some(n) => Some(n as int),
                    None => None,
                },
        ),
        ColumnValues::TimestampMillisecond(values) => values@.map_values(
            |value: Option<i64>|
                match value {
                    Some(n) => Some(n as int),
                    None => None,
                },
        ),
        ColumnValues::TimestampMicrosecond(values) => values@.map_values(
            |value: Option<i64>|
                match value {
                    Some(n) => Some(n as int),
                    None => None,
                },
        ),
        ColumnValues::TimestampNanosecond(values) => values@.map_values(
            |value: Option<i64>|
                match value {
                    Some(n) => Some(n as int),
                    None => None,
                },
        ),
        ColumnValues::Decimal128(values) => values@.map_values(
            |value: Option<i128>|
                match value {
                    Some(n) => Some(n as int),
                    None => None,
                },
        ),
        ColumnValues::Other => seq![],
    }
}

/// The number that a state holds, if any.
pub open spec fn number_of(state: ExtremumState) -> Option<int> {
    match state {
        ExtremumState::Int8(value) => match value {
            Some(n) => Some(n as int),
            None => None,
        },
        ExtremumState::Int16(value) => match value {
            Some(n) => Some(n as int),
            None => None,
        },
        ExtremumState::Int32(value) => match value {
            Some(n) => Some(n as int),
            None => None,
        },
        ExtremumState::Int64(value) => match value {
            Some(n) => Some(n as int),
            None => None,
        },
        ExtremumState::UInt8(value) => match value {
            Some(n) => Some(n as int),
            None => None,
        },
        ExtremumState::UInt16(value) => match value {
            Some(n) => Some(n as int),
            None => None,
        },
        ExtremumState::UInt32(value) => match value {
            Some(n) => Some(n as int),
            None => None,
        },
        ExtremumState::UInt64(value) => match value {
            Some(n) => Some(n as int),
            None => None,
        },
        ExtremumState::Date32(value) => match value {
            Some(n) => Some(n as int),
            None => None,
        },
        ExtremumState::Date64(value) => match value {
            Some(n) => Some(n as int),
            None => None,
        },
        ExtremumState::Float16(value) => match value {
            Some(bits) => float_number(bits.0 as int, 0x8000, 0x7c00),
            None => None,
        },
        ExtremumState::Float32(value) => match value {
            Some(bits) => float_number(bits.0 as int, 0x8000_0000, 0x7f80_0000),
            None => None,
        },
        ExtremumState::Float64(value) => match value {
            Some(bits) => float_number(bits.0 as int, 0x8000_0000_0000_0000, 0x7ff0_0000_0000_0000),
            None => None,
        },
        ExtremumState::TimestampSecond(value, _) => match value {
            Some(n) => Some(n as int),
            None => None,
        },
        ExtremumState::TimestampMillisecond(value, _) => match value {
            Some(n) => Some(n as int),
            None => None,
        },
        ExtremumState::TimestampMicrosecond(value, _) => match value {
            Some(n) => Some(n as int),
            None => None,
        },
        ExtremumState::TimestampNanosecond(value, _) => match value {
            Some(n) => Some(n as int),
            None => None,
        },
        ExtremumState::Decimal128(value, _) => match value {
            Some(n) => Some(n as int),
            None => None,
        },
    }
}

/// Whether `m` is the outermost number of batches: the smallest or the largest of all that stand in
/// them, and none where none does.
pub open spec fn outermost(batches: Seq<Seq<Option<int>>>, m: Option<int>, op: Extremum) -> bool {
    match m {
        None => forall|k: int, i: int|
            0 <= k < batches.len() && 0 <= i < batches[k].len() ==> (#[trigger] batches[k][i])
                is None,
        Some(x) => {
            &&& exists|k: int, i: int|
                0 <= k < batches.len() && 0 <= i < batches[k].len() && #[trigger] batches[k][i]
                    == Some(x)
            &&& forall|k: int, i: int|
                0 <= k < batches.len() && 0 <= i < batches[k].len() ==> (
                #[trigger] batches[k][i] matches Some(v) ==> match op {
                    Extremum::Min => x <= v,
                    Extremum::Max => v <= x,
                })
        },
    }
}

/// The state behind the columns of batches, where each of them is of the state's type.
pub open spec fn behind(state: ExtremumState, columns: Seq<ColumnValues>, op: Extremum) -> Option<
    ExtremumState,
>
    decreases columns.len(),
{
    if columns.len() == 0 {
        Some(state)
    } else {
        match behind(state, columns.drop_last(), op) {
            Some(before) => state_with(before, columns.last(), op),
            None => None,
        }
    }
}

/// The numbers in the columns of batches.
pub open spec fn batches_of(columns: Seq<ColumnValues>) -> Seq<Seq<Option<int>>> {
    columns.map_values(|column: ColumnValues| numbers_of(column))
}

spec fn ranked<T: OrderedValue>(value: Option<T>) -> Option<int> {
    match value {
        Some(v) => if v.placed() {
            Some(v.rank())
        } else {
            None
        },
        None => None,
    }
}

spec fn ranks<T: OrderedValue>(values: Seq<Option<T>>) -> Seq<Option<int>> {
    values.map_values(|value: Option<T>| ranked(value))
}

/// Whether `after` is what a batch makes of `before`.
spec fn steps_to(before: Option<int>, batch: Seq<Option<int>>, after: Option<int>, op: Extremum) -> bool {
    match after {
        None => before is None && forall|i: int|
            0 <= i < batch.len() ==> (#[trigger] batch[i]) is None,
        Some(x) => {
            &&& before == Some(x) || exists|i: int|
                0 <= i < batch.len() && #[trigger] batch[i] == Some(x)
            &&& before matches Some(v) ==> match op {
                Extremum::Min => x <= v,
                Extremum::Max => v <= x,
            }
            &&& forall|i: int|
                0 <= i < batch.len() ==> (#[trigger] batch[i] matches Some(v) ==> match op {
                    Extremum::Min => x <= v,
                    Extremum::Max => v <= x,
                })
        },
    }
}

pub open spec fn kept_or_placed<T: OrderedValue>(value: Option<T>) -> bool {
    value matches Some(v) ==> v.placed()
}

proof fn one_more_step(
    before: Option<int>,
    batch: Seq<Option<int>>,
    middle: Option<int>,
    last: Option<int>,
    after: Option<int>,
    op: Extremum,
)
    requires
        steps_to(before, batch, middle, op),
        last is None ==> after == middle,
        last is Some && middle is None ==> after == last,
        last is Some && middle is Some ==> after == (match op {
            Extremum::Min => if last->Some_0 < middle->Some_0 {
                last
            } else {
                middle
            },
            Extremum::Max => if last->Some_0 > middle->Some_0 {
                last
            } else {
                middle
            },
        }),
    ensures
        steps_to(before, batch.push(last), after, op),
{
    let all = batch.push(last);
    assert(forall|i: int| 0 <= i < batch.len() ==> #[trigger] all[i] == batch[i]);
    assert(all[batch.len() as int] == last);
    match after {
        None => {},
        Some(x) => {
            if before != Some(x) {
                if after == last {
                    assert(all[batch.len() as int] == Some(x));
                } else {
                    let i = choose|i: int|
                        0 <= i < batch.len() && #[trigger] batch[i] == Some(x);
                    assert(all[i] == Some(x));
                }
            }
        },
    }
}

proof fn values_step<T: OrderedValue>(current: Option<T>, values: Seq<Option<T>>, op: Extremum)
    requires
        kept_or_placed(current),
        forall|i: int| 0 <= i < values.len() ==> kept_or_placed(#[trigger] values[i]),
    ensures
        kept_or_placed(extreme(current, present(values), op)),
        steps_to(ranked(current), ranks(values), ranked(extreme(current, present(values), op)), op),
    decreases values.len(),
{
    if values.len() > 0 {
        let front = values.drop_last();
        let last = values[values.len() - 1];
        assert forall|i: int| 0 <= i < front.len() implies kept_or_placed(#[trigger] front[i]) by {
            assert(front[i] == values[i]);
        }
        values_step(current, front, op);
        assert(ranks(values) =~= ranks(front).push(ranked(last)));
        let middle = extreme(current, present(front), op);
        let after = extreme(current, present(values), op);
        if let Some(v) = last {
            assert(present(front).push(v).drop_last() =~= present(front));
            assert(kept_or_placed(last));
        }
        one_more_step(
            ranked(current),
            ranks(front),
            ranked(middle),
            ranked(last),
            ranked(after),
            op,
        );
    }
}

proof fn numbers_step<T: FloatValue>(current: Option<T>, values: Seq<Option<T>>, op: Extremum)
    requires
        kept_or_placed(current),
    ensures
        kept_or_placed(extreme(current, present_numbers(values), op)),
        steps_to(
            ranked(current),
            ranks(values),
            ranked(extreme(current, present_numbers(values), op)),
            op,
        ),
    decreases values.len(),
{
    if values.len() > 0 {
        let front = values.drop_last();
        let last = values[values.len() - 1];
        numbers_step(current, front, op);
        assert(ranks(values) =~= ranks(front).push(ranked(last)));
        let middle = extreme(current, present_numbers(front), op);
        let after = extreme(current, present_numbers(values), op);
        if let Some(v) = last {
            assert(present_numbers(front).push(v).drop_last() =~= present_numbers(front));
        }
        one_more_step(
            ranked(current),
            ranks(front),
            ranked(middle),
            ranked(last),
            ranked(after),
            op,
        );
    }
}

/// Whether the value that a state holds, if any, is a number.
pub open spec fn holds_number(state: ExtremumState) -> bool {
    match state {
        ExtremumState::Float16(value) => kept_or_placed(value),
        ExtremumState::Float32(value) => kept_or_placed(value),
        ExtremumState::Float64(value) => kept_or_placed(value),
        _ => true,
    }
}

proof fn state_steps(state: ExtremumState, column: ColumnValues, op: Extremum)
    requires
        holds_number(state),
        state_with(state, column, op) is Some,
    ensures
        holds_number(state_with(state, column, op)->Some_0),
        steps_to(
            number_of(state),
            numbers_of(column),
            number_of(state_with(state, column, op)->Some_0),
            op,
        ),
{
    match (state, column) {
        (ExtremumState::Int8(current), ColumnValues::Int8(values)) => {
            values_step(current, values@, op);
            assert(numbers_of(column) =~= ranks(values@));
        },
        (ExtremumState::Int16(current), ColumnValues::Int16(values)) => {
            values_step(current, values@, op);
            assert(numbers_of(column) =~= ranks(values@));
        },
        (ExtremumState::Int32(current), ColumnValues::Int32(values)) => {
            values_step(current, values@, op);
            assert(numbers_of(column) =~= ranks(values@));
        },
        (ExtremumState::Int64(current), ColumnValues::Int64(values)) => {
            values_step(current, values@, op);
            assert(numbers_of(column) =~= ranks(values@));
        },
        (ExtremumState::UInt8(current), ColumnValues::UInt8(values)) => {
            values_step(current, values@, op);
            assert(numbers_of(column) =~= ranks(values@));
        },
        (ExtremumState::UInt16(current), ColumnValues::UInt16(values)) => {
            values_step(current, values@, op);
            assert(numbers_of(column) =~= ranks(values@));
        },
        (ExtremumState::UInt32(current), ColumnValues::UInt32(values)) => {
            values_step(current, values@, op);
            assert(numbers_of(column) =~= ranks(values@));
        },
        (ExtremumState::UInt64(current), ColumnValues::UInt64(values)) => {
            values_step(current, values@, op);
            assert(numbers_of(column) =~= ranks(values@));
        },
        (ExtremumState::Date32(current), ColumnValues::Date32(values)) => {
            values_step(current, values@, op);
            assert(numbers_of(column) =~= ranks(values@));
        },
        (ExtremumState::Date64(current), ColumnValues::Date64(values)) => {
            values_step(current, values@, op);
            assert(numbers_of(column) =~= ranks(values@));
        },
        (ExtremumState::Float16(current), ColumnValues::Float16(values)) => {
            numbers_step(current, values@, op);
            assert(numbers_of(column) =~= ranks(values@));
        },
        (ExtremumState::Float32(current), ColumnValues::Float32(values)) => {
            numbers_step(current, values@, op);
            assert(numbers_of(column) =~= ranks(values@));
        },
        (ExtremumState::Float64(current), ColumnValues::Float64(values)) => {
            numbers_step(current, values@, op);
            assert(numbers_of(column) =~= ranks(values@));
        },
        (ExtremumState::TimestampSecond(current, _), ColumnValues::TimestampSecond(values)) => {
            values_step(current, values@, op);
            assert(numbers_of(column) =~= ranks(values@));
        },
        (ExtremumState::TimestampMillisecond(current, _), ColumnValues::TimestampMillisecond(values)) => {
            values_step(current, values@, op);
            assert(numbers_of(column) =~= ranks(values@));
        },
        (ExtremumState::TimestampMicrosecond(current, _), ColumnValues::TimestampMicrosecond(values)) => {
            values_step(current, values@, op);
            assert(numbers_of(column) =~= ranks(values@));
        },
        (ExtremumState::TimestampNanosecond(current, _), ColumnValues::TimestampNanosecond(values)) => {
            values_step(current, values@, op);
            assert(numbers_of(column) =~= ranks(values@));
        },
        (ExtremumState::Decimal128(current, _), ColumnValues::Decimal128(values)) => {
            values_step(current, values@, op);
            assert(numbers_of(column) =~= ranks(values@));
        },
        _ => {},
    }
}

/// Of every type that has extremes, the state behind the batches of a column, begun without a value,
/// holds the outermost of all its numbers: for the smallest one below which none stands in any
/// batch, for the largest one above which none stands; and none only where the column has none.
pub proof fn state_holds_the_outermost(
    data_type: ColumnType,
    columns: Seq<ColumnValues>,
    op: Extremum,
)
    requires
        fresh_state(data_type) is Some,
        behind(fresh_state(data_type)->Some_0, columns, op) is Some,
    ensures
        outermost(
            batches_of(columns),
            number_of(behind(fresh_state(data_type)->Some_0, columns, op)->Some_0),
            op,
        ),
{
    outermost_by_steps(data_type, columns, op);
}

proof fn outermost_by_steps(data_type: ColumnType, columns: Seq<ColumnValues>, op: Extremum)
    requires
        fresh_state(data_type) is Some,
        behind(fresh_state(data_type)->Some_0, columns, op) is Some,
    ensures
        holds_number(behind(fresh_state(data_type)->Some_0, columns, op)->Some_0),
        outermost(
            batches_of(columns),
            number_of(behind(fresh_state(data_type)->Some_0, columns, op)->Some_0),
            op,
        ),
    decreases columns.len(),
{
    let start = fresh_state(data_type)->Some_0;
    if columns.len() > 0 {
        let front = columns.drop_last();
        let last = columns[columns.len() - 1];
        outermost_by_steps(data_type, front, op);
        let before = behind(start, front, op)->Some_0;
        let after = behind(start, columns, op)->Some_0;
        state_steps(before, last, op);
        let old_batches = batches_of(front);
        let all = batches_of(columns);
        let n = front.len() as int;
        assert(forall|k: int| 0 <= k < n ==> #[trigger] all[k] == old_batches[k]);
        assert(all[n] == numbers_of(last));
        match number_of(after) {
            None => {},
            Some(x) => {
                if number_of(before) == Some(x) {
                    let (k, i) = choose|k: int, i: int|
                        0 <= k < old_batches.len() && 0 <= i < old_batches[k].len()
                            && #[trigger] old_batches[k][i] == Some(x);
                    assert(all[k][i] == Some(x));
                } else {
                    let i = choose|i: int|
                        0 <= i < numbers_of(last).len() && #[trigger] numbers_of(last)[i]
                            == Some(x);
                    assert(all[n][i] == Some(x));
                }
                assert forall|k: int, i: int| 0 <= k < all.len() && 0 <= i < all[k].len() implies (
                #[trigger] all[k][i] matches Some(v) ==> match op {
                    Extremum::Min => x <= v,
                    Extremum::Max => v <= x,
                }) by {
                    if k < n {
                        assert(old_batches[k][i] == all[k][i]);
                    } else {
                        assert(numbers_of(last)[i] == all[k][i]);
                    }
                }
            },
        }
    }
}

/// A state takes every batch of its own type, and no other.
pub proof fn state_takes_its_own_type(state: ExtremumState, column: ColumnValues, op: Extremum)
    ensures
        state_with(state, column, op) is Some <==> match state {
            ExtremumState::Int8(_) => column is Int8,
            ExtremumState::Int16(_) => column is Int16,
            ExtremumState::Int32(_) => column is Int32,
            ExtremumState::Int64(_) => column is Int64,
            ExtremumState::UInt8(_) => column is UInt8,
            ExtremumState::UInt16(_) => column is UInt16,
            ExtremumState::UInt32(_) => column is UInt32,
            ExtremumState::UInt64(_) => column is UInt64,
            ExtremumState::Date32(_) => column is Date32,
            ExtremumState::Date64(_) => column is Date64,
            ExtremumState::Float16(_) => column is Float16,
            ExtremumState::Float32(_) => column is Float32,
            ExtremumState::Float64(_) => column is Float64,
            ExtremumState::TimestampSecond(_, _) => column is TimestampSecond,
            ExtremumState::TimestampMillisecond(_, _) => column is TimestampMillisecond,
            ExtremumState::TimestampMicrosecond(_, _) => column is TimestampMicrosecond,
            ExtremumState::TimestampNanosecond(_, _) => column is TimestampNanosecond,
            ExtremumState::Decimal128(_, _) => column is Decimal128,
        },
{
}

/// Which time zone a timestamp has, and which scale a decimal number, stays as the column has it.
pub proof fn zone_and_scale_stay(
    data_type: ColumnType,
    columns: Seq<ColumnValues>,
    op: Extremum,
)
    requires
        fresh_state(data_type) is Some,
        behind(fresh_state(data_type)->Some_0, columns, op) is Some,
    ensures
        match (data_type, behind(fresh_state(data_type)->Some_0, columns, op)->Some_0) {
            (
                ColumnType::Timestamp(TimeUnit::Second, zone),
                ExtremumState::TimestampSecond(_, has_tz),
            ) => has_tz == zone,
            (
                ColumnType::Timestamp(TimeUnit::Millisecond, zone),
                ExtremumState::TimestampMillisecond(_, has_tz),
            ) => has_tz == zone,
            (
                ColumnType::Timestamp(TimeUnit::Microsecond, zone),
                ExtremumState::TimestampMicrosecond(_, has_tz),
            ) => has_tz == zone,
            (
                ColumnType::Timestamp(TimeUnit::Nanosecond, zone),
                ExtremumState::TimestampNanosecond(_, has_tz),
            ) => has_tz == zone,
            (ColumnType::Decimal128(a), ExtremumState::Decimal128(_, b)) => a == b,
            (ColumnType::Timestamp(_, _), _) => false,
            (ColumnType::Decimal128(_), _) => false,
            (ColumnType::Int8, ExtremumState::Int8(_)) => true,
            (ColumnType::Int16, ExtremumState::Int16(_)) => true,
            (ColumnType::Int32, ExtremumState::Int32(_)) => true,
            (ColumnType::Int64, ExtremumState::Int64(_)) => true,
            (ColumnType::UInt8, ExtremumState::UInt8(_)) => true,
            (ColumnType::UInt16, ExtremumState::UInt16(_)) => true,
            (ColumnType::UInt32, ExtremumState::UInt32(_)) => true,
            (ColumnType::UInt64, ExtremumState::UInt64(_)) => true,
            (ColumnType::Date32, ExtremumState::Date32(_)) => true,
            (ColumnType::Date64, ExtremumState::Date64(_)) => true,
            (ColumnType::Float16, ExtremumState::Float16(_)) => true,
            (ColumnType::Float32, ExtremumState::Float32(_)) => true,
            (ColumnType::Float64, ExtremumState::Float64(_)) => true,
            _ => false,
        },
    decreases columns.len(),
{
    if columns.len() > 0 {
        zone_and_scale_stay(data_type, columns.drop_last(), op);
    }
}

/// The text of an extreme that is a whole number stands for that number.
pub proof fn whole_extremes_stand_for_their_value(state: ExtremumState)
    requires
        match state {
            ExtremumState::Int8(_) => true,
            ExtremumState::Int16(_) => true,
            ExtremumState::Int32(_) => true,
            ExtremumState::Int64(_) => true,
            ExtremumState::UInt8(_) => true,
            ExtremumState::UInt16(_) => true,
            ExtremumState::UInt32(_) => true,
            ExtremumState::UInt64(_) => true,
            _ => false,
        },
    ensures
        number_of(state) matches Some(n) ==> (finished(state) matches Ok(
            Some(ExtremumModel::Text(s)),
        ) && text::integer_value(s) == Some(n)),
        number_of(state) is None ==> finished(state) == Ok::<Option<ExtremumModel>, Seq<char>>(None),
{
    if let Some(n) = number_of(state) {
        text::signed_decimal_reads_back(n);
    }
}

/// The extreme of floating-point numbers is given by its own bits.
pub proof fn float_extremes_are_their_bits(state: ExtremumState)
    ensures
        state matches ExtremumState::Float16(Some(b)) ==> finished(state) == Ok::<
            Option<ExtremumModel>,
            Seq<char>,
        >(Some(ExtremumModel::Float16(b))),
        state matches ExtremumState::Float32(Some(b)) ==> finished(state) == Ok::<
            Option<ExtremumModel>,
            Seq<char>,
        >(Some(ExtremumModel::Float32(b))),
        state matches ExtremumState::Float64(Some(b)) ==> finished(state) == Ok::<
            Option<ExtremumModel>,
            Seq<char>,
        >(Some(ExtremumModel::Float64(b))),
{
}

/// One moment has one text, in whichever unit it is counted.
pub proof fn unit_does_not_matter(seconds: i64, has_tz: bool)
    requires
        -9_000_000_000 <= seconds <= 9_000_000_000,
    ensures
        ({
            let shown = finished(ExtremumState::TimestampSecond(Some(seconds), has_tz));
            &&& shown == finished(
                ExtremumState::TimestampMillisecond(Some((seconds * 1_000) as i64), has_tz),
            )
            &&& shown == finished(
                ExtremumState::TimestampMicrosecond(Some((seconds * 1_000_000) as i64), has_tz),
            )
            &&& shown == finished(
                ExtremumState::TimestampNanosecond(Some((seconds * 1_000_000_000) as i64), has_tz),
            )
        }),
{
    let nanos = seconds * 1_000_000_000;
    if seconds >= 0 {
        assert(nanos / 1_000 == seconds * 1_000_000);
    } else {
        assert((-nanos) / 1_000 == -(seconds * 1_000_000));
    }
}

/// A count of seconds or milliseconds is multiplied as far as the type reaches, and one of
/// nanoseconds is cut off towards zero: a whole microsecond remains, and less than one is lost.
pub proof fn micros_are_within_one(value: i64, unit: TimeUnit)
    ensures
        unit is Second && i64::MIN <= value * 1_000_000 <= i64::MAX ==> in_micros(value, unit)
            == value * 1_000_000,
        unit is Second && value * 1_000_000 > i64::MAX ==> in_micros(value, unit) == i64::MAX,
        unit is Second && value * 1_000_000 < i64::MIN ==> in_micros(value, unit) == i64::MIN,
        unit is Millisecond && i64::MIN <= value * 1_000 <= i64::MAX ==> in_micros(value, unit)
            == value * 1_000,
        unit is Millisecond && value * 1_000 > i64::MAX ==> in_micros(value, unit) == i64::MAX,
        unit is Millisecond && value * 1_000 < i64::MIN ==> in_micros(value, unit) == i64::MIN,
        unit is Microsecond ==> in_micros(value, unit) == value,
        unit is Nanosecond && value >= 0 ==> in_micros(value, unit) >= 0 && 0 <= value
            - in_micros(value, unit) * 1_000 < 1_000,
        unit is Nanosecond && value < 0 ==> in_micros(value, unit) <= 0 && 0 <= in_micros(
            value,
            unit,
        ) * 1_000 - value < 1_000,
{
}

/// The query is of the first field with the name, by its type, and for the extreme that was asked
/// for; there is one exactly where a field has the name.
pub proof fn query_is_of_the_first_field(
    fields: Seq<columns::FieldModel>,
    column_name: Seq<char>,
    op: Extremum,
    i: int,
)
    requires
        0 <= i <= fields.len(),
        forall|j: int| 0 <= j < i ==> (#[trigger] fields[j]).name != column_name,
        i < fields.len() ==> fields[i].name == column_name,
    ensures
        i < fields.len() ==> extremum_query(fields, column_name, op) == Ok::<QueryModel, Seq<char>>(
            QueryModel {
                column_name,
                data_type: fields[i].data_type,
                type_text: fields[i].type_text,
                op,
            },
        ),
        i == fields.len() ==> extremum_query(fields, column_name, op) == Err::<
            QueryModel,
            Seq<char>,
        >("column '"@ + column_name + "' not found in Lance dataset"@),
    decreases i,
{
    if i > 0 {
        assert(fields[0].name != column_name);
        let rest = fields.drop_first();
        assert forall|j: int| 0 <= j < i - 1 implies (#[trigger] rest[j]).name != column_name by {
            assert(rest[j] == fields[j + 1]);
        }
        query_is_of_the_first_field(rest, column_name, op, i - 1);
    }
}

/// The text of a decimal number with a scale of zero or less stands for the whole number: the value
/// with a zero behind it for each place.
pub proof fn whole_decimal128_stands_for_value(value: int, places: nat)
    ensures
        text::integer_value(decimal128(value, -(places as int))) == Some(
            value * vstd::arithmetic::power::pow(10, places),
        ),
{
    let power = vstd::arithmetic::power::pow(10, places);
    let n = magnitude(value);
    let digits = text::decimal(n);
    text::decimal_reads_back(n);
    zeros_multiply(digits, places);
    let all = decimal128(value, -(places as int));
    assert(-(-(places as int)) == places);
    if value < 0 {
        assert(all =~= seq!['-'] + (digits + zeros(places)));
        assert(all[0] == '-');
        assert(!text::is_digit(all[0]));
        assert(all.drop_first() =~= digits + zeros(places));
        assert(-(n * power) == value * power) by (nonlinear_arith)
            requires
                n == -value,
        ;
    } else {
        assert(all =~= digits + zeros(places));
    }
}

proof fn zeros_multiply(digits: Seq<char>, places: nat)
    requires
        text::all_digits(digits),
    ensures
        text::all_digits(digits + zeros(places)),
        text::digits_value(digits + zeros(places)) == text::digits_value(digits)
            * vstd::arithmetic::power::pow(10, places),
    decreases places,
{
    let all = digits + zeros(places);
    if places == 0 {
        assert(all =~= digits);
        vstd::arithmetic::power::lemma_pow0(10);
    } else {
        let fewer = (places - 1) as nat;
        zeros_multiply(digits, fewer);
        assert(all.drop_last() =~= digits + zeros(fewer));
        assert(all.last() == '0');
        let value = text::digits_value(digits);
        let lower = vstd::arithmetic::power::pow(10, fewer);
        assert(vstd::arithmetic::power::pow(10, places) == 10 * lower) by {
            reveal(vstd::arithmetic::power::pow);
        }
        assert(value * lower * 10 == value * (10 * lower)) by (nonlinear_arith);
        assert forall|i: int| 0 <= i < all.len() implies text::is_digit(#[trigger] all[i]) by {
            if i < all.len() - 1 {
                assert(all[i] == (digits + zeros(fewer))[i]);
            }
        }
    }
}

/// The text of an extreme day, moment or decimal number is that of its own value: a day by its
/// pattern, a moment with a time zone as RFC 3339 has it and one without by its pattern, a decimal
/// number by its scale.
pub proof fn extremes_are_shown_by_their_value(state: ExtremumState)
    ensures
        state matches ExtremumState::Date32(Some(days)) ==> finished(state) == (
        match calendar::day_in_pattern(days, "%Y-%m-%d"@) {
            Some(s) => Ok::<Option<ExtremumModel>, Seq<char>>(Some(ExtremumModel::Text(s))),
            None => Err("date32"@ + " value out of range"@),
        }),
        state matches ExtremumState::Date64(Some(millis)) ==> finished(state) == (
        match calendar::milli_day_in_pattern(millis, "%Y-%m-%d"@) {
            Some(s) => Ok::<Option<ExtremumModel>, Seq<char>>(Some(ExtremumModel::Text(s))),
            None => Err("date64"@ + " value out of range"@),
        }),
        state matches ExtremumState::TimestampMicrosecond(Some(micros), true) ==> finished(state)
            == (match calendar::micros_in_rfc3339(micros) {
            Some(s) => Ok::<Option<ExtremumModel>, Seq<char>>(Some(ExtremumModel::Text(s))),
            None => Err("timestamp"@ + " value out of range"@),
        }),
        state matches ExtremumState::TimestampMicrosecond(Some(micros), false) ==> finished(state)
            == (match calendar::micros_in_pattern(micros, "%Y-%m-%d %H:%M:%S%.6f"@) {
            Some(s) => Ok::<Option<ExtremumModel>, Seq<char>>(Some(ExtremumModel::Text(s))),
            None => Err("timestamp"@ + " value out of range"@),
        }),
        state matches ExtremumState::Decimal128(Some(n), scale) ==> finished(state) == Ok::<
            Option<ExtremumModel>,
            Seq<char>,
        >(Some(ExtremumModel::Text(decimal128(n as int, scale as int)))),
        number_of(state) is None && holds_number(state) ==> finished(state) == Ok::<
            Option<ExtremumModel>,
            Seq<char>,
        >(None),
{
}

/// A moment in any unit is shown as the same moment in microseconds.
pub proof fn moments_are_shown_in_microseconds(n: i64, has_tz: bool)
    ensures
        finished(ExtremumState::TimestampSecond(Some(n), has_tz)) == finished(
            ExtremumState::TimestampMicrosecond(Some(in_micros(n, TimeUnit::Second)), has_tz),
        ),
        finished(ExtremumState::TimestampMillisecond(Some(n), has_tz)) == finished(
            ExtremumState::TimestampMicrosecond(Some(in_micros(n, TimeUnit::Millisecond)), has_tz),
        ),
        finished(ExtremumState::TimestampNanosecond(Some(n), has_tz)) == finished(
            ExtremumState::TimestampMicrosecond(Some(in_micros(n, TimeUnit::Nanosecond)), has_tz),
        ),
{
}

/// A batch of another type than the state's is refused, and the message tells the type that was
/// wanted.
pub proof fn other_types_are_refused(state: ExtremumState, column: ColumnValues, op: Extremum)
    ensures
        state_with(state, column, op) is Some ==> updated(state, column, op) == Ok::<
            ExtremumState,
            Seq<char>,
        >(state_with(state, column, op)->Some_0),
        state_with(state, column, op) is None ==> updated(state, column, op) == Err::<
            ExtremumState,
            Seq<char>,
        >("invalid "@ + (match state {
            ExtremumState::Int8(_) => "int8"@,
            ExtremumState::Int16(_) => "int16"@,
            ExtremumState::Int32(_) => "int32"@,
            ExtremumState::Int64(_) => "int64"@,
            ExtremumState::UInt8(_) => "uint8"@,
            ExtremumState::UInt16(_) => "uint16"@,
            ExtremumState::UInt32(_) => "uint32"@,
            ExtremumState::UInt64(_) => "uint64"@,
            ExtremumState::Float16(_) => "float16"@,
            ExtremumState::Float32(_) => "float32"@,
            ExtremumState::Float64(_) => "float64"@,
            ExtremumState::Date32(_) => "date32"@,
            ExtremumState::Date64(_) => "date64"@,
            ExtremumState::TimestampSecond(_, _) => "timestamp second"@,
            ExtremumState::TimestampMillisecond(_, _) => "timestamp millisecond"@,
            ExtremumState::TimestampMicrosecond(_, _) => "timestamp microsecond"@,
            ExtremumState::TimestampNanosecond(_, _) => "timestamp nanosecond"@,
            ExtremumState::Decimal128(_, _) => "decimal128"@,
        }) + " array"@),
{
}

} // verus!
