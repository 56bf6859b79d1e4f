//! Masses of the two tiers, and what is decided at the boundary between them.
//!
//! The application tier holds a mass as a binary64 number. This crate carries
//! such a number by its bit pattern, a `u64`, and never computes with it. The
//! storage tier holds a mass as a decimal of any precision. Turning one into
//! the other is the work of a decimal library that the caller runs; what this
//! module decides is what to store or to show when that work fails.
use vstd::prelude::*;

verus! {

/// The bits of a binary64 number that hold its exponent.
pub const EXPONENT_BITS: u64 = 0x7ff0_0000_0000_0000;

/// The bit pattern of the binary64 number `0.0`.
pub const POSITIVE_ZERO: u64 = 0;

/// A decimal of the storage tier: a whole number, of any size, and the count of
/// its digits that stand behind the decimal point.
///
/// `==` compares the fields. Two values that stand for one number, the one
/// with leading zero bytes and the other without, are not equal under it;
/// contracts speak of the number, `self@`.
#[derive(Debug, PartialEq, Eq)]
pub struct Decimal {
    /// The unscaled number is below zero.
    pub negative: bool,
    /// The size of the unscaled number, in bytes, the most significant first.
    pub magnitude: Vec<u8>,
    /// How many decimal digits of the unscaled number are fractional.
    pub scale: i64,
}

/// The number that a [`Decimal`] stands for: `unscaled / 10^scale`.
pub struct DecimalView {
    pub unscaled: int,
    pub scale: int,
}

/// The number whose base-256 digits are `bytes`, the most significant first.
pub open spec fn magnitude_of(bytes: Seq<u8>) -> nat
    decreases bytes.len(),
{
    if bytes.len() == 0 {
        0
    } else {
        magnitude_of(bytes.drop_last()) * 256 + bytes.last() as nat
    }
}

impl View for Decimal {
    type V = DecimalView;

    open spec fn view(&self) -> DecimalView {
        DecimalView {
            unscaled: if self.negative {
                -(magnitude_of(self.magnitude@) as int)
            } else {
                magnitude_of(self.magnitude@) as int
            },
            scale: self.scale as int,
        }
    }
}

impl DeepView for Decimal {
    type V = DecimalView;

    open spec fn deep_view(&self) -> DecimalView {
        self@
    }
}

impl DecimalView {
    /// The decimal zero, without fractional digits.
    pub open spec fn zero() -> DecimalView {
        DecimalView { unscaled: 0, scale: 0 }
    }
}

impl Decimal {
    /// The decimal zero.
    pub fn zero() -> (result: Decimal)
        ensures
            result@ == DecimalView::zero(),
    {
        Decimal { negative: false, magnitude: Vec::new(), scale: 0 }
    }
}

impl Clone for Decimal {
    fn clone(&self) -> (result: Decimal)
        ensures
            result@ == self@,
    {
        Decimal {
            negative: self.negative,
            magnitude: self.magnitude.clone(),
            scale: self.scale,
        }
    }
}

/// The bit pattern is that of a finite binary64 number: neither an infinity nor
/// a NaN, whose exponent bits are all set.
pub open spec fn is_finite(bits: u64) -> bool {
    bits & EXPONENT_BITS != EXPONENT_BITS
}

/// The decimal that is stored for a mass of the application tier.
pub open spec fn storage_decimal_of(bits: u64, expansion: Option<DecimalView>) -> DecimalView {
    match expansion {
        Some(decimal) if is_finite(bits) => decimal,
        _ => DecimalView::zero(),
    }
}

/// The binary64 number that is shown for a mass of the storage tier.
pub open spec fn application_float_of(reading: Option<u64>) -> u64 {
    match reading {
        Some(bits) => bits,
        None => POSITIVE_ZERO,
    }
}

/// Tells whether `bits` is a finite binary64 number.
pub fn is_finite_float(bits: u64) -> (finite: bool)
    ensures
        finite == is_finite(bits),
{
    bits & EXPONENT_BITS != EXPONENT_BITS
}

/// Chooses the decimal to store for the binary64 mass `bits`.
///
/// `expansion` is what the decimal library made of the number, `None` where it
/// could not make a decimal of it. A finite number is stored as its expansion.
/// An infinity, a NaN, or a number without an expansion is stored as zero: the
/// request is not refused on that account.
pub fn to_storage_decimal(bits: u64, expansion: Option<Decimal>) -> (stored: Decimal)
    ensures
        stored@ == storage_decimal_of(bits, expansion.deep_view()),
        !is_finite(bits) || expansion is None ==> stored@ == DecimalView::zero(),
        is_finite(bits) && expansion is Some ==> stored@ == expansion.unwrap()@,
{
    match expansion {
        Some(decimal) => {
            if is_finite_float(bits) {
                decimal
            } else {
                Decimal::zero()
            }
        },
        None => Decimal::zero(),
    }
}

/// Chooses the binary64 mass to show for a stored decimal.
///
/// `reading` is what the decimal library read from the decimal, `None` where it
/// could not read a binary64 number from it. A decimal that could not be read
/// is shown as `0.0`.
pub fn to_application_float(reading: Option<u64>) -> (shown: u64)
    ensures
        shown == application_float_of(reading),
{
    match reading {
        Some(bits) => bits,
        None => POSITIVE_ZERO,
    }
}

/// A mass that is no finite number is stored as zero, whatever the decimal
/// library made of it.
pub proof fn non_finite_is_stored_as_zero(bits: u64, expansion: Option<DecimalView>)
    requires
        !is_finite(bits),
    ensures
        storage_decimal_of(bits, expansion) == DecimalView::zero(),
{
}

} // verus!
