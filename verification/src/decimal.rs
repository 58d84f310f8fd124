//! Decimal numbers as the exchange writes them, by way of `rust_decimal`.

use vstd::prelude::*;

verus! {

/// The text of the decimal number `mantissa / 10^scale`, as
/// `rust_decimal::Decimal` displays it: `15` with scale `1` is `1.5`.
pub uninterp spec fn decimal_text(mantissa: int, scale: nat) -> Seq<char>;

/// The largest scale of a decimal number.
pub const MAX_SCALE: u32 = 28;

/// The largest mantissa of a decimal number: 96 bits.
pub const MAX_MANTISSA: i128 = 0x0000_0000_FFFF_FFFF_FFFF_FFFF_FFFF_FFFF;

/// `rust_decimal::Decimal::from_i128_with_scale` and the number's display.
/// The constructor panics on a scale over 28 and on a mantissa of more than
/// 96 bits, so neither is handed to it.
#[verifier::external_body]
fn display(mantissa: i128, scale: u32) -> (r: String)
    requires
        scale <= MAX_SCALE,
        -MAX_MANTISSA <= mantissa <= MAX_MANTISSA,
    ensures
        r@ == decimal_text(mantissa as int, scale as nat),
{
    rust_decimal::Decimal::from_i128_with_scale(mantissa, scale).to_string()
}

/// A decimal number: `mantissa / 10^scale`, with a mantissa of at most 96
/// bits and a scale of at most 28.
#[derive(Debug, Clone, Copy)]
pub struct Decimal {
    mantissa: i128,
    scale: u32,
}

impl Decimal {
    #[verifier::type_invariant]
    spec fn in_range(self) -> bool {
        self.scale <= MAX_SCALE && -MAX_MANTISSA <= self.mantissa <= MAX_MANTISSA
    }

    /// The mantissa.
    pub closed spec fn spec_mantissa(&self) -> i128 {
        self.mantissa
    }

    /// The scale.
    pub closed spec fn spec_scale(&self) -> u32 {
        self.scale
    }

    /// The number's text.
    pub open spec fn text(self) -> Seq<char> {
        decimal_text(self.spec_mantissa() as int, self.spec_scale() as nat)
    }

    /// The number `mantissa / 10^scale`, where it can be held.
    pub fn try_from_i128_with_scale(mantissa: i128, scale: u32) -> (r: Option<Decimal>)
        ensures
            r is Some <==> scale <= MAX_SCALE && -MAX_MANTISSA <= mantissa <= MAX_MANTISSA,
            r matches Some(d) ==> d.spec_mantissa() == mantissa && d.spec_scale() == scale,
    {
        if scale <= MAX_SCALE && -MAX_MANTISSA <= mantissa && mantissa <= MAX_MANTISSA {
            Some(Decimal { mantissa, scale })
        } else {
            None
        }
    }

    /// The mantissa.
    #[verifier::when_used_as_spec(spec_mantissa)]
    pub fn mantissa(&self) -> (r: i128)
        ensures
            r == self.spec_mantissa(),
    {
        self.mantissa
    }

    /// The scale.
    #[verifier::when_used_as_spec(spec_scale)]
    pub fn scale(&self) -> (r: u32)
        ensures
            r == self.spec_scale(),
    {
        self.scale
    }

    /// The number's text, as it is written into a request.
    pub fn to_string(&self) -> (r: String)
        ensures
            r@ == self.text(),
    {
        proof {
            use_type_invariant(self);
        }
        display(self.mantissa, self.scale)
    }
}

} // verus!
