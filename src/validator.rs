use vstd::prelude::*;

verus! {

/// The largest magnitude, in whole units, that a submission may have.
pub const DECIMAL_LIMIT: i128 = 1_000_000_000;

/// A decimal number as `mantissa / 10^scale`.
#[derive(Clone, Copy, Debug, PartialEq, Eq, Structural)]
pub struct DecimalValue {
    pub mantissa: i128,
    pub scale: u32,
}

/// Why a submission was refused.
#[derive(Clone, Copy, Debug, PartialEq, Eq, Structural)]
pub enum SubmitError {
    /// The text is not a decimal number.
    InvalidFormat,
    /// The number is above the limit.
    TooLarge,
    /// The number is below the negated limit.
    TooSmall,
}

impl SubmitError {
    /// The human-readable reason for the refusal.
    pub fn message(&self) -> (r: &'static str)
        ensures
            *self == SubmitError::InvalidFormat ==> r@ == "Invalid decimal format"@,
            *self == SubmitError::TooLarge ==> r@ == "Decimal value too large"@,
            *self == SubmitError::TooSmall ==> r@ == "Decimal value too small"@,
    {
        match self {
            SubmitError::InvalidFormat => "Invalid decimal format",
            SubmitError::TooLarge => "Decimal value too large",
            SubmitError::TooSmall => "Decimal value too small",
        }
    }
}

/// Ten to the power `n`.
pub open spec fn pow10(n: nat) -> int
    decreases n,
{
    if n == 0 {
        1
    } else {
        10 * pow10((n - 1) as nat)
    }
}

proof fn lemma_pow10_mono(a: nat, b: nat)
    requires
        a <= b,
    ensures
        1 <= pow10(a) <= pow10(b),
    decreases b,
{
    if b > 0 {
        if a < b {
            lemma_pow10_mono(a, (b - 1) as nat);
        } else {
            lemma_pow10_mono((b - 1) as nat, (b - 1) as nat);
        }
    }
}

/// The limit, written with `scale` digits after the point.
pub open spec fn scaled_limit(scale: u32) -> int {
    DECIMAL_LIMIT * pow10(scale as nat)
}

/// Whether `d` is above the limit.
pub open spec fn above_limit(d: DecimalValue) -> bool {
    d.mantissa > scaled_limit(d.scale)
}

/// Whether `d` is below the negated limit.
pub open spec fn below_limit(d: DecimalValue) -> bool {
    d.mantissa < -scaled_limit(d.scale)
}

/// What a submission comes to, given what the decimal parser made of it.
pub open spec fn submit_outcome(parsed: Option<DecimalValue>) -> Result<(), SubmitError> {
    match parsed {
        None => Err(SubmitError::InvalidFormat),
        Some(d) => if above_limit(d) {
            Err(SubmitError::TooLarge)
        } else if below_limit(d) {
            Err(SubmitError::TooSmall)
        } else {
            Ok(())
        },
    }
}

/// The limit scaled to `scale` digits, or `None` where that exceeds `i128`.
fn scaled_limit_exec(scale: u32) -> (r: Option<i128>)
    ensures
        match r {
            Some(b) => b == scaled_limit(scale) && b > 0,
            None => scaled_limit(scale) > i128::MAX,
        },
{
    let mut bound: i128 = DECIMAL_LIMIT;
    let mut k: u32 = 0;
    while k < scale
        invariant
            0 <= k <= scale,
            bound == scaled_limit(k),
            bound > 0,
        decreases scale - k,
    {
        if bound > i128::MAX / 10 {
            proof {
                lemma_pow10_mono((k + 1) as nat, scale as nat);
                assert(pow10((k + 1) as nat) == 10 * pow10(k as nat));
            }
            return None;
        }
        proof {
            assert(pow10((k + 1) as nat) == 10 * pow10(k as nat));
        }
        bound = bound * 10;
        k = k + 1;
    }
    Some(bound)
}

/// Decides a submission from what the decimal parser made of it: refused
/// as malformed when it could not be read, as too large or too small when
/// it lies outside the limit on either side, accepted otherwise.
pub fn validate_parsed(parsed: Option<DecimalValue>) -> (r: Result<(), SubmitError>)
    ensures
        r == submit_outcome(parsed),
{
    match parsed {
        None => Err(SubmitError::InvalidFormat),
        Some(d) => match scaled_limit_exec(d.scale) {
            None => Ok(()),
            Some(bound) => {
                if d.mantissa > bound {
                    Err(SubmitError::TooLarge)
                } else if d.mantissa < -bound {
                    Err(SubmitError::TooSmall)
                } else {
                    Ok(())
                }
            },
        },
    }
}

/// The mantissa and scale of the decimal that `rust_decimal` reads from the
/// text, or `None` where it refuses the text.
pub uninterp spec fn parsed_decimal(s: Seq<char>) -> Option<DecimalValue>;

/// Relies on `rust_decimal::Decimal::from_str` to read a decimal number,
/// and on `Decimal::mantissa` and `Decimal::scale` to hand its parts back.
/// The result depends on the text alone.
#[verifier::external_body]
fn parse_decimal(s: &str) -> (r: Option<DecimalValue>)
    ensures
        r == parsed_decimal(s@),
{
    match <rust_decimal::Decimal as core::str::FromStr>::from_str(s) {
        Ok(d) => Some(DecimalValue { mantissa: d.mantissa(), scale: d.scale() }),
        Err(_) => None,
    }
}

/// Checks a submitted text: accepted when it reads as a decimal number
/// within the limit, refused with the reason otherwise.
pub fn validate_submission(value: &str) -> (r: Result<(), SubmitError>)
    ensures
        r == submit_outcome(parsed_decimal(value@)),
{
    validate_parsed(parse_decimal(value))
}

/// Keeps the last submitted text that reads as a decimal number within the
/// limit.
pub struct DataValidator {
    last_valid_submission: String,
}

impl View for DataValidator {
    type V = Seq<char>;

    closed spec fn view(&self) -> Seq<char> {
        self.last_valid_submission@
    }
}

impl DataValidator {
    /// A validator with no submission yet: the kept text is empty.
    pub fn new() -> (r: DataValidator)
        ensures
            r@ == Seq::<char>::empty(),
    {
        DataValidator { last_valid_submission: String::new() }
    }

    /// Submits `value`: kept when it reads as a decimal within the limit,
    /// refused with the reason otherwise, leaving the kept text unchanged.
    pub fn submit_data(&mut self, value: String) -> (r: Result<(), SubmitError>)
        ensures
            r == submit_outcome(parsed_decimal(value@)),
            r is Ok ==> final(self)@ == value@,
            r is Err ==> final(self)@ == old(self)@,
    {
        let outcome = validate_submission(value.as_str());
        if outcome.is_ok() {
            self.last_valid_submission = value;
        }
        outcome
    }

    /// The last accepted submission, or the empty text if none.
    pub fn get_last_submission(&self) -> (r: String)
        ensures
            r@ == self@,
    {
        self.last_valid_submission.clone()
    }
}

} // verus!
