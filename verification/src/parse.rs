use vstd::prelude::*;
use vstd::string::StringSliceAdditionalSpecFns;
use crate::types::{AMOUNT_SCALE, Amount, Record, TransactionType};

verus! {

/// Why one row of typed fields was rejected. Each of these means the
/// input stream itself is malformed, so a run should stop on them.
#[derive(Clone, Copy, Debug, PartialEq, Eq, Structural)]
pub enum ParseError {
    BadType,
    BadClient,
    BadTx,
    MissingAmount,
    BadAmount,
}

/// What rust_decimal parses a numeral to, rescaled to `scale`
/// fractional digits and counted in whole units of `10^-scale`, when
/// that count fits a 64-bit amount; `None` otherwise. The accepted
/// grammar belongs to the outside crate, so the result only carries
/// this name.
pub uninterp spec fn decimal_units_of(s: Seq<u8>, scale: u32) -> Option<Amount>;

/// Relies on rust_decimal: `Decimal::from_str` parses the numeral,
/// `Decimal::rescale` brings it to `scale` fractional digits (rounding
/// the rest away), and `Decimal::mantissa` reads the value in units of
/// `10^-scale`. The result depends on the bytes and the scale alone.
/// `None` when the string does not parse or the unit count leaves the
/// 64-bit range; when `rescale` cannot reach `scale` (its documented
/// overflow fallback) the mantissa is far outside that range too.
#[verifier::external_body]
fn decimal_units(s: &str, scale: u32) -> (r: Option<Amount>)
    ensures
        r == decimal_units_of(s.spec_bytes(), scale),
{
    match <rust_decimal::Decimal as core::str::FromStr>::from_str(s) {
        Ok(mut d) => {
            d.rescale(scale);
            i64::try_from(d.mantissa()).ok()
        },
        Err(_) => None,
    }
}

/// The amount grammar of this library: whatever decimal numeral
/// rust_decimal accepts, brought to four fractional digits.
pub open spec fn amount_units_of(s: Seq<u8>) -> Option<Amount> {
    decimal_units_of(s, AMOUNT_SCALE)
}

/// Parse an amount field (no surrounding whitespace) into fixed-point
/// units of one ten-thousandth.
pub fn parse_amount(s: &str) -> (r: Option<Amount>)
    ensures
        r == amount_units_of(s.spec_bytes()),
{
    decimal_units(s, AMOUNT_SCALE)
}

/// Byte-for-byte equality of two slices.
pub fn bytes_eq(a: &[u8], b: &[u8]) -> (r: bool)
    ensures
        r == (a@ == b@),
{
    if a.len() != b.len() {
        return false;
    }
    let mut i: usize = 0;
    while i < a.len()
        invariant
            0 <= i <= a@.len(),
            a@.len() == b@.len(),
            forall|j: int| 0 <= j < i ==> a@[j] == b@[j],
        decreases a@.len() - i,
    {
        if a[i] != b[i] {
            return false;
        }
        i += 1;
    }
    proof {
        assert(a@ =~= b@);
    }
    true
}

impl TransactionType {
    /// The five type strings, case-sensitive and lowercase; anything
    /// else is rejected.
    pub open spec fn spec_from_str(b: Seq<u8>) -> Result<TransactionType, ()> {
        if b == "deposit".spec_bytes() {
            Ok(TransactionType::Deposit)
        } else if b == "withdrawal".spec_bytes() {
            Ok(TransactionType::Withdrawal)
        } else if b == "dispute".spec_bytes() {
            Ok(TransactionType::Dispute)
        } else if b == "resolve".spec_bytes() {
            Ok(TransactionType::Resolve)
        } else if b == "chargeback".spec_bytes() {
            Ok(TransactionType::Chargeback)
        } else {
            Err(())
        }
    }

    /// Classify a type field.
    pub fn from_str(s: &str) -> (r: Result<TransactionType, ()>)
        ensures
            r == Self::spec_from_str(s.spec_bytes()),
    {
        let b = s.as_bytes();
        if bytes_eq(b, "deposit".as_bytes()) {
            Ok(TransactionType::Deposit)
        } else if bytes_eq(b, "withdrawal".as_bytes()) {
            Ok(TransactionType::Withdrawal)
        } else if bytes_eq(b, "dispute".as_bytes()) {
            Ok(TransactionType::Dispute)
        } else if bytes_eq(b, "resolve".as_bytes()) {
            Ok(TransactionType::Resolve)
        } else if bytes_eq(b, "chargeback".as_bytes()) {
            Ok(TransactionType::Chargeback)
        } else {
            Err(())
        }
    }
}

/// An ASCII decimal digit.
pub open spec fn is_digit_byte(b: u8) -> bool {
    48 <= b <= 57
}

/// The number written by a string of digit bytes, most significant
/// first.
pub open spec fn digits_value(s: Seq<u8>) -> int
    decreases s.len(),
{
    if s.len() == 0 {
        0
    } else {
        digits_value(s.drop_last()) * 10 + (s.last() - 48)
    }
}

/// Every byte is a digit.
pub open spec fn all_digits(s: Seq<u8>) -> bool {
    forall|i: int| 0 <= i < s.len() ==> is_digit_byte(#[trigger] s[i])
}

/// An unsigned numeral may carry one leading plus sign, as the
/// standard integer grammar does.
pub open spec fn numeral_body(s: Seq<u8>) -> Seq<u8> {
    if s.len() > 0 && s[0] == 43 {
        s.skip(1)
    } else {
        s
    }
}

/// The unsigned 32-bit integer grammar: an optional plus sign, then at
/// least one digit, and a value within range.
pub open spec fn parse_u32_spec(s: Seq<u8>) -> Option<u32> {
    let b = numeral_body(s);
    if b.len() > 0 && all_digits(b) && digits_value(b) <= u32::MAX {
        Some(digits_value(b) as u32)
    } else {
        None
    }
}

/// The same grammar with the 16-bit bound.
pub open spec fn parse_u16_spec(s: Seq<u8>) -> Option<u16> {
    match parse_u32_spec(s) {
        Some(v) => if v <= u16::MAX {
            Some(v as u16)
        } else {
            None
        },
        None => None,
    }
}

proof fn lemma_digits_value_nonneg(s: Seq<u8>)
    requires
        all_digits(s),
    ensures
        digits_value(s) >= 0,
    decreases s.len(),
{
    if s.len() > 0 {
        assert(all_digits(s.drop_last()));
        lemma_digits_value_nonneg(s.drop_last());
    }
}

proof fn lemma_digits_value_prefix_le(s: Seq<u8>, j: int)
    requires
        all_digits(s),
        0 <= j <= s.len(),
    ensures
        digits_value(s.take(j)) <= digits_value(s),
    decreases s.len() - j,
{
    if j == s.len() {
        assert(s.take(j) =~= s);
    } else {
        assert(s.take(j + 1).drop_last() =~= s.take(j));
        assert(all_digits(s.take(j)));
        lemma_digits_value_nonneg(s.take(j));
        assert(digits_value(s.take(j + 1)) == digits_value(s.take(j)) * 10 + (s[j] - 48));
        lemma_digits_value_prefix_le(s, j + 1);
    }
}

/// Parse an unsigned 32-bit integer field (no surrounding whitespace).
pub fn parse_u32(s: &str) -> (r: Option<u32>)
    ensures
        r == parse_u32_spec(s.spec_bytes()),
{
    let bytes = s.as_bytes();
    let ghost bs = s.spec_bytes();
    let start: usize = if bytes.len() > 0 && bytes[0] == 43 {
        1
    } else {
        0
    };
    let ghost body = numeral_body(bs);
    proof {
        assert(body =~= bs.skip(start as int));
    }
    if bytes.len() == start {
        return None;
    }
    let mut acc: u64 = 0;
    let mut i: usize = start;
    while i < bytes.len()
        invariant
            bytes@ == bs,
            bs == s.spec_bytes(),
            body == numeral_body(bs),
            body == bs.skip(start as int),
            start == 0 || start == 1,
            start <= i <= bs.len(),
            acc <= u32::MAX,
            all_digits(body.take(i - start)),
            acc == digits_value(body.take(i - start)),
        decreases bs.len() - i,
    {
        let b = bytes[i];
        if b < 48 || b > 57 {
            proof {
                assert(body[i - start] == bs[i as int]);
                assert(!is_digit_byte(body[i - start]));
            }
            return None;
        }
        proof {
            assert(body.take(i - start + 1).drop_last() =~= body.take(i - start));
            assert(body.take(i - start + 1).last() == bs[i as int]);
        }
        acc = acc * 10 + ((b - 48) as u64);
        if acc > (u32::MAX as u64) {
            proof {
                if all_digits(body) {
                    lemma_digits_value_prefix_le(body, i - start + 1);
                }
            }
            return None;
        }
        i += 1;
    }
    proof {
        assert(body.take(bs.len() - start) =~= body);
    }
    Some(acc as u32)
}

/// Parse an unsigned 16-bit integer field (no surrounding whitespace).
pub fn parse_u16(s: &str) -> (r: Option<u16>)
    ensures
        r == parse_u16_spec(s.spec_bytes()),
{
    match parse_u32(s) {
        Some(v) => if v <= u16::MAX as u32 {
            Some(v as u16)
        } else {
            None
        },
        None => None,
    }
}

/// The bytes of an optional field.
pub open spec fn opt_field_bytes(f: Option<&str>) -> Option<Seq<u8>> {
    match f {
        Some(s) => Some(s.spec_bytes()),
        None => None,
    }
}

/// How one row of typed fields becomes a record: the type string, then
/// the client id, then the transaction id, then — for deposits and
/// withdrawals only — the amount. The first field that fails names the
/// error; the referencing kinds ignore the amount field altogether.
pub open spec fn record_spec(
    t: Seq<u8>,
    c: Seq<u8>,
    x: Seq<u8>,
    a: Option<Seq<u8>>,
) -> Result<Record, ParseError> {
    match TransactionType::spec_from_str(t) {
        Err(_) => Err(ParseError::BadType),
        Ok(ty) => match parse_u16_spec(c) {
            None => Err(ParseError::BadClient),
            Some(client_id) => match parse_u32_spec(x) {
                None => Err(ParseError::BadTx),
                Some(tx_id) => if ty.carries_amount() {
                    match a {
                        None => Err(ParseError::MissingAmount),
                        Some(am) => match amount_units_of(am) {
                            None => Err(ParseError::BadAmount),
                            Some(units) => Ok(Record {
                                transaction_type: ty,
                                client_id,
                                tx_id,
                                amount: Some(units),
                            }),
                        },
                    }
                } else {
                    Ok(Record { transaction_type: ty, client_id, tx_id, amount: None })
                },
            },
        },
    }
}

/// Build a record from the four raw fields of one row. Numeric fields
/// are expected with surrounding whitespace already removed. A
/// successful deposit or withdrawal always carries its amount.
pub fn record_from_fields(
    type_field: &str,
    client_field: &str,
    tx_field: &str,
    amount_field: Option<&str>,
) -> (r: Result<Record, ParseError>)
    ensures
        r == record_spec(
            type_field.spec_bytes(),
            client_field.spec_bytes(),
            tx_field.spec_bytes(),
            opt_field_bytes(amount_field),
        ),
        (match r {
            Ok(rec) => rec.transaction_type.carries_amount() ==> rec.amount is Some,
            Err(_) => true,
        }),
{
    let transaction_type = match TransactionType::from_str(type_field) {
        Ok(ty) => ty,
        Err(_) => {
            return Err(ParseError::BadType);
        },
    };
    let client_id = match parse_u16(client_field) {
        Some(c) => c,
        None => {
            return Err(ParseError::BadClient);
        },
    };
    let tx_id = match parse_u32(tx_field) {
        Some(x) => x,
        None => {
            return Err(ParseError::BadTx);
        },
    };
    match transaction_type {
        TransactionType::Deposit | TransactionType::Withdrawal => {
            let amount_str = match amount_field {
                Some(s) => s,
                None => {
                    return Err(ParseError::MissingAmount);
                },
            };
            match parse_amount(amount_str) {
                Some(units) => Ok(Record {
                    transaction_type,
                    client_id,
                    tx_id,
                    amount: Some(units),
                }),
                None => Err(ParseError::BadAmount),
            }
        },
        TransactionType::Dispute | TransactionType::Resolve | TransactionType::Chargeback => Ok(
            Record { transaction_type, client_id, tx_id, amount: None },
        ),
    }
}

} // verus!
