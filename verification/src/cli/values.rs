//! Values given on the command line: integers and account addresses.
use vstd::prelude::*;
use core::str::FromStr;
use solana_sdk::pubkey::Pubkey;
use crate::address::Address;

verus! {

/// The digits of a decimal numeral: after an optional leading `+`, at
/// least one character, each an ASCII digit.
pub open spec fn numeral_digits(s: Seq<char>) -> Option<Seq<char>> {
    let d = if s.len() > 0 && s[0] == '+' {
        s.subrange(1, s.len() as int)
    } else {
        s
    };
    if d.len() > 0 && forall|i: int| 0 <= i < d.len() ==> '0' as int <= #[trigger] d[i] as int <= '9' as int {
        Some(d)
    } else {
        None
    }
}

/// The value of a string of decimal digits.
pub open spec fn digits_value(d: Seq<char>) -> nat
    decreases d.len(),
{
    if d.len() == 0 {
        0
    } else {
        digits_value(d.drop_last()) * 10 + (d.last() as int - '0' as int) as nat
    }
}

/// The number a decimal numeral writes, when it is one and the number is at
/// most `max`.
pub open spec fn decimal_value(s: Seq<char>, max: nat) -> Option<nat> {
    match numeral_digits(s) {
        Some(d) => if digits_value(d) <= max {
            Some(digits_value(d))
        } else {
            None
        },
        None => None,
    }
}

/// What `u8::from_str` gives: the number a decimal numeral writes, when it
/// fits in a `u8`.
pub open spec fn parsed_u8(s: Seq<char>) -> Option<u8> {
    match decimal_value(s, u8::MAX as nat) {
        Some(v) => Some(v as u8),
        None => None,
    }
}

/// What `u64::from_str` gives: the number a decimal numeral writes, when it
/// fits in a `u64`.
pub open spec fn parsed_u64(s: Seq<char>) -> Option<u64> {
    match decimal_value(s, u64::MAX as nat) {
        Some(v) => Some(v as u64),
        None => None,
    }
}

/// Name for the result of `u128::from_str`: the number, or the text of the
/// parse error.
pub uninterp spec fn parsed_u128(s: Seq<char>) -> Result<u128, Seq<char>>;

/// Name for the result of `Pubkey::from_str` on a base-58 text.
pub uninterp spec fn parsed_address(s: Seq<char>) -> Option<Address>;

/// Calls `u8::from_str`, which reads an optional `+` followed by decimal
/// digits, and fails on anything else or on a number above `u8::MAX`.
#[verifier::external_body]
pub(crate) fn u8_from_str(s: &str) -> (r: Option<u8>)
    ensures
        r == parsed_u8(s@),
{
    u8::from_str(s).ok()
}

/// Calls `u64::from_str`, which reads an optional `+` followed by decimal
/// digits, and fails on anything else or on a number above `u64::MAX`.
#[verifier::external_body]
pub(crate) fn u64_from_str(s: &str) -> (r: Option<u64>)
    ensures
        r == parsed_u64(s@),
{
    u64::from_str(s).ok()
}

/// Calls `u128::from_str`, which reads an optional `+` followed by decimal
/// digits, and fails on anything else or on a number above `u128::MAX`.
/// Which text the parse error has is named, not described.
#[verifier::external_body]
pub(crate) fn u128_from_str(s: &str) -> (r: Result<u128, String>)
    ensures
        parsed_u128(s@) == (match r {
            Ok(v) => Ok::<u128, Seq<char>>(v),
            Err(e) => Err::<u128, Seq<char>>(e@),
        }),
        match decimal_value(s@, u128::MAX as nat) {
            Some(v) => r == Ok::<u128, String>(v as u128),
            None => r is Err,
        },
{
    match u128::from_str(s) {
        Ok(v) => Ok(v),
        Err(e) => Err(e.to_string()),
    }
}

/// Calls `Pubkey::from_str`, which decodes a base-58 text of a 32-byte
/// address; the address is returned as four big-endian words. The result is
/// named, not described.
#[verifier::external_body]
pub(crate) fn address_from_str(s: &str) -> (r: Option<Address>)
    ensures
        r == parsed_address(s@),
{
    match Pubkey::from_str(s) {
        Ok(k) => {
            let b = k.to_bytes();
            let mut w = b.chunks(8).map(|c| u64::from_be_bytes(c.try_into().unwrap()));
            Some(Address { w0: w.next().unwrap(), w1: w.next().unwrap(), w2: w.next().unwrap(), w3: w.next().unwrap() })
        },
        Err(_) => None,
    }
}

/// An optional `u8` argument: `Some(None)` when absent, `None` when given
/// but not a `u8`.
pub open spec fn u8_arg(arg: Option<String>) -> Option<Option<u8>> {
    match arg {
        None => Some(None),
        Some(s) => match parsed_u8(s@) {
            Some(v) => Some(Some(v)),
            None => None,
        },
    }
}

/// An optional address argument: `Some(None)` when absent, `None` when given
/// but not an address.
pub open spec fn address_arg(arg: Option<String>) -> Option<Option<Address>> {
    match arg {
        None => Some(None),
        Some(s) => match parsed_address(s@) {
            Some(a) => Some(Some(a)),
            None => None,
        },
    }
}

/// Reads an optional `u8` argument: `Some(None)` when absent, `None` when
/// given but not a `u8`.
pub fn optional_u8(arg: &Option<String>) -> (r: Option<Option<u8>>)
    ensures
        r == u8_arg(*arg),
{
    match arg {
        None => Some(None),
        Some(s) => match u8_from_str(s.as_str()) {
            Some(v) => Some(Some(v)),
            None => None,
        },
    }
}

/// Reads an optional address argument: `Some(None)` when absent, `None`
/// when given but not an address.
pub fn optional_address(arg: &Option<String>) -> (r: Option<Option<Address>>)
    ensures
        r == address_arg(*arg),
{
    match arg {
        None => Some(None),
        Some(s) => match address_from_str(s.as_str()) {
            Some(a) => Some(Some(a)),
            None => None,
        },
    }
}

} // verus!
