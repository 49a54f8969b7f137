use vstd::prelude::*;
use crate::error::ConfigError;
use crate::ini::chars_eq;
use crate::literal::{Decimal, int_in, is_decimal, parse_i64, signed_value};
use crate::scan::{str_chain, str_chain_exec};
use crate::text::{chars_of, string_of, trim, trim_range};

verus! {

/// Reads a string literal: a double-quoted string, or several joined by `..`
/// (`"a" .. "b"` reads as `ab`). Blanks around the literal are ignored; anything
/// else is a `MalformedLiteral`.
pub fn parse_string_literal(text: &str) -> (r: Result<String, ConfigError>)
    ensures
        match str_chain(trim(text@), 0) {
            Some(c) => if c.1 == trim(text@).len() {
                r is Ok && r->Ok_0@ == c.0
            } else {
                r == Err::<String, ConfigError>(ConfigError::MalformedLiteral)
            },
            None => r == Err::<String, ConfigError>(ConfigError::MalformedLiteral),
        },
{
    let c = chars_of(text);
    let t = trim_range(c.as_slice(), 0, c.len());
    assert(c@.subrange(0, c@.len() as int) =~= c@);
    match str_chain_exec(t.as_slice(), 0) {
        Some(s) => {
            if s.1 == t.len() {
                Ok(string_of(s.0.as_slice()))
            } else {
                Err(ConfigError::MalformedLiteral)
            }
        },
        None => Err(ConfigError::MalformedLiteral),
    }
}

/// Reads a decimal integer with an optional leading `-`; blanks around it are
/// ignored. Anything else, or a value outside 64 bits, is an `InvalidNumber`.
pub fn parse_int_literal(text: &str) -> (r: Result<i64, ConfigError>)
    ensures
        match int_in(signed_value(trim(text@)), i64::MIN as int, i64::MAX as int) {
            Some(n) => r == Ok::<i64, ConfigError>(n as i64),
            None => r == Err::<i64, ConfigError>(ConfigError::InvalidNumber),
        },
{
    let c = chars_of(text);
    let t = trim_range(c.as_slice(), 0, c.len());
    assert(c@.subrange(0, c@.len() as int) =~= c@);
    assert(t@.subrange(0, t@.len() as int) =~= t@);
    match parse_i64(t.as_slice(), 0, t.len()) {
        Some(n) => Ok(n),
        None => Err(ConfigError::InvalidNumber),
    }
}

/// Reads a decimal number (an optional `-`, digits with at most one `.`), kept
/// as its text; blanks around it are ignored. Anything else is an
/// `InvalidNumber`.
pub fn parse_float_literal(text: &str) -> (r: Result<Decimal, ConfigError>)
    ensures
        is_decimal(trim(text@)) ==> r is Ok && r->Ok_0@ == trim(text@),
        !is_decimal(trim(text@)) ==> r is Err && r->Err_0 == ConfigError::InvalidNumber,
{
    let c = chars_of(text);
    let t = trim_range(c.as_slice(), 0, c.len());
    assert(c@.subrange(0, c@.len() as int) =~= c@);
    match Decimal::from_chars(t.as_slice()) {
        Some(d) => Ok(d),
        None => Err(ConfigError::InvalidNumber),
    }
}

/// Reads `true` or `false`, exactly so written; blanks around it are ignored.
/// Anything else is an `InvalidBoolean`.
pub fn parse_bool_literal(text: &str) -> (r: Result<bool, ConfigError>)
    ensures
        trim(text@) == "true"@ ==> r == Ok::<bool, ConfigError>(true),
        trim(text@) == "false"@ ==> r == Ok::<bool, ConfigError>(false),
        trim(text@) != "true"@ && trim(text@) != "false"@ ==> r == Err::<bool, ConfigError>(
            ConfigError::InvalidBoolean,
        ),
{
    let c = chars_of(text);
    let t = trim_range(c.as_slice(), 0, c.len());
    assert(c@.subrange(0, c@.len() as int) =~= c@);
    let tr = chars_of("true");
    let fa = chars_of("false");
    proof {
        reveal_strlit("true");
        reveal_strlit("false");
        assert("true"@.len() != "false"@.len());
    }
    if chars_eq(t.as_slice(), tr.as_slice()) {
        Ok(true)
    } else if chars_eq(t.as_slice(), fa.as_slice()) {
        Ok(false)
    } else {
        Err(ConfigError::InvalidBoolean)
    }
}

} // verus!
