//! The value codec: one textual cell value decoded into a requested typed
//! value. The engine exposes every bound value as formatted text regardless
//! of the native column type, so numbers and strings all pass through this
//! one text-based path.

use vstd::prelude::*;

use crate::error::Error;
use crate::error::ErrorView;
use crate::text::dec_value;
use crate::text::is_signed_dec_text;
use crate::text::is_unsigned_dec_text;
use crate::text::lemma_dec_value_bounds;
use crate::text::signed_dec_value;
use crate::text::unsigned_digits;

verus! {

/// Relies on `serde_plain::from_str::<u8>`, which parses the entire input as
/// a decimal integer through Rust's `str::parse`; the error is rendered to
/// text.
#[verifier::external_body]
fn decode_u8_text(s: &str) -> (r: Result<u8, String>)
    ensures
        (r is Ok) <==> is_unsigned_dec_text(s@, u8::MAX as int),
        r matches Ok(v) ==> v as int == dec_value(unsigned_digits(s@)),
{
    serde_plain::from_str::<u8>(s).map_err(|e| e.to_string())
}

/// Relies on `serde_plain::from_str::<u32>`; see `decode_u8_text`.
#[verifier::external_body]
fn decode_u32_text(s: &str) -> (r: Result<u32, String>)
    ensures
        (r is Ok) <==> is_unsigned_dec_text(s@, u32::MAX as int),
        r matches Ok(v) ==> v as int == dec_value(unsigned_digits(s@)),
{
    serde_plain::from_str::<u32>(s).map_err(|e| e.to_string())
}

/// Relies on `serde_plain::from_str::<u64>`; see `decode_u8_text`.
#[verifier::external_body]
fn decode_u64_text(s: &str) -> (r: Result<u64, String>)
    ensures
        (r is Ok) <==> is_unsigned_dec_text(s@, u64::MAX as int),
        r matches Ok(v) ==> v as int == dec_value(unsigned_digits(s@)),
{
    serde_plain::from_str::<u64>(s).map_err(|e| e.to_string())
}

/// Relies on `serde_plain::from_str::<i64>`, which parses the entire input
/// as an optionally signed decimal integer through Rust's `str::parse`; the
/// error is rendered to text.
#[verifier::external_body]
fn decode_i64_text(s: &str) -> (r: Result<i64, String>)
    ensures
        (r is Ok) <==> is_signed_dec_text(s@, i64::MIN as int, i64::MAX as int),
        r matches Ok(v) ==> v as int == signed_dec_value(s@),
{
    serde_plain::from_str::<i64>(s).map_err(|e| e.to_string())
}

/// Relies on `serde_plain::from_str::<String>`, which hands the input back
/// as an owned string and cannot fail.
#[verifier::external_body]
fn decode_string_text(s: &str) -> (r: String)
    ensures
        r@ == s@,
{
    match serde_plain::from_str::<String>(s) {
        Ok(v) => v,
        Err(_) => String::new(),
    }
}

/// Conversion of one SQL cell's text into a Rust value.
///
/// `sql_decodes` says exactly which texts decode, and `sql_decoded` what
/// value they decode to, stated over the mathematical shape of the type.
pub trait FromSql: Sized + DeepView {
    /// Whether this cell text decodes into a value of `Self`.
    spec fn sql_decodes(s: Seq<char>) -> bool;

    /// The value the text decodes to, when `sql_decodes` holds.
    spec fn sql_decoded(s: Seq<char>) -> Self::V;

    /// Converts SQL value text into a Rust value.
    fn column_result(value: &str) -> (r: Result<Self, Error>)
        ensures
            (r is Ok) <==> Self::sql_decodes(value@),
            r matches Ok(v) ==> v.deep_view() == Self::sql_decoded(value@),
            r matches Err(e) ==> e@ is FromSqlError,
    ;
}

impl FromSql for u8 {
    open spec fn sql_decodes(s: Seq<char>) -> bool {
        is_unsigned_dec_text(s, u8::MAX as int)
    }

    open spec fn sql_decoded(s: Seq<char>) -> u8 {
        dec_value(unsigned_digits(s)) as u8
    }

    fn column_result(value: &str) -> (r: Result<Self, Error>) {
        match decode_u8_text(value) {
            Ok(v) => {
                proof {
                    lemma_dec_value_bounds(unsigned_digits(value@));
                }
                Ok(v)
            },
            Err(m) => Err(Error::FromSqlError(m)),
        }
    }
}

impl FromSql for u32 {
    open spec fn sql_decodes(s: Seq<char>) -> bool {
        is_unsigned_dec_text(s, u32::MAX as int)
    }

    open spec fn sql_decoded(s: Seq<char>) -> u32 {
        dec_value(unsigned_digits(s)) as u32
    }

    fn column_result(value: &str) -> (r: Result<Self, Error>) {
        match decode_u32_text(value) {
            Ok(v) => {
                proof {
                    lemma_dec_value_bounds(unsigned_digits(value@));
                }
                Ok(v)
            },
            Err(m) => Err(Error::FromSqlError(m)),
        }
    }
}

impl FromSql for u64 {
    open spec fn sql_decodes(s: Seq<char>) -> bool {
        is_unsigned_dec_text(s, u64::MAX as int)
    }

    open spec fn sql_decoded(s: Seq<char>) -> u64 {
        dec_value(unsigned_digits(s)) as u64
    }

    fn column_result(value: &str) -> (r: Result<Self, Error>) {
        match decode_u64_text(value) {
            Ok(v) => {
                proof {
                    lemma_dec_value_bounds(unsigned_digits(value@));
                }
                Ok(v)
            },
            Err(m) => Err(Error::FromSqlError(m)),
        }
    }
}

impl FromSql for i64 {
    open spec fn sql_decodes(s: Seq<char>) -> bool {
        is_signed_dec_text(s, i64::MIN as int, i64::MAX as int)
    }

    open spec fn sql_decoded(s: Seq<char>) -> i64 {
        signed_dec_value(s) as i64
    }

    fn column_result(value: &str) -> (r: Result<Self, Error>) {
        match decode_i64_text(value) {
            Ok(v) => {
                proof {
                    if value@.len() > 0 && value@[0] == '-' {
                        lemma_dec_value_bounds(value@.skip(1));
                    } else {
                        lemma_dec_value_bounds(unsigned_digits(value@));
                    }
                }
                Ok(v)
            },
            Err(m) => Err(Error::FromSqlError(m)),
        }
    }
}

impl FromSql for String {
    open spec fn sql_decodes(s: Seq<char>) -> bool {
        true
    }

    open spec fn sql_decoded(s: Seq<char>) -> Seq<char> {
        s
    }

    fn column_result(value: &str) -> (r: Result<Self, Error>) {
        Ok(decode_string_text(value))
    }
}

} // verus!
