//! Wire codecs of the fixed-width signed integers.

use vstd::prelude::*;
use byteorder::{ByteOrder, NetworkEndian};
use crate::catalog::{HasSqlType, PgTypeInfo, Postgres, TypeId};
use crate::codec::{Decode, Encode};
use crate::error::{DecodeError, EncodeError};
use crate::wire::{
    be_bytes, be_value, lemma_be_digits_len, lemma_bytes_of_value, lemma_radix_values,
    lemma_value_of_bytes, residue,
};

verus! {

/// `i16::to_be_bytes` of std: the two bytes of `v`, most significant first.
#[verifier::external_body]
fn i16_to_be_bytes(v: i16) -> (bytes: [u8; 2])
    ensures
        bytes@ == be_bytes(v as int, 2),
{
    v.to_be_bytes()
}

/// `i32::to_be_bytes` of std: the four bytes of `v`, most significant first.
#[verifier::external_body]
fn i32_to_be_bytes(v: i32) -> (bytes: [u8; 4])
    ensures
        bytes@ == be_bytes(v as int, 4),
{
    v.to_be_bytes()
}

/// `i64::to_be_bytes` of std: the eight bytes of `v`, most significant first.
#[verifier::external_body]
fn i64_to_be_bytes(v: i64) -> (bytes: [u8; 8])
    ensures
        bytes@ == be_bytes(v as int, 8),
{
    v.to_be_bytes()
}

/// `ByteOrder::read_i16` of byteorder, in network order: the signed integer
/// that the first two bytes of `buf` hold, most significant first. It panics
/// on a shorter `buf`.
#[verifier::external_body]
fn read_i16(buf: &[u8]) -> (v: i16)
    requires
        buf@.len() >= 2,
    ensures
        v == be_value(buf@.subrange(0, 2)),
{
    NetworkEndian::read_i16(buf)
}

/// `ByteOrder::read_i32` of byteorder, in network order: the signed integer
/// that the first four bytes of `buf` hold, most significant first. It panics
/// on a shorter `buf`.
#[verifier::external_body]
fn read_i32(buf: &[u8]) -> (v: i32)
    requires
        buf@.len() >= 4,
    ensures
        v == be_value(buf@.subrange(0, 4)),
{
    NetworkEndian::read_i32(buf)
}

/// `ByteOrder::read_i64` of byteorder, in network order: the signed integer
/// that the first eight bytes of `buf` hold, most significant first. It
/// panics on a shorter `buf`.
#[verifier::external_body]
fn read_i64(buf: &[u8]) -> (v: i64)
    requires
        buf@.len() >= 8,
    ensures
        v == be_value(buf@.subrange(0, 8)),
{
    NetworkEndian::read_i64(buf)
}

impl HasSqlType<i16> for Postgres {
    open spec fn backend_id() -> u32 {
        TypeId::INT2
    }

    open spec fn display_name() -> Seq<char> {
        "int2"@
    }

    fn type_info() -> (info: PgTypeInfo) {
        PgTypeInfo::new(TypeId::INT2, "int2")
    }
}

impl HasSqlType<[i16]> for Postgres {
    open spec fn backend_id() -> u32 {
        TypeId::ARRAY_INT2
    }

    open spec fn display_name() -> Seq<char> {
        "int2[]"@
    }

    fn type_info() -> (info: PgTypeInfo) {
        PgTypeInfo::new(TypeId::ARRAY_INT2, "int2[]")
    }
}

impl Encode<Postgres> for i16 {
    open spec fn wire(&self) -> Option<Seq<u8>> {
        Some(be_bytes(*self as int, 2))
    }

    open spec fn width() -> nat {
        2
    }

    fn encode(&self, buf: &mut Vec<u8>) -> (r: Result<(), EncodeError>) {
        let bytes = i16_to_be_bytes(*self);
        buf.extend_from_slice(bytes.as_slice());
        assert(buf@ =~= old(buf)@ + bytes@);
        Ok(())
    }

    fn size_hint(&self) -> (n: usize) {
        2
    }

    proof fn lemma_wire_width(&self) {
        lemma_be_digits_len(residue(*self as int, 2), 2);
    }
}

impl Decode<Postgres> for i16 {
    open spec fn parse(raw: Seq<u8>) -> Result<Self, DecodeError> {
        if raw.len() == 2 {
            Ok(be_value(raw) as i16)
        } else {
            Err(DecodeError::Malformed)
        }
    }

    fn decode(raw: &[u8]) -> (r: Result<Self, DecodeError>) {
        if raw.len() != 2 {
            return Err(DecodeError::Malformed);
        }
        assert(raw@.subrange(0, 2) =~= raw@);
        Ok(read_i16(raw))
    }
}

impl HasSqlType<i32> for Postgres {
    open spec fn backend_id() -> u32 {
        TypeId::INT4
    }

    open spec fn display_name() -> Seq<char> {
        "int4"@
    }

    fn type_info() -> (info: PgTypeInfo) {
        PgTypeInfo::new(TypeId::INT4, "int4")
    }
}

impl HasSqlType<[i32]> for Postgres {
    open spec fn backend_id() -> u32 {
        TypeId::ARRAY_INT4
    }

    open spec fn display_name() -> Seq<char> {
        "int4[]"@
    }

    fn type_info() -> (info: PgTypeInfo) {
        PgTypeInfo::new(TypeId::ARRAY_INT4, "int4[]")
    }
}

impl Encode<Postgres> for i32 {
    open spec fn wire(&self) -> Option<Seq<u8>> {
        Some(be_bytes(*self as int, 4))
    }

    open spec fn width() -> nat {
        4
    }

    fn encode(&self, buf: &mut Vec<u8>) -> (r: Result<(), EncodeError>) {
        let bytes = i32_to_be_bytes(*self);
        buf.extend_from_slice(bytes.as_slice());
        assert(buf@ =~= old(buf)@ + bytes@);
        Ok(())
    }

    fn size_hint(&self) -> (n: usize) {
        4
    }

    proof fn lemma_wire_width(&self) {
        lemma_be_digits_len(residue(*self as int, 4), 4);
    }
}

impl Decode<Postgres> for i32 {
    open spec fn parse(raw: Seq<u8>) -> Result<Self, DecodeError> {
        if raw.len() == 4 {
            Ok(be_value(raw) as i32)
        } else {
            Err(DecodeError::Malformed)
        }
    }

    fn decode(raw: &[u8]) -> (r: Result<Self, DecodeError>) {
        if raw.len() != 4 {
            return Err(DecodeError::Malformed);
        }
        assert(raw@.subrange(0, 4) =~= raw@);
        Ok(read_i32(raw))
    }
}

impl HasSqlType<i64> for Postgres {
    open spec fn backend_id() -> u32 {
        TypeId::INT8
    }

    open spec fn display_name() -> Seq<char> {
        "int8"@
    }

    fn type_info() -> (info: PgTypeInfo) {
        PgTypeInfo::new(TypeId::INT8, "int8")
    }
}

impl HasSqlType<[i64]> for Postgres {
    open spec fn backend_id() -> u32 {
        TypeId::ARRAY_INT8
    }

    open spec fn display_name() -> Seq<char> {
        "int8[]"@
    }

    fn type_info() -> (info: PgTypeInfo) {
        PgTypeInfo::new(TypeId::ARRAY_INT8, "int8[]")
    }
}

impl Encode<Postgres> for i64 {
    open spec fn wire(&self) -> Option<Seq<u8>> {
        Some(be_bytes(*self as int, 8))
    }

    open spec fn width() -> nat {
        8
    }

    fn encode(&self, buf: &mut Vec<u8>) -> (r: Result<(), EncodeError>) {
        let bytes = i64_to_be_bytes(*self);
        buf.extend_from_slice(bytes.as_slice());
        assert(buf@ =~= old(buf)@ + bytes@);
        Ok(())
    }

    fn size_hint(&self) -> (n: usize) {
        8
    }

    proof fn lemma_wire_width(&self) {
        lemma_be_digits_len(residue(*self as int, 8), 8);
    }
}

impl Decode<Postgres> for i64 {
    open spec fn parse(raw: Seq<u8>) -> Result<Self, DecodeError> {
        if raw.len() == 8 {
            Ok(be_value(raw) as i64)
        } else {
            Err(DecodeError::Malformed)
        }
    }

    fn decode(raw: &[u8]) -> (r: Result<Self, DecodeError>) {
        if raw.len() != 8 {
            return Err(DecodeError::Malformed);
        }
        assert(raw@.subrange(0, 8) =~= raw@);
        Ok(read_i64(raw))
    }
}

/// Decoding the wire bytes of a 16-bit integer gives the integer back.
pub proof fn lemma_i16_round_trip(v: i16)
    ensures
        <i16 as Encode<Postgres>>::wire(&v) == Some(be_bytes(v as int, 2)),
        <i16 as Decode<Postgres>>::parse(be_bytes(v as int, 2)) == Ok::<i16, DecodeError>(v),
{
    lemma_radix_values();
    lemma_value_of_bytes(v as int, 2);
}

/// Decoding the wire bytes of a 32-bit integer gives the integer back.
pub proof fn lemma_i32_round_trip(v: i32)
    ensures
        <i32 as Encode<Postgres>>::wire(&v) == Some(be_bytes(v as int, 4)),
        <i32 as Decode<Postgres>>::parse(be_bytes(v as int, 4)) == Ok::<i32, DecodeError>(v),
{
    lemma_radix_values();
    lemma_value_of_bytes(v as int, 4);
}

/// Decoding the wire bytes of a 64-bit integer gives the integer back.
pub proof fn lemma_i64_round_trip(v: i64)
    ensures
        <i64 as Encode<Postgres>>::wire(&v) == Some(be_bytes(v as int, 8)),
        <i64 as Decode<Postgres>>::parse(be_bytes(v as int, 8)) == Ok::<i64, DecodeError>(v),
{
    lemma_radix_values();
    lemma_value_of_bytes(v as int, 8);
}

/// Every string of the right width is the wire form of the integer that it
/// decodes to, so the wire format has no second spelling of a value.
pub proof fn lemma_i16_wire_is_canonical(raw: Seq<u8>)
    requires
        raw.len() == 2,
    ensures
        <i16 as Decode<Postgres>>::parse(raw) matches Ok(v) && <i16 as Encode<Postgres>>::wire(&v)
            == Some(raw),
{
    lemma_radix_values();
    lemma_bytes_of_value(raw);
}

/// Every string of the right width is the wire form of the integer that it
/// decodes to, so the wire format has no second spelling of a value.
pub proof fn lemma_i32_wire_is_canonical(raw: Seq<u8>)
    requires
        raw.len() == 4,
    ensures
        <i32 as Decode<Postgres>>::parse(raw) matches Ok(v) && <i32 as Encode<Postgres>>::wire(&v)
            == Some(raw),
{
    lemma_radix_values();
    lemma_bytes_of_value(raw);
}

/// Every string of the right width is the wire form of the integer that it
/// decodes to, so the wire format has no second spelling of a value.
pub proof fn lemma_i64_wire_is_canonical(raw: Seq<u8>)
    requires
        raw.len() == 8,
    ensures
        <i64 as Decode<Postgres>>::parse(raw) matches Ok(v) && <i64 as Encode<Postgres>>::wire(&v)
            == Some(raw),
{
    lemma_radix_values();
    lemma_bytes_of_value(raw);
}

} // verus!
