use vstd::prelude::*;

use crate::error::InstructionError;

verus! {

/// Byte length of the serialized greeting counter record.
pub const COUNTER_RECORD_LEN: usize = 4;

/// Byte length of the transfer amount field of a split payload.
pub const AMOUNT_FIELD_LEN: usize = 8;

/// The unsigned value of four little-endian bytes.
pub open spec fn le4(s: Seq<u8>) -> int
    recommends
        s.len() == 4,
{
    s[0] + s[1] * 0x100 + s[2] * 0x1_0000 + s[3] * 0x100_0000
}

/// The unsigned value of eight little-endian bytes.
pub open spec fn le8(s: Seq<u8>) -> int
    recommends
        s.len() == 8,
{
    s[0] + s[1] * 0x100 + s[2] * 0x1_0000 + s[3] * 0x100_0000 + s[4] * 0x1_0000_0000
        + s[5] * 0x100_0000_0000 + s[6] * 0x1_0000_0000_0000 + s[7] * 0x100_0000_0000_0000
}

/// The four-byte little-endian serialization of a counter value.
pub open spec fn counter_bytes(c: u32) -> Seq<u8> {
    seq![
        (c % 0x100) as u8,
        ((c / 0x100) % 0x100) as u8,
        ((c / 0x1_0000) % 0x100) as u8,
        ((c / 0x100_0000) % 0x100) as u8,
    ]
}

/// Serializing a counter and reading the bytes back yields the counter:
/// `le4` inverts `counter_bytes`.
pub proof fn lemma_counter_bytes_value(c: u32)
    ensures
        counter_bytes(c).len() == 4,
        le4(counter_bytes(c)) == c,
{
}

/// `le4` is injective on four-byte records: two records with the same
/// value hold the same bytes. Together with `lemma_counter_bytes_value`
/// this gives the round trip in both directions: deserializing a record
/// and re-serializing the value reproduces the record.
pub proof fn lemma_le4_injective(s: Seq<u8>, t: Seq<u8>)
    requires
        s.len() == 4,
        t.len() == 4,
        le4(s) == le4(t),
    ensures
        s =~= t,
{
    assert(s[0] == t[0] && s[1] == t[1] && s[2] == t[2] && s[3] == t[3]) by (nonlinear_arith)
        requires
            s.len() == 4,
            t.len() == 4,
            le4(s) == le4(t),
            forall|i: int| 0 <= i < 4 ==> 0 <= #[trigger] s[i] < 0x100,
            forall|i: int| 0 <= i < 4 ==> 0 <= #[trigger] t[i] < 0x100,
    {
    }
}

/// Decode the transfer amount of a split payload: the first eight bytes,
/// little-endian. A shorter payload is rejected; any trailing bytes are
/// ignored.
pub fn decode_amount(input: &Vec<u8>) -> (r: Result<u64, InstructionError>)
    ensures
        input@.len() >= 8 ==> (r matches Ok(a) && a == le8(input@.subrange(0, 8))),
        input@.len() < 8 ==> r == Err::<u64, InstructionError>(
            InstructionError::InvalidInstructionData,
        ),
{
    if input.len() < AMOUNT_FIELD_LEN {
        return Err(InstructionError::InvalidInstructionData);
    }
    let v: u64 = (input[0] as u64) + (input[1] as u64) * 0x100 + (input[2] as u64) * 0x1_0000
        + (input[3] as u64) * 0x100_0000 + (input[4] as u64) * 0x1_0000_0000
        + (input[5] as u64) * 0x100_0000_0000 + (input[6] as u64) * 0x1_0000_0000_0000
        + (input[7] as u64) * 0x100_0000_0000_0000;
    Ok(v)
}

/// Deserialize the greeting counter record: exactly four little-endian
/// bytes. Any other buffer length is a format error.
pub fn decode_counter(data: &Vec<u8>) -> (r: Result<u32, InstructionError>)
    ensures
        data@.len() == 4 ==> (r matches Ok(c) && c == le4(data@)),
        data@.len() != 4 ==> r == Err::<u32, InstructionError>(
            InstructionError::StateDeserializationError,
        ),
{
    if data.len() != COUNTER_RECORD_LEN {
        return Err(InstructionError::StateDeserializationError);
    }
    let v: u32 = (data[0] as u32) + (data[1] as u32) * 0x100 + (data[2] as u32) * 0x1_0000
        + (data[3] as u32) * 0x100_0000;
    Ok(v)
}

/// Serialize a counter value into its four-byte little-endian record.
pub fn encode_counter(c: u32) -> (r: Vec<u8>)
    ensures
        r@ == counter_bytes(c),
        r@.len() == 4,
        le4(r@) == c,
{
    let mut out: Vec<u8> = Vec::new();
    out.push((c % 0x100) as u8);
    out.push(((c / 0x100) % 0x100) as u8);
    out.push(((c / 0x1_0000) % 0x100) as u8);
    out.push(((c / 0x100_0000) % 0x100) as u8);
    proof {
        assert(out@ =~= counter_bytes(c));
        lemma_counter_bytes_value(c);
    }
    out
}

} // verus!
