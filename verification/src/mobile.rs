//! The handheld bridge: what is sent to the native side and what comes
//! back.
//!
//! On handheld platforms the native side keeps the devices and the
//! sessions; this side only words the requests and reads the replies. The
//! native side carries report bytes as signed 8-bit values, everything else
//! in this crate speaks of unsigned bytes, and the two are the same eight
//! bits read differently.

use crate::models::{CloseArgs, EnumerateResult, HidDeviceInfo, OpenArgs, ReadArgs, ReadResult, WriteArgs};
use vstd::prelude::*;

verus! {

/// The signed value that has the same eight bits as `b`.
pub open spec fn signed_of(b: u8) -> i8 {
    if b < 128 {
        b as i8
    } else {
        (b - 256) as i8
    }
}

/// The unsigned value that has the same eight bits as `s`.
pub open spec fn unsigned_of(s: i8) -> u8 {
    if s >= 0 {
        s as u8
    } else {
        (s + 256) as u8
    }
}

/// A report in the bridge's signed bytes.
pub open spec fn signed_bytes(data: Seq<u8>) -> Seq<i8> {
    data.map_values(|b: u8| signed_of(b))
}

/// A report of the bridge in unsigned bytes.
pub open spec fn unsigned_bytes(data: Seq<i8>) -> Seq<u8> {
    data.map_values(|s: i8| unsigned_of(s))
}

/// A byte sent across the bridge and back is the byte it was.
pub proof fn law_byte_round_trip(b: u8)
    ensures
        unsigned_of(signed_of(b)) == b,
{
}

/// A signed byte taken from the bridge and sent back is the byte it was.
pub proof fn law_signed_round_trip(s: i8)
    ensures
        signed_of(unsigned_of(s)) == s,
{
}

/// A report sent across the bridge and back is the report it was, in
/// either direction.
pub proof fn law_report_round_trip(data: Seq<u8>, signed: Seq<i8>)
    ensures
        unsigned_bytes(signed_bytes(data)) == data,
        signed_bytes(unsigned_bytes(signed)) == signed,
{
    assert(unsigned_bytes(signed_bytes(data)) =~= data);
    assert(signed_bytes(unsigned_bytes(signed)) =~= signed);
}

/// The unsigned reading of a signed byte is its low eight bits.
pub proof fn lemma_unsigned_is_low_bits(s: i8)
    ensures
        unsigned_of(s) == (s as i32 & 0xff) as u8,
        0 <= (s as i32 & 0xff) < 256,
{
    assert(unsigned_of(s) == (s as i32 & 0xff) as u8 && 0 <= (s as i32 & 0xff) < 256) by (bit_vector);
}

/// The low eight bits of the signed reading of a byte are the byte.
pub proof fn lemma_signed_keeps_low_bits(b: u8)
    ensures
        (signed_of(b) as i32 & 0xff) == b as i32,
{
    assert((signed_of(b) as i32 & 0xff) == b as i32) by (bit_vector);
}

/// Reads an unsigned byte as the signed byte with the same bits.
pub fn to_signed(b: u8) -> (s: i8)
    ensures
        s == signed_of(b),
{
    let s: i8 = #[verifier::truncate] (b as i8);
    assert(s == signed_of(b)) by (bit_vector)
        requires
            s == b as i8,
    ;
    s
}

/// Reads a signed byte as the unsigned byte with the same bits.
pub fn to_unsigned(s: i8) -> (b: u8)
    ensures
        b == unsigned_of(s),
{
    let b: u8 = #[verifier::truncate] (s as u8);
    assert(b == unsigned_of(s)) by (bit_vector)
        requires
            b == s as u8,
    ;
    b
}

/// A report in the signed bytes that the bridge carries.
pub fn to_signed_bytes(data: &[u8]) -> (signed: Vec<i8>)
    ensures
        signed@ == signed_bytes(data@),
{
    let mut signed: Vec<i8> = Vec::new();
    let mut i: usize = 0;
    while i < data.len()
        invariant
            i <= data@.len(),
            signed@ == signed_bytes(data@.take(i as int)),
        decreases data@.len() - i,
    {
        signed.push(to_signed(data[i]));
        assert(signed@ =~= signed_bytes(data@.take(i + 1)));
        i += 1;
    }
    assert(data@.take(data@.len() as int) =~= data@);
    signed
}

/// A report of the bridge in unsigned bytes.
pub fn to_unsigned_bytes(data: &[i8]) -> (bytes: Vec<u8>)
    ensures
        bytes@ == unsigned_bytes(data@),
{
    let mut bytes: Vec<u8> = Vec::new();
    let mut i: usize = 0;
    while i < data.len()
        invariant
            i <= data@.len(),
            bytes@ == unsigned_bytes(data@.take(i as int)),
        decreases data@.len() - i,
    {
        bytes.push(to_unsigned(data[i]));
        assert(bytes@ =~= unsigned_bytes(data@.take(i + 1)));
        i += 1;
    }
    assert(data@.take(data@.len() as int) =~= data@);
    bytes
}

/// What the bridge is sent to open the device under `path`.
pub fn open_request(path: &str) -> (args: OpenArgs)
    ensures
        args.path@ == path@,
{
    OpenArgs { path: path.to_owned() }
}

/// What the bridge is sent to close the device under `path`.
pub fn close_request(path: &str) -> (args: CloseArgs)
    ensures
        args.path@ == path@,
{
    CloseArgs { path: path.to_owned() }
}

/// What the bridge is sent to read from the device under `path`, with the
/// time limit as the caller gave it.
pub fn read_request(path: &str, timeout: i32) -> (args: ReadArgs)
    ensures
        args.path@ == path@,
        args.timeout == timeout,
{
    ReadArgs { path: path.to_owned(), timeout }
}

/// What the bridge is sent to write `data` to the device under `path`: the
/// same bytes, signed. No byte is added or taken away; the first one is the
/// report identifier as the caller gave it.
pub fn write_request(path: &str, data: &[u8]) -> (args: WriteArgs)
    ensures
        args.path@ == path@,
        args.data@ == signed_bytes(data@),
        args.data@.len() == data@.len(),
        forall|i: int|
            0 <= i < data@.len() ==> (#[trigger] args.data@[i] as i32 & 0xff) == data@[i] as i32,
        unsigned_bytes(args.data@) == data@,
{
    let args = WriteArgs { path: path.to_owned(), data: to_signed_bytes(data) };
    proof {
        assert forall|i: int| 0 <= i < data@.len() implies (#[trigger] args.data@[i] as i32 & 0xff)
            == data@[i] as i32 by {
            lemma_signed_keeps_low_bits(data@[i]);
        }
        law_report_round_trip(data@, args.data@);
    }
    args
}

/// The report in the bridge's answer to a read, in unsigned bytes.
pub fn read_reply(result: &ReadResult) -> (data: Vec<u8>)
    ensures
        data@ == unsigned_bytes(result.data@),
{
    to_unsigned_bytes(result.data.as_slice())
}

/// The devices in the bridge's answer to an enumeration.
pub fn enumerate_reply(result: EnumerateResult) -> (devices: Vec<HidDeviceInfo>)
    ensures
        devices == result.devices,
{
    result.devices
}

} // verus!
