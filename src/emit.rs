//! The framed line protocol on standard output.
//!
//! One `FIRE INIT` line at start-up, then one `FIRE BLOCK` line per block:
//! height, hex block hash, parent height, hex parent hash, last irreversible
//! height, timestamp and, unless quiet, the standard base64 of the wire
//! block.
use crate::decimal::{decimal_of, to_decimal};
use base64::Engine;
use vstd::prelude::*;

verus! {

pub open spec fn hex_digit(d: nat) -> char {
    if d < 10 {
        crate::decimal::digit_char(d)
    } else if d == 10 {
        'a'
    } else if d == 11 {
        'b'
    } else if d == 12 {
        'c'
    } else if d == 13 {
        'd'
    } else if d == 14 {
        'e'
    } else {
        'f'
    }
}

/// Lower-case hex, two digits per byte, high digit first.
pub open spec fn hex_of(b: Seq<u8>) -> Seq<char>
    decreases b.len(),
{
    if b.len() == 0 {
        Seq::empty()
    } else {
        hex_of(b.drop_last()) + seq![hex_digit(b.last() as nat / 16), hex_digit(b.last() as nat % 16)]
    }
}

/// Relies on `hex::encode`: two lower-case hex digits per byte, high digit
/// first, bytes in order.
#[verifier::external_body]
pub(crate) fn hex_encode(b: &Vec<u8>) -> (r: String)
    ensures
        r@ == hex_of(b@),
{
    hex::encode(b)
}

/// What standard base64 with padding gives for bytes.
pub uninterp spec fn base64_standard_of(b: Seq<u8>) -> Seq<char>;

/// Relies on `base64`'s `general_purpose::STANDARD` engine: standard alphabet
/// with padding, so the text depends on the bytes alone.
#[verifier::external_body]
pub(crate) fn base64_standard(b: &Vec<u8>) -> (r: String)
    ensures
        r@ == base64_standard_of(b@),
{
    base64::engine::general_purpose::STANDARD.encode(b)
}

pub open spec fn init_line_spec() -> Seq<char> {
    "FIRE INIT 1.0 sf.arweave.type.v1"@
}

/// The start-up line of the protocol.
pub fn firehose_init() -> (r: String)
    ensures
        r@ == init_line_spec(),
{
    String::from_str("FIRE INIT 1.0 sf.arweave.type.v1")
}

pub open spec fn space() -> Seq<char> {
    seq![' ']
}

/// The block line for the given fields; `payload` is the base64 of the wire
/// block, left out in quiet mode.
pub open spec fn block_line_spec(
    num: u64,
    hash_hex: Seq<char>,
    parent_num: u64,
    parent_hex: Seq<char>,
    lib: u64,
    timestamp: u64,
    payload: Option<Seq<char>>,
) -> Seq<char> {
    let head = seq!['F', 'I', 'R', 'E', ' ', 'B', 'L', 'O', 'C', 'K', ' '] + decimal_of(num as nat)
        + space() + hash_hex + space() + decimal_of(parent_num as nat) + space() + parent_hex
        + space() + decimal_of(lib as nat) + space() + decimal_of(timestamp as nat);
    match payload {
        Some(p) => head + space() + p,
        None => head,
    }
}

/// Builds a block line.
pub fn block_line(
    num: u64,
    hash_hex: &str,
    parent_num: u64,
    parent_hex: &str,
    lib: u64,
    timestamp: u64,
    payload: Option<&str>,
) -> (r: String)
    ensures
        r@ == block_line_spec(
            num,
            hash_hex@,
            parent_num,
            parent_hex@,
            lib,
            timestamp,
            match payload {
                Some(p) => Some(p@),
                None => None,
            },
        ),
{
    proof {
        reveal_strlit("FIRE BLOCK ");
        reveal_strlit(" ");
    }
    let mut s = String::from_str("FIRE BLOCK ");
    s.append(to_decimal(num).as_str());
    s.append(" ");
    s.append(hash_hex);
    s.append(" ");
    s.append(to_decimal(parent_num).as_str());
    s.append(" ");
    s.append(parent_hex);
    s.append(" ");
    s.append(to_decimal(lib).as_str());
    s.append(" ");
    s.append(to_decimal(timestamp).as_str());
    match payload {
        Some(p) => {
            s.append(" ");
            s.append(p);
        },
        None => {},
    }
    assert(s@ =~= block_line_spec(
        num,
        hash_hex@,
        parent_num,
        parent_hex@,
        lib,
        timestamp,
        match payload {
            Some(p) => Some(p@),
            None => None,
        },
    ));
    s
}

} // verus!
