//! The SHT30 sensor's measurement frame: two big-endian readings, each
//! followed by its CRC-8 checksum.

use vstd::prelude::*;
use crc::{Crc, CRC_8_NRSC_5};

verus! {

/// One shift of the CRC register through the polynomial 0x31, most
/// significant bit first.
pub open spec fn crc8_shift(c: u8) -> u8 {
    if c & 0x80u8 != 0 {
        (c << 1u8) ^ 0x31u8
    } else {
        c << 1u8
    }
}

/// The CRC register after a byte has been folded in: eight shifts.
pub open spec fn crc8_byte(c: u8) -> u8 {
    crc8_shift(crc8_shift(crc8_shift(crc8_shift(crc8_shift(crc8_shift(crc8_shift(crc8_shift(c))))))))
}

/// The CRC-8/NRSC-5 checksum of `data` (the checksum the SHT30 appends to
/// each reading): width 8, polynomial 0x31, initial value 0xFF, no
/// reflection, no final XOR.
pub open spec fn crc8_nrsc5(data: Seq<u8>) -> u8
    decreases data.len(),
{
    if data.len() == 0 {
        0xFFu8
    } else {
        crc8_byte(crc8_nrsc5(data.drop_last()) ^ data.last())
    }
}

proof fn lemma_crc8_two_bytes(data: Seq<u8>)
    requires
        data.len() == 2,
    ensures
        crc8_nrsc5(data) == crc8_byte(crc8_byte(0xFFu8 ^ data[0]) ^ data[1]),
{
    let first = data.drop_last();
    assert(first.drop_last().len() == 0);
    assert(first.last() == data[0]);
    assert(crc8_nrsc5(first.drop_last()) == 0xFFu8);
    assert(crc8_nrsc5(first) == crc8_byte(0xFFu8 ^ data[0]));
    assert(data.last() == data[1]);
}

proof fn lemma_shift_xor(x: u8, y: u8)
    ensures
        crc8_shift(x ^ y) == crc8_shift(x) ^ crc8_shift(y),
{
    assert(crc8_shift(x ^ y) == crc8_shift(x) ^ crc8_shift(y)) by (bit_vector);
}

proof fn lemma_shift_nonzero(c: u8)
    requires
        c != 0,
    ensures
        crc8_shift(c) != 0,
{
    assert(crc8_shift(c) != 0) by (bit_vector)
        requires
            c != 0,
    ;
}

proof fn lemma_shift_n_xor(x: u8, y: u8, k: nat)
    ensures
        crc8_shift_n(x ^ y, k) == crc8_shift_n(x, k) ^ crc8_shift_n(y, k),
    decreases k,
{
    if k > 0 {
        lemma_shift_n_xor(x, y, (k - 1) as nat);
        lemma_shift_xor(crc8_shift_n(x, (k - 1) as nat), crc8_shift_n(y, (k - 1) as nat));
    }
}

proof fn lemma_shift_n_nonzero(c: u8, k: nat)
    requires
        c != 0,
    ensures
        crc8_shift_n(c, k) != 0,
    decreases k,
{
    if k > 0 {
        lemma_shift_n_nonzero(c, (k - 1) as nat);
        lemma_shift_nonzero(crc8_shift_n(c, (k - 1) as nat));
    }
}

proof fn lemma_byte_xor(x: u8, y: u8)
    ensures
        crc8_byte(x ^ y) == crc8_byte(x) ^ crc8_byte(y),
{
    lemma_shift_n_xor(x, y, 8);
    lemma_shift_n_is_byte(x ^ y);
    lemma_shift_n_is_byte(x);
    lemma_shift_n_is_byte(y);
}

proof fn lemma_byte_nonzero(c: u8)
    requires
        c != 0,
    ensures
        crc8_byte(c) != 0,
{
    lemma_shift_n_nonzero(c, 8);
    lemma_shift_n_is_byte(c);
}

/// `k` shifts of the CRC register.
spec fn crc8_shift_n(c: u8, k: nat) -> u8
    decreases k,
{
    if k == 0 {
        c
    } else {
        crc8_shift(crc8_shift_n(c, (k - 1) as nat))
    }
}

proof fn lemma_shift_n_is_byte(c: u8)
    ensures
        crc8_shift_n(c, 8) == crc8_byte(c),
{
    reveal_with_fuel(crc8_shift_n, 9);
}

/// Every single-bit error in the two data bytes changes the checksum: if
/// `e` is `d` with one bit flipped, their checksums differ.
pub proof fn law_single_bit_error_detected(d: Seq<u8>, j: int, i: u8)
    requires
        d.len() == 2,
        0 <= j < 2,
        i < 8,
    ensures
        crc8_nrsc5(d.update(j, d[j] ^ (1u8 << i))) != crc8_nrsc5(d),
{
    let e = d.update(j, d[j] ^ (1u8 << i));
    let m: u8 = 1u8 << i;
    assert(m != 0) by (bit_vector)
        requires
            i < 8,
            m == 1u8 << i,
    ;
    lemma_crc8_two_bytes(d);
    lemma_crc8_two_bytes(e);
    let (a, b) = (d[0], d[1]);
    let x = crc8_byte(0xFFu8 ^ a);
    if j == 0 {
        let y = crc8_byte(0xFFu8 ^ (a ^ m));
        assert(e[0] == a ^ m && e[1] == b);
        lemma_byte_xor(0xFFu8 ^ a, 0xFFu8 ^ (a ^ m));
        assert((0xFFu8 ^ a) ^ (0xFFu8 ^ (a ^ m)) == m) by (bit_vector);
        lemma_byte_nonzero(m);
        lemma_byte_xor(x ^ b, y ^ b);
        assert((x ^ b) ^ (y ^ b) == x ^ y) by (bit_vector);
        lemma_byte_nonzero(x ^ y);
        let p = crc8_byte(x ^ b);
        let q = crc8_byte(y ^ b);
        assert(p != q) by (bit_vector)
            requires
                p ^ q != 0,
        ;
    } else {
        assert(e[0] == a && e[1] == b ^ m);
        lemma_byte_xor(x ^ b, x ^ (b ^ m));
        assert((x ^ b) ^ (x ^ (b ^ m)) == m) by (bit_vector);
        lemma_byte_nonzero(m);
        let p = crc8_byte(x ^ b);
        let q = crc8_byte(x ^ (b ^ m));
        assert(p != q) by (bit_vector)
            requires
                p ^ q != 0,
        ;
    }
}

/// `crc::Crc::<u8>::new(&CRC_8_NRSC_5).checksum(data)`: the catalogue's
/// CRC-8/NRSC-5 algorithm (width 8, poly 0x31, init 0xFF, refin and refout
/// false, xorout 0), which the contract states as [`crc8_nrsc5`].
#[verifier::external_body]
fn crc8_nrsc5_checksum(data: &[u8; 2]) -> (r: u8)
    ensures
        r == crc8_nrsc5(data@),
{
    Crc::<u8>::new(&CRC_8_NRSC_5).checksum(data)
}

/// The checksum that the sensor sends after the two bytes `data`.
pub fn calc_crc(data: &[u8; 2]) -> (r: u8)
    ensures
        r == crc8_nrsc5(data@),
{
    crc8_nrsc5_checksum(data)
}

/// A measurement as the sensor sends it: the raw temperature and humidity
/// readings, each out of 65535.
#[derive(Clone, Copy, Debug, PartialEq, Eq)]
pub struct RawMeasurement {
    pub temperature: u16,
    pub humidity: u16,
}

/// Why a measurement frame was refused.
#[derive(Clone, Copy, Debug, PartialEq, Eq)]
pub enum Sht30Error {
    /// The temperature bytes do not match their checksum.
    TemperatureChecksum,
    /// The humidity bytes do not match their checksum.
    HumidityChecksum,
}

/// The big-endian value of the two bytes at `start`.
pub open spec fn be_u16(frame: Seq<u8>, start: int) -> int {
    frame[start] * 256 + frame[start + 1]
}

/// The meaning of a six-byte frame: the temperature reading (bytes 0 and 1)
/// checked against byte 2, then the humidity reading (bytes 3 and 4) checked
/// against byte 5.
pub open spec fn spec_decode_measurement(frame: Seq<u8>) -> Result<RawMeasurement, Sht30Error> {
    if crc8_nrsc5(frame.subrange(0, 2)) != frame[2] {
        Err(Sht30Error::TemperatureChecksum)
    } else if crc8_nrsc5(frame.subrange(3, 5)) != frame[5] {
        Err(Sht30Error::HumidityChecksum)
    } else {
        Ok(
            RawMeasurement {
                temperature: be_u16(frame, 0) as u16,
                humidity: be_u16(frame, 3) as u16,
            },
        )
    }
}

/// A frame is accepted exactly when both readings match their checksums, and
/// its readings are then big-endian: the temperature is byte 0 times 256
/// plus byte 1, the humidity byte 3 times 256 plus byte 4.
pub proof fn law_decode_is_checked_big_endian(frame: Seq<u8>)
    requires
        frame.len() == 6,
    ensures
        spec_decode_measurement(frame) is Ok <==> (crc8_nrsc5(seq![frame[0], frame[1]]) == frame[2]
            && crc8_nrsc5(seq![frame[3], frame[4]]) == frame[5]),
        spec_decode_measurement(frame) matches Ok(m) ==> m.temperature == frame[0] * 256 + frame[1]
            && m.humidity == frame[3] * 256 + frame[4],
{
    assert(frame.subrange(0, 2) =~= seq![frame[0], frame[1]]);
    assert(frame.subrange(3, 5) =~= seq![frame[3], frame[4]]);
}

/// Reads a measurement frame from the sensor, refusing it when a reading
/// does not match its checksum.
pub fn decode_measurement(frame: &[u8; 6]) -> (r: Result<RawMeasurement, Sht30Error>)
    ensures
        r == spec_decode_measurement(frame@),
        r is Ok <==> (crc8_nrsc5(seq![frame[0], frame[1]]) == frame[2] && crc8_nrsc5(
            seq![frame[3], frame[4]],
        ) == frame[5]),
        r matches Ok(m) ==> m.temperature == frame[0] * 256 + frame[1] && m.humidity == frame[3]
            * 256 + frame[4],
        crc8_nrsc5(seq![frame[0], frame[1]]) != frame[2] ==> r == Err::<RawMeasurement, Sht30Error>(
            Sht30Error::TemperatureChecksum,
        ),
        crc8_nrsc5(seq![frame[0], frame[1]]) == frame[2] && crc8_nrsc5(seq![frame[3], frame[4]])
            != frame[5] ==> r == Err::<RawMeasurement, Sht30Error>(Sht30Error::HumidityChecksum),
{
    assert(frame@.subrange(0, 2) =~= seq![frame[0], frame[1]]);
    assert(frame@.subrange(3, 5) =~= seq![frame[3], frame[4]]);
    let temp_data: [u8; 2] = [frame[0], frame[1]];
    assert(temp_data@ =~= frame@.subrange(0, 2));
    if calc_crc(&temp_data) != frame[2] {
        return Err(Sht30Error::TemperatureChecksum);
    }
    let humi_data: [u8; 2] = [frame[3], frame[4]];
    assert(humi_data@ =~= frame@.subrange(3, 5));
    if calc_crc(&humi_data) != frame[5] {
        return Err(Sht30Error::HumidityChecksum);
    }
    Ok(
        RawMeasurement {
            temperature: (frame[0] as u16) * 256 + (frame[1] as u16),
            humidity: (frame[3] as u16) * 256 + (frame[4] as u16),
        },
    )
}

} // verus!
