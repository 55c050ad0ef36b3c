use room_monitoring::measurement::record_failure;
use room_monitoring::sht30::{calc_crc, decode_measurement, RawMeasurement, Sht30Error};

#[test]
fn crc_matches_the_datasheet_example() {
    assert_eq!(calc_crc(&[0xBE, 0xEF]), 0x92);
    assert_eq!(calc_crc(&[0x00, 0x00]), 0x81);
}

#[test]
fn decode_accepts_a_checked_frame() {
    assert_eq!(
        decode_measurement(&[0xBE, 0xEF, 0x92, 0x66, 0x66, 0x93]),
        Ok(RawMeasurement { temperature: 0xBEEF, humidity: 0x6666 })
    );
}

#[test]
fn decode_refuses_a_bad_temperature_checksum() {
    assert_eq!(
        decode_measurement(&[0xBE, 0xEF, 0x93, 0x66, 0x66, 0x00]),
        Err(Sht30Error::TemperatureChecksum)
    );
}

#[test]
fn decode_refuses_a_bad_humidity_checksum() {
    assert_eq!(
        decode_measurement(&[0xBE, 0xEF, 0x92, 0x66, 0x66, 0x92]),
        Err(Sht30Error::HumidityChecksum)
    );
}

#[test]
fn failures_are_tolerated_up_to_the_allowance() {
    assert_eq!(record_failure(0, Some(2)), Ok(1));
    assert_eq!(record_failure(1, Some(2)), Ok(2));
    assert_eq!(record_failure(2, Some(2)), Err(3));
    assert_eq!(record_failure(0, Some(0)), Err(1));
    assert_eq!(record_failure(1000, None), Ok(1001));
}

#[test]
fn every_single_bit_error_changes_the_checksum() {
    for d in [[0xBEu8, 0xEF], [0x00, 0x00], [0x66, 0x66], [0xFF, 0x01]] {
        let c = calc_crc(&d);
        for j in 0..2 {
            for i in 0..8 {
                let mut e = d;
                e[j] ^= 1 << i;
                assert_ne!(calc_crc(&e), c);
            }
        }
    }
}
