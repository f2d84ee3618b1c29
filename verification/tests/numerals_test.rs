use lakeview::numerals::{checkpoint_file_name, file_version, format_number, u64_to_dec};

#[test]
fn decimal_rendering() {
    assert_eq!(u64_to_dec(0), "0");
    assert_eq!(u64_to_dec(7), "7");
    assert_eq!(u64_to_dec(1234567890), "1234567890");
    assert_eq!(u64_to_dec(u64::MAX), "18446744073709551615");
}

#[test]
fn checkpoint_name_is_zero_padded() {
    assert_eq!(checkpoint_file_name(10), "00000000000000000010.checkpoint.parquet");
    assert_eq!(checkpoint_file_name(0), "00000000000000000000.checkpoint.parquet");
}

#[test]
fn version_stems() {
    assert_eq!(file_version("00000000000000000015.json"), Some(15));
    assert_eq!(file_version("00000000000000000000.json"), Some(0));
    assert_eq!(file_version("_last_checkpoint"), None);
    assert_eq!(file_version("abc.json"), None);
    assert_eq!(file_version(".json"), None);
    assert_eq!(file_version("99999999999999999999999999.json"), None);
}

#[test]
fn grouped_numbers() {
    assert_eq!(format_number(0), "0");
    assert_eq!(format_number(999), "999");
    assert_eq!(format_number(1000), "1,000");
    assert_eq!(format_number(1234567), "1,234,567");
    assert_eq!(format_number(-1234567), "-1,234,567");
}
