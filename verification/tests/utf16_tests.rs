use core_text_runs::utf16::{decode_utf16_units, encode_utf16_units, map_to_text};

#[test]
fn encode_empty_is_empty() {
    let units = encode_utf16_units("");
    assert_eq!(units.len(), 0);
}

#[test]
fn encode_ascii_exact_units() {
    let units = encode_utf16_units("a");
    assert_eq!(units, vec![97u16]);
    let units = encode_utf16_units("Hello");
    assert_eq!(units, vec![72u16, 101, 108, 108, 111]);
}

#[test]
fn encode_bmp_exact_units() {
    let units = encode_utf16_units("\u{e9}");
    assert_eq!(units, vec![0x00E9u16]);
    let units = encode_utf16_units("世");
    assert_eq!(units, vec![0x4E16u16]);
}

#[test]
fn encode_supplementary_exact_surrogate_pair() {
    let units = encode_utf16_units("🌍");
    assert_eq!(units, vec![0xD83Cu16, 0xDF0D]);
}

#[test]
fn decode_round_trips_mixed_text() {
    let text = "Hello 世界🌍!";
    let units = encode_utf16_units(text);
    let decoded = decode_utf16_units(units.as_slice());
    assert_eq!(decoded.as_deref(), Some(text));
}

#[test]
fn decode_rejects_lone_high_surrogate() {
    let units: Vec<u16> = vec![0xD800];
    assert!(decode_utf16_units(units.as_slice()).is_none());
    let units: Vec<u16> = vec![72, 0xD83C, 73];
    assert!(decode_utf16_units(units.as_slice()).is_none());
}

#[test]
fn decode_rejects_lone_low_surrogate() {
    let units: Vec<u16> = vec![0xDF0D, 72];
    assert!(decode_utf16_units(units.as_slice()).is_none());
}

#[test]
fn map_to_text_slices_by_units() {
    let units = encode_utf16_units("Hello 世界");
    assert_eq!(map_to_text(&units, 0, 6), "Hello ");
    assert_eq!(map_to_text(&units, 6, 2), "世界");
    assert_eq!(map_to_text(&units, 0, 8), "Hello 世界");
    assert_eq!(map_to_text(&units, 8, 0), "");
}

#[test]
fn map_to_text_out_of_bounds_is_empty() {
    let units = encode_utf16_units("Hi");
    assert_eq!(map_to_text(&units, 0, 3), "");
    assert_eq!(map_to_text(&units, 3, 0), "");
    assert_eq!(map_to_text(&units, 1, 2), "");
}

#[test]
fn map_to_text_split_surrogate_is_empty() {
    let units = encode_utf16_units("🌍");
    assert_eq!(units.len(), 2);
    assert_eq!(map_to_text(&units, 0, 1), "");
    assert_eq!(map_to_text(&units, 1, 1), "");
    assert_eq!(map_to_text(&units, 0, 2), "🌍");
}
