use fold_ingestion::text::trim_string;

#[test]
fn white_space_is_what_std_calls_white_space() {
    for n in 0u32..=0x10FFFF {
        if let Some(c) = char::from_u32(n) {
            let t = c.to_string();
            assert_eq!(trim_string(&t).is_empty(), c.is_whitespace(), "U+{n:04X}");
        }
    }
}
