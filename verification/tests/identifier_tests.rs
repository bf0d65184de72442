use usb_monitor_switcher::identifier::{parse_vid_pid, DeviceIdentifier, MalformedIdentifier};

fn id(vendor_id: u16, product_id: u16) -> DeviceIdentifier {
    DeviceIdentifier { vendor_id, product_id }
}

#[test]
fn parses_vendor_then_product() {
    assert_eq!(parse_vid_pid("VID_046D&PID_085C"), Ok(id(0x046D, 0x085C)));
}

#[test]
fn parses_product_then_vendor() {
    assert_eq!(parse_vid_pid("PID_085C&VID_046D"), Ok(id(0x046D, 0x085C)));
}

#[test]
fn rejects_missing_product() {
    assert_eq!(parse_vid_pid("VID_046D"), Err(MalformedIdentifier));
}

#[test]
fn rejects_missing_vendor() {
    assert_eq!(parse_vid_pid("PID_085C"), Err(MalformedIdentifier));
}

#[test]
fn rejects_non_hex_digits() {
    assert_eq!(parse_vid_pid("VID_ZZZZ&PID_0001"), Err(MalformedIdentifier));
    assert_eq!(parse_vid_pid("VID_0001&PID_00G1"), Err(MalformedIdentifier));
}

#[test]
fn accepts_either_letter_case_in_digits() {
    assert_eq!(parse_vid_pid("VID_046d&PID_085c"), Ok(id(0x046D, 0x085C)));
    assert_eq!(parse_vid_pid("VID_aBcD&PID_EfEf"), Ok(id(0xABCD, 0xEFEF)));
}

#[test]
fn tags_are_upper_case_only() {
    assert_eq!(parse_vid_pid("vid_046D&PID_085C"), Err(MalformedIdentifier));
    assert_eq!(parse_vid_pid("VID_046D&pid_085C"), Err(MalformedIdentifier));
}

#[test]
fn passes_over_other_fields() {
    assert_eq!(parse_vid_pid("VID_046D&PID_085C&MI_00"), Ok(id(0x046D, 0x085C)));
    assert_eq!(parse_vid_pid("REV_0100&PID_0002&MI_00&VID_0001"), Ok(id(1, 2)));
}

#[test]
fn tag_must_open_its_field() {
    assert_eq!(parse_vid_pid("USB\\VID_046D&PID_085C"), Err(MalformedIdentifier));
    assert_eq!(parse_vid_pid(" VID_046D&PID_085C"), Err(MalformedIdentifier));
}

#[test]
fn first_tagged_field_decides() {
    assert_eq!(parse_vid_pid("VID_ZZ&VID_046D&PID_0001"), Err(MalformedIdentifier));
    assert_eq!(parse_vid_pid("VID_0001&VID_0002&PID_0003&PID_0004"), Ok(id(1, 3)));
}

#[test]
fn value_must_fit_sixteen_bits() {
    assert_eq!(parse_vid_pid("VID_FFFF&PID_0"), Ok(id(0xFFFF, 0)));
    assert_eq!(parse_vid_pid("VID_10000&PID_0"), Err(MalformedIdentifier));
    assert_eq!(parse_vid_pid("VID_0&PID_FFFFF"), Err(MalformedIdentifier));
    assert_eq!(parse_vid_pid("VID_123456789ABCDEF0123&PID_0"), Err(MalformedIdentifier));
}

#[test]
fn leading_zeros_do_not_count_against_the_width() {
    assert_eq!(parse_vid_pid("VID_00001&PID_0000000000000000000002"), Ok(id(1, 2)));
    assert_eq!(parse_vid_pid("VID_0000FFFF&PID_1"), Ok(id(0xFFFF, 1)));
}

#[test]
fn short_values_are_read_in_full() {
    assert_eq!(parse_vid_pid("VID_1&PID_2F"), Ok(id(0x1, 0x2F)));
}

#[test]
fn a_leading_plus_is_allowed_once() {
    assert_eq!(parse_vid_pid("VID_+46D&PID_+1"), Ok(id(0x46D, 1)));
    assert_eq!(parse_vid_pid("VID_++1&PID_1"), Err(MalformedIdentifier));
    assert_eq!(parse_vid_pid("VID_+&PID_1"), Err(MalformedIdentifier));
    assert_eq!(parse_vid_pid("VID_1+&PID_1"), Err(MalformedIdentifier));
}

#[test]
fn rejects_sign_space_and_underscore() {
    assert_eq!(parse_vid_pid("VID_-1&PID_1"), Err(MalformedIdentifier));
    assert_eq!(parse_vid_pid("VID_ 1&PID_1"), Err(MalformedIdentifier));
    assert_eq!(parse_vid_pid("VID_1 &PID_1"), Err(MalformedIdentifier));
    assert_eq!(parse_vid_pid("VID_0_1&PID_1"), Err(MalformedIdentifier));
    assert_eq!(parse_vid_pid("VID_0x1&PID_1"), Err(MalformedIdentifier));
}

#[test]
fn rejects_empty_values_and_tokens() {
    assert_eq!(parse_vid_pid(""), Err(MalformedIdentifier));
    assert_eq!(parse_vid_pid("&"), Err(MalformedIdentifier));
    assert_eq!(parse_vid_pid("VID_&PID_1"), Err(MalformedIdentifier));
    assert_eq!(parse_vid_pid("VID_1&PID_"), Err(MalformedIdentifier));
}

#[test]
fn rejects_digits_outside_ascii() {
    assert_eq!(parse_vid_pid("VID_\u{0661}&PID_1"), Err(MalformedIdentifier));
    assert_eq!(parse_vid_pid("VID_\u{FF11}&PID_1"), Err(MalformedIdentifier));
    assert_eq!(parse_vid_pid("VID_1\u{00E9}&PID_1"), Err(MalformedIdentifier));
}

#[test]
fn values_agree_with_the_standard_library() {
    let payloads = [
        "", "0", "1", "f", "F", "g", "G", "10", "abcd", "ABCD", "ffff", "FFFF", "10000", "0ffff",
        "00000", "+", "-", "+0", "-0", "+ffff", "+10000", "++1", "+-1", "1+", " 1", "1 ", "0x10",
        "1_0", "/", ":", "@", "`", "9", "a", "A", "z", "fffff", "12345", "0000000000000000ffff",
        "0000000000000001ffff", "\u{00E9}", "1\u{0661}",
    ];
    for payload in payloads {
        let expected = u16::from_str_radix(payload, 16).ok();
        let as_vendor = parse_vid_pid(&format!("VID_{}&PID_7", payload)).ok();
        assert_eq!(as_vendor, expected.map(|v| id(v, 7)), "vendor payload {:?}", payload);
        let as_product = parse_vid_pid(&format!("PID_{}&VID_7", payload)).ok();
        assert_eq!(as_product, expected.map(|p| id(7, p)), "product payload {:?}", payload);
    }
}

#[test]
fn every_sixteen_bit_value_reads_back() {
    let mut value: u32 = 0;
    while value <= 0xFFFF {
        let token = format!("VID_{:04X}&PID_{:x}", value, 0xFFFF - value);
        assert_eq!(parse_vid_pid(&token), Ok(id(value as u16, (0xFFFF - value) as u16)));
        value += 257;
    }
}

/// The same reading done with the standard library's `split`, `find`,
/// `strip_prefix` and `from_str_radix`.
fn read_with_std(token: &str) -> Option<DeviceIdentifier> {
    let vendor = token.split('&').find(|field| field.starts_with("VID_"))?;
    let product = token.split('&').find(|field| field.starts_with("PID_"))?;
    let vendor_id = u16::from_str_radix(vendor.strip_prefix("VID_")?, 16).ok()?;
    let product_id = u16::from_str_radix(product.strip_prefix("PID_")?, 16).ok()?;
    Some(DeviceIdentifier { vendor_id, product_id })
}

#[test]
fn agrees_with_the_standard_library_on_joined_fields() {
    let fields = [
        "", "VID_1", "PID_2", "VID_", "PID_", "VID_G", "PID_+F", "VID_FFFF", "PID_10000", "vid_3",
        "XVID_4", "VID_0a0B", "PID_ 5", "MI_00", "VID", "PID_-6", "VID_+", "PID_007",
    ];
    let mut tokens: Vec<String> = Vec::new();
    for a in fields {
        tokens.push(a.to_string());
        for b in fields {
            tokens.push(format!("{}&{}", a, b));
            for c in fields {
                tokens.push(format!("{}&{}&{}", a, b, c));
            }
        }
    }
    assert_eq!(tokens.len(), 18 + 18 * 18 + 18 * 18 * 18);
    let mut readable = 0;
    for token in &tokens {
        let expected = read_with_std(token);
        assert_eq!(parse_vid_pid(token).ok(), expected, "token {:?}", token);
        if expected.is_some() {
            readable += 1;
        }
    }
    assert!(readable > 100);
}
