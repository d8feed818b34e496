use beam::decimal::{magnitude, parse_i8, parse_u8};

fn samples() -> Vec<String> {
    let mut list: Vec<String> = Vec::new();
    for n in -300..=300i32 {
        list.push(format!("{}", n));
        list.push(format!("+{}", n));
        list.push(format!("0{}", n));
        list.push(format!("{}0", n));
        list.push(format!("-00{}", n.abs()));
        list.push(format!(" {}", n));
        list.push(format!("{} ", n));
    }
    for text in [
        "", "+", "-", "--1", "+-1", "-+1", "++1", "1a", "a1", "1.0", "0x10", "٣", "１", "1_0",
        "00000000000000000000000000000000255", "00000000000000000000000000000000256",
        "99999999999999999999999999999999999", "-99999999999999999999999999999999999",
        "-0", "+0", "-128", "-129", "127", "128", "255", "256", "1000", "1001", "999",
    ] {
        list.push(text.to_string());
    }
    list
}

#[test]
fn unsigned_bytes_are_read_as_the_standard_library_reads_them() {
    for text in samples() {
        assert_eq!(parse_u8(&text), text.parse::<u8>().ok(), "{:?}", text);
    }
}

#[test]
fn signed_bytes_are_read_as_the_standard_library_reads_them() {
    for text in samples() {
        assert_eq!(parse_i8(&text), text.parse::<i8>().ok(), "{:?}", text);
    }
}

#[test]
fn magnitude_stops_at_its_cap() {
    let chars: Vec<char> = "x0731".chars().collect();
    assert_eq!(magnitude(&chars, 1), Some(731));
    assert_eq!(magnitude(&chars, 4), Some(1));
    assert_eq!(magnitude(&chars, 5), None);
    assert_eq!(magnitude(&chars, 0), None);
    let large: Vec<char> = "1000".chars().collect();
    assert_eq!(magnitude(&large, 0), Some(1000));
    let larger: Vec<char> = "1001".chars().collect();
    assert_eq!(magnitude(&larger, 0), Some(1000));
    let huge: Vec<char> = "123456789012345678901234567890".chars().collect();
    assert_eq!(magnitude(&huge, 0), Some(1000));
}
