use checkbox_sync::decimal::{parse_u32, push_decimal};

fn chars(text: &str) -> Vec<char> {
    text.chars().collect()
}

fn written(n: u32) -> String {
    let mut out = String::new();
    push_decimal(&mut out, n);
    out
}

#[test]
fn writes_shortest_numerals() {
    assert_eq!(written(0), "0");
    assert_eq!(written(7), "7");
    assert_eq!(written(10), "10");
    assert_eq!(written(909), "909");
    assert_eq!(written(10000000), "10000000");
    assert_eq!(written(u32::MAX), "4294967295");
}

#[test]
fn appends_to_what_is_there() {
    let mut out = String::from("get,");
    push_decimal(&mut out, 42);
    out.push(':');
    push_decimal(&mut out, 1);
    assert_eq!(out, "get,42:1");
}

#[test]
fn writes_as_std_does() {
    for n in [0u32, 1, 9, 10, 11, 99, 100, 101, 65535, 65536, 999999999, 1000000000, u32::MAX] {
        assert_eq!(written(n), n.to_string());
    }
}

#[test]
fn reads_numerals() {
    assert_eq!(parse_u32(&chars("0")), Some(0));
    assert_eq!(parse_u32(&chars("123")), Some(123));
    assert_eq!(parse_u32(&chars("+123")), Some(123));
    assert_eq!(parse_u32(&chars("000")), Some(0));
    assert_eq!(parse_u32(&chars("4294967295")), Some(u32::MAX));
}

#[test]
fn reads_nothing_from_what_is_no_numeral() {
    assert_eq!(parse_u32(&chars("")), None);
    assert_eq!(parse_u32(&chars("+")), None);
    assert_eq!(parse_u32(&chars("-1")), None);
    assert_eq!(parse_u32(&chars("1+")), None);
    assert_eq!(parse_u32(&chars("12a")), None);
    assert_eq!(parse_u32(&chars("a12")), None);
    assert_eq!(parse_u32(&chars("1,2")), None);
    assert_eq!(parse_u32(&chars("٣")), None);
}

#[test]
fn reads_nothing_from_what_does_not_fit() {
    assert_eq!(parse_u32(&chars("4294967296")), None);
    assert_eq!(parse_u32(&chars("42949672950")), None);
    assert_eq!(parse_u32(&chars("18446744073709551616")), None);
    assert_eq!(parse_u32(&chars("99999999999999999999999999999999999999999")), None);
}

#[test]
fn reads_as_std_does() {
    let texts = [
        "", "0", "+0", "-0", "00", "1", "+1", "++1", "4294967295", "4294967296", " 1", "1 ", "0x10",
        "१",
    ];
    for text in texts {
        assert_eq!(parse_u32(&chars(text)), text.parse::<u32>().ok());
    }
}

#[test]
fn reads_back_what_was_written() {
    for n in [0u32, 5, 10, 123, 9999999, u32::MAX] {
        assert_eq!(parse_u32(&chars(&written(n))), Some(n));
    }
}

#[test]
fn short_texts_are_read_as_std_reads_them() {
    let alphabet = ['+', '-', '0', '1', '9', ' ', 'a', ','];
    let mut texts = vec![String::new()];
    let mut last = vec![String::new()];
    for _ in 0..5 {
        let mut next = Vec::new();
        for text in &last {
            for c in alphabet {
                next.push(format!("{}{}", text, c));
            }
        }
        texts.extend(next.iter().cloned());
        last = next;
    }
    for text in texts {
        assert_eq!(parse_u32(&chars(&text)), text.parse::<u32>().ok(), "{:?}", text);
    }
}

#[test]
fn every_power_of_ten_and_its_neighbours_round_trip() {
    let mut power: u64 = 1;
    while power <= u32::MAX as u64 {
        for n in [power - 1, power, power + 1] {
            if n <= u32::MAX as u64 {
                let n = n as u32;
                assert_eq!(written(n), n.to_string());
                assert_eq!(parse_u32(&chars(&n.to_string())), Some(n));
            }
        }
        power *= 10;
    }
}
