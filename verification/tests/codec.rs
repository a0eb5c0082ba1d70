use checkbox_sync::codec::{
    chars_of, decode_mutation, decode_range_query, encode_change, encode_range_response,
    is_range_request, parse_change_message, parse_get_message, split_fields, ChangeAction,
};

#[test]
fn decodes_check() {
    assert_eq!(parse_change_message("c,123"), Some((123, ChangeAction::Check)));
}

#[test]
fn decodes_uncheck() {
    assert_eq!(parse_change_message("u,9999999"), Some((9999999, ChangeAction::Uncheck)));
}

#[test]
fn rejects_unknown_action() {
    assert_eq!(parse_change_message("x,1"), None);
}

#[test]
fn rejects_missing_index() {
    assert_eq!(parse_change_message("c,"), None);
}

#[test]
fn rejects_third_field_in_mutation() {
    assert_eq!(parse_change_message("c,1,2"), None);
}

#[test]
fn rejects_short_and_empty_mutations() {
    assert_eq!(parse_change_message(""), None);
    assert_eq!(parse_change_message("c"), None);
    assert_eq!(parse_change_message("c1"), None);
    assert_eq!(parse_change_message(",1"), None);
    assert_eq!(parse_change_message("cc,1"), None);
    assert_eq!(parse_change_message("C,1"), None);
}

#[test]
fn rejects_indices_that_are_no_numbers() {
    assert_eq!(parse_change_message("c,abc"), None);
    assert_eq!(parse_change_message("c,-1"), None);
    assert_eq!(parse_change_message("c,1.5"), None);
    assert_eq!(parse_change_message("c, 1"), None);
    assert_eq!(parse_change_message("c,1 "), None);
    assert_eq!(parse_change_message("c,+"), None);
    assert_eq!(parse_change_message("c,++1"), None);
    assert_eq!(parse_change_message("c,\u{0661}"), None);
}

#[test]
fn index_is_bounded_by_32_bits() {
    assert_eq!(parse_change_message("c,0"), Some((0, ChangeAction::Check)));
    assert_eq!(parse_change_message("u,4294967295"), Some((u32::MAX, ChangeAction::Uncheck)));
    assert_eq!(parse_change_message("u,4294967296"), None);
    assert_eq!(parse_change_message("u,99999999999999999999999999"), None);
}

#[test]
fn index_may_carry_plus_and_leading_zeros() {
    assert_eq!(parse_change_message("c,+5"), Some((5, ChangeAction::Check)));
    assert_eq!(parse_change_message("c,007"), Some((7, ChangeAction::Check)));
    assert_eq!(
        parse_change_message("c,00000000000000000000004294967295"),
        Some((u32::MAX, ChangeAction::Check))
    );
}

#[test]
fn mutations_agree_with_std_parse() {
    let numerals =
        ["0", "1", "42", "+42", "0042", "4294967295", "4294967296", "", "+", "-0", "4_2"];
    for digits in numerals {
        let expected = digits.parse::<u32>().ok().map(|index| (index, ChangeAction::Check));
        assert_eq!(parse_change_message(&format!("c,{}", digits)), expected);
    }
}

#[test]
fn decodes_range_query() {
    assert_eq!(parse_get_message("get,0,10"), Some((0, 10)));
}

#[test]
fn decodes_range_query_with_bounds_reversed() {
    assert_eq!(parse_get_message("get,10,0"), Some((10, 0)));
}

#[test]
fn rejects_range_query_with_bad_bound() {
    assert_eq!(parse_get_message("get,abc,10"), None);
    assert_eq!(parse_get_message("get,10,abc"), None);
    assert_eq!(parse_get_message("get,,10"), None);
    assert_eq!(parse_get_message("get,10,"), None);
    assert_eq!(parse_get_message("get,4294967296,1"), None);
}

#[test]
fn rejects_range_query_of_wrong_shape() {
    assert_eq!(parse_get_message(""), None);
    assert_eq!(parse_get_message("get"), None);
    assert_eq!(parse_get_message("get,1"), None);
    assert_eq!(parse_get_message("get,1,2,3"), None);
    assert_eq!(parse_get_message("got,1,2"), None);
    assert_eq!(parse_get_message("getx,1,2"), None);
    assert_eq!(parse_get_message("GET,1,2"), None);
    assert_eq!(parse_get_message("c,1"), None);
}

#[test]
fn range_query_covers_the_whole_grid() {
    assert_eq!(parse_get_message("get,0,10000000"), Some((0, 10000000)));
    assert_eq!(parse_get_message("get,0,4294967295"), Some((0, u32::MAX)));
}

#[test]
fn splits_like_std() {
    for text in ["", ",", "a", "a,b", "a,,b", ",a,", "get,1,2", "c,5", ",,,"] {
        let parts: Vec<String> =
            split_fields(&chars_of(text)).into_iter().map(|f| f.into_iter().collect()).collect();
        let expected: Vec<String> = text.split(',').map(|f| f.to_string()).collect();
        assert_eq!(parts, expected);
    }
}

#[test]
fn chars_are_kept_in_order() {
    assert_eq!(chars_of("c,5"), vec!['c', ',', '5']);
    assert_eq!(chars_of(""), Vec::<char>::new());
    assert_eq!(chars_of("é,1"), vec!['é', ',', '1']);
}

#[test]
fn decoding_characters_agrees_with_decoding_text() {
    for text in ["c,123", "u,0", "get,1,2", "x", "get,1", ""] {
        assert_eq!(decode_mutation(&chars_of(text)), parse_change_message(text));
        assert_eq!(decode_range_query(&chars_of(text)), parse_get_message(text));
    }
}

#[test]
fn range_requests_begin_with_get() {
    assert!(is_range_request(&chars_of("get,0,10")));
    assert!(is_range_request(&chars_of("get")));
    assert!(is_range_request(&chars_of("getaway")));
    assert!(!is_range_request(&chars_of("ge")));
    assert!(!is_range_request(&chars_of("c,5")));
    assert!(!is_range_request(&chars_of(" get,0,10")));
    assert!(!is_range_request(&chars_of("")));
}

#[test]
fn encodes_changes() {
    assert_eq!(encode_change(ChangeAction::Check, 5), "c,5");
    assert_eq!(encode_change(ChangeAction::Uncheck, 123), "u,123");
    assert_eq!(encode_change(ChangeAction::Check, 0), "c,0");
    assert_eq!(encode_change(ChangeAction::Uncheck, u32::MAX), "u,4294967295");
}

#[test]
fn encodes_range_responses() {
    assert_eq!(encode_range_response(&vec![]), "get");
    assert_eq!(encode_range_response(&vec![(2, 1)]), "get,2:1");
    assert_eq!(encode_range_response(&vec![(0, 0), (1, 1), (10, 0)]), "get,0:0,1:1,10:0");
    assert_eq!(encode_range_response(&vec![(4294967295, 255)]), "get,4294967295:255");
}

#[test]
fn range_response_keeps_the_order_given() {
    assert_eq!(encode_range_response(&vec![(9, 1), (3, 0), (3, 1)]), "get,9:1,3:0,3:1");
}

#[test]
fn announced_change_reads_back() {
    for index in [0, 1, 9, 10, 99, 100, 5000, 9999999, 10000000, u32::MAX] {
        for action in [ChangeAction::Check, ChangeAction::Uncheck] {
            let text = encode_change(action, index);
            assert_eq!(parse_change_message(&text), Some((index, action)));
        }
    }
}

#[test]
fn canonical_mutation_is_announced_in_its_own_words() {
    for text in ["c,0", "u,0", "c,5", "u,10", "c,123", "u,9999999", "c,4294967295"] {
        let (index, action) = parse_change_message(text).unwrap();
        assert_eq!(encode_change(action, index), text);
    }
}

#[test]
fn uncanonical_mutation_is_announced_in_canonical_words() {
    let (index, action) = parse_change_message("c,007").unwrap();
    assert_eq!(encode_change(action, index), "c,7");
    let (index, action) = parse_change_message("u,+12").unwrap();
    assert_eq!(encode_change(action, index), "u,12");
}

#[test]
fn actions_convert_to_and_from_the_wire() {
    assert_eq!(ChangeAction::from_wire("c"), Some(ChangeAction::Check));
    assert_eq!(ChangeAction::from_wire("u"), Some(ChangeAction::Uncheck));
    assert_eq!(ChangeAction::from_wire(""), None);
    assert_eq!(ChangeAction::from_wire("x"), None);
    assert_eq!(ChangeAction::from_wire("cu"), None);
    assert_eq!(ChangeAction::from_wire("C"), None);
    assert_eq!(ChangeAction::Check.to_wire(), "c");
    assert_eq!(ChangeAction::Uncheck.to_wire(), "u");
}

#[test]
fn actions_convert_to_states_and_scores() {
    assert!(ChangeAction::Check.is_checked());
    assert!(!ChangeAction::Uncheck.is_checked());
    assert_eq!(ChangeAction::Check.score(), 1);
    assert_eq!(ChangeAction::Uncheck.score(), 0);
}

/// Every text over `alphabet` of at most `longest` characters.
fn texts(alphabet: &[char], longest: usize) -> Vec<String> {
    let mut all = vec![String::new()];
    let mut last = vec![String::new()];
    for _ in 0..longest {
        let mut next = Vec::new();
        for text in &last {
            for c in alphabet {
                let mut longer = text.clone();
                longer.push(*c);
                next.push(longer);
            }
        }
        all.extend(next.iter().cloned());
        last = next;
    }
    all
}

/// A mutation as std's `split` and `parse` read it.
fn mutation_by_std(text: &str) -> Option<(u32, ChangeAction)> {
    let parts: Vec<&str> = text.split(',').collect();
    if text.len() < 3 || parts.len() != 2 {
        return None;
    }
    let action = match parts[0] {
        "c" => ChangeAction::Check,
        "u" => ChangeAction::Uncheck,
        _ => return None,
    };
    parts[1].parse::<u32>().ok().map(|index| (index, action))
}

/// A range query as std's `split` and `parse` read it.
fn range_query_by_std(text: &str) -> Option<(u32, u32)> {
    let parts: Vec<&str> = text.split(',').collect();
    if text.len() < 3 || parts.len() != 3 || parts[0] != "get" {
        return None;
    }
    match (parts[1].parse::<u32>(), parts[2].parse::<u32>()) {
        (Ok(start), Ok(end)) => Some((start, end)),
        _ => None,
    }
}

#[test]
fn short_mutations_are_read_as_std_reads_them() {
    let mut accepted = 0;
    for text in texts(&['c', 'u', 'x', ',', '0', '7', '+', '-'], 5) {
        let expected = mutation_by_std(&text);
        assert_eq!(parse_change_message(&text), expected, "{:?}", text);
        if expected.is_some() {
            accepted += 1;
        }
    }
    assert!(accepted > 0);
}

#[test]
fn short_range_queries_are_read_as_std_reads_them() {
    let mut accepted = 0;
    for tail in texts(&[',', '0', '9', '+', 'a'], 6) {
        for head in ["get", "get,", "ge", "gett", ""] {
            let text = format!("{}{}", head, tail);
            let expected = range_query_by_std(&text);
            assert_eq!(parse_get_message(&text), expected, "{:?}", text);
            if expected.is_some() {
                accepted += 1;
            }
        }
    }
    assert!(accepted > 0);
}

#[test]
fn texts_with_wide_characters_are_read_as_std_reads_them() {
    let wide =
        ["é,1", "c,é", "c\u{ff0c}1", "ｃ,1", "c,１", "get,１,2", "é", "éé", "c,1é", "ü,", "💡,5"];
    for text in wide {
        assert_eq!(parse_change_message(text), mutation_by_std(text), "{:?}", text);
        assert_eq!(parse_get_message(text), range_query_by_std(text), "{:?}", text);
        assert_eq!(parse_change_message(text), None);
    }
}

#[test]
fn numbers_near_the_bound_are_read_as_std_reads_them() {
    let bound = u32::MAX as u64;
    for n in [bound - 5, bound - 1, bound, bound + 1, bound + 2, bound * 10, 9999999999] {
        for prefix in ["", "+", "0", "+00"] {
            let text = format!("u,{}{}", prefix, n);
            assert_eq!(parse_change_message(&text), mutation_by_std(&text), "{:?}", text);
        }
    }
}
