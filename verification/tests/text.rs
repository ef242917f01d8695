use gw_psc::text::{contains, decimal_string, find_from, look_after_in_line, to_chars};

fn reference(text: &str, key: &str) -> String {
    text.split(key).collect::<Vec<&str>>()[1]
        .split('\n')
        .collect::<Vec<&str>>()[0]
        .trim_matches(&['"', ' '][..])
        .to_owned()
}

#[test]
fn look_after_in_line_reads_a_labelled_value() {
    let text = "address:\n  mainnet: ckb1abc\n  testnet: \"ckt1xyz\" \nlock_arg: 0x12\n";
    assert_eq!(look_after_in_line(text, "mainnet:"), "ckb1abc");
    assert_eq!(look_after_in_line(text, "testnet:"), "ckt1xyz");
    assert_eq!(look_after_in_line(text, "lock_arg:"), "0x12");
    assert_eq!(look_after_in_line(text, "address:"), "");
}

#[test]
fn look_after_in_line_agrees_with_split_and_trim() {
    let cases: [(&str, &str); 14] = [
        ("a: b", "a:"),
        ("a: b a: c\n", "a:"),
        ("k=\"  v  \"\nrest", "k="),
        ("xxkxx", "k"),
        ("key", "key"),
        ("keykey", "key"),
        ("aaa", "aa"),
        ("aaaa", "aa"),
        ("abc", ""),
        ("", ""),
        ("\nabc", ""),
        ("total: 12.5 (CKB)\n", "total:"),
        ("a\nb: \" \"\" q \" \nc", "b:"),
        ("héllo wörld: ünï\n", "wörld:"),
    ];
    for (text, key) in cases {
        assert_eq!(
            look_after_in_line(text, key),
            reference(text, key),
            "text {:?} key {:?}",
            text,
            key
        );
    }
}

#[test]
fn contains_agrees_with_std() {
    let cases: [(&str, &str); 10] = [
        ("", ""),
        ("abc", ""),
        ("abc", "abc"),
        ("abc", "abcd"),
        ("abc", "bc"),
        ("abc", "ac"),
        ("aab", "ab"),
        ("error: TransactionFailedToResolve(OutPoint(0x01))", "TransactionFailedToResolve"),
        ("PoolRejectedTransactionByMinFeeRate", "TransactionFailedToResolve"),
        ("wörld", "ö"),
    ];
    for (text, key) in cases {
        assert_eq!(contains(text, key), text.contains(key), "{:?} {:?}", text, key);
    }
}

#[test]
fn find_from_finds_the_first_match_at_or_after() {
    let text = to_chars("abcabcabc");
    let key = to_chars("bc");
    assert_eq!(find_from(&text, &key, 0), Some(1));
    assert_eq!(find_from(&text, &key, 1), Some(1));
    assert_eq!(find_from(&text, &key, 2), Some(4));
    assert_eq!(find_from(&text, &key, 7), Some(7));
    assert_eq!(find_from(&text, &key, 8), None);
    assert_eq!(find_from(&text, &key, 100), None);
    assert_eq!(find_from(&text, &to_chars(""), 9), Some(9));
    assert_eq!(find_from(&text, &to_chars(""), 10), None);
    assert_eq!(find_from(&to_chars(""), &key, 0), None);
}

#[test]
fn to_chars_keeps_every_character() {
    assert_eq!(to_chars("aé\n"), vec!['a', 'é', '\n']);
    assert_eq!(to_chars(""), Vec::<char>::new());
}

#[test]
fn decimal_string_agrees_with_std() {
    for n in [0u64, 1, 9, 10, 11, 99, 100, 101, 12345, 10_000_000_000, u64::MAX] {
        assert_eq!(decimal_string(n), format!("{}", n));
    }
    assert_eq!(decimal_string(4096), "4096");
}
