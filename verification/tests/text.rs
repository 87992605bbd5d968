use numng::text::{
    chars_of, followed_by, find_char, integer_digits, number_digits, parse_number, slice_chars,
    split_chars, str_equal,
};

fn chars(s: &str) -> Vec<char> {
    s.chars().collect()
}

#[test]
fn text_is_split_at_each_separator() {
    let parts = |s: &str| -> Vec<String> {
        split_chars(&chars(s), 0, '.').iter().map(|p| p.iter().collect()).collect()
    };
    assert_eq!(parts("1.2.3"), vec!["1", "2", "3"]);
    assert_eq!(parts(""), vec![""]);
    assert_eq!(parts("."), vec!["", ""]);
    assert_eq!(parts("a..b."), vec!["a", "", "b", ""]);
    assert_eq!(parts("no separator"), vec!["no separator"]);
    let tail: Vec<String> =
        split_chars(&chars("^1.2"), 1, '.').iter().map(|p| p.iter().collect()).collect();
    assert_eq!(tail, vec!["1", "2"]);
    assert_eq!(split_chars(&chars("ab"), 2, '.'), vec![Vec::<char>::new()]);
}

#[test]
fn numbers_are_read_in_base_ten() {
    assert_eq!(parse_number(&chars("0")), Some(0));
    assert_eq!(parse_number(&chars("007")), Some(7));
    assert_eq!(parse_number(&chars("65535")), Some(65535));
    assert_eq!(parse_number(&chars("0000065535")), Some(65535));
    assert_eq!(parse_number(&chars("65536")), None);
    assert_eq!(parse_number(&chars("99999999999999999999")), None);
    assert_eq!(parse_number(&chars("")), None);
    assert_eq!(parse_number(&chars("+1")), None);
    assert_eq!(parse_number(&chars("-1")), None);
    assert_eq!(parse_number(&chars("1a")), None);
    assert_eq!(parse_number(&chars("٣")), None);
}

#[test]
fn numbers_are_written_in_base_ten() {
    for n in [0u64, 7, 10, 99, 100, 65535, 1234567890, u64::MAX] {
        let digits: String = number_digits(n).iter().collect();
        assert_eq!(digits, n.to_string());
    }
    for n in [0i32, -1, 1, -10, 42, i32::MAX, i32::MIN] {
        let digits: String = integer_digits(n).iter().collect();
        assert_eq!(digits, n.to_string());
    }
}

#[test]
fn characters_are_taken_one_by_one() {
    assert_eq!(chars_of("aä€😀"), vec!['a', 'ä', '€', '😀']);
    assert_eq!(chars_of(""), Vec::<char>::new());
    assert!(str_equal("latest", "latest"));
    assert!(!str_equal("latest", "latest "));
    assert!(!str_equal("a", "b"));
    assert_eq!(followed_by("ab", "cd"), "abcd");
}

#[test]
fn characters_are_found_and_cut_out() {
    assert_eq!(find_char(&chars("lib:src:x"), ':'), Some(3));
    assert_eq!(find_char(&chars("lib"), ':'), None);
    assert_eq!(find_char(&chars(""), ':'), None);
    assert_eq!(slice_chars(&chars("lib:src"), 4, 7), "src");
    assert_eq!(slice_chars(&chars("lib:src"), 0, 3), "lib");
    assert_eq!(slice_chars(&chars("lib"), 3, 3), "");
}
