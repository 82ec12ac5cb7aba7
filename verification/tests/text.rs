use mcserver_handler::text::{
    chars_of, copy_range, decimal, find_match, is_white_space, matches_here, parse_decimal, split,
    split_once, text_of, trim,
};

fn chars(s: &str) -> Vec<char> {
    s.chars().collect()
}

fn strings(rows: Vec<Vec<char>>) -> Vec<String> {
    rows.into_iter().map(|r| r.into_iter().collect()).collect()
}

#[test]
fn chars_and_text_are_inverse() {
    let s = "h\u{e9}llo \u{1f600}\r\n";
    assert_eq!(chars_of(s), chars(s));
    assert_eq!(text_of(&chars(s)), s);
    assert_eq!(chars_of(""), Vec::<char>::new());
    assert_eq!(text_of(&[]), "");
}

#[test]
fn a_match_is_found_where_it_stands() {
    let s = chars("abcabc");
    assert!(matches_here(&s, &chars("bc"), 1));
    assert!(!matches_here(&s, &chars("bc"), 2));
    assert!(!matches_here(&s, &chars("bc"), 5));
    assert!(!matches_here(&s, &chars("bc"), 7));
    assert!(matches_here(&s, &chars(""), 6));
}

#[test]
fn the_first_match_is_the_leftmost() {
    let s = chars("abcabc");
    assert_eq!(find_match(&s, &chars("bc"), 0), Some(1));
    assert_eq!(find_match(&s, &chars("bc"), 1), Some(1));
    assert_eq!(find_match(&s, &chars("bc"), 2), Some(4));
    assert_eq!(find_match(&s, &chars("bc"), 5), None);
    assert_eq!(find_match(&s, &chars("x"), 0), None);
    assert_eq!(find_match(&s, &chars("abcabcd"), 0), None);
    assert_eq!(find_match(&s, &chars("c"), 5), Some(5));
    assert_eq!(find_match(&s, &chars("c"), 6), None);
    assert_eq!(find_match(&s, &chars("c"), 60), None);
}

#[test]
fn copy_range_copies_the_range() {
    let s = chars("abcdef");
    assert_eq!(copy_range(&s, 1, 4), chars("bcd"));
    assert_eq!(copy_range(&s, 3, 3), chars(""));
    assert_eq!(copy_range(&s, 0, 6), s);
}

#[test]
fn split_once_cuts_at_the_first_separator() {
    let (a, b) = split_once(&chars("Host: a: b"), &chars(": ")).unwrap();
    assert_eq!((text_of(&a), text_of(&b)), ("Host".to_string(), "a: b".to_string()));
    let (a, b) = split_once(&chars("=x"), &chars("=")).unwrap();
    assert_eq!((text_of(&a), text_of(&b)), ("".to_string(), "x".to_string()));
    let (a, b) = split_once(&chars("x="), &chars("=")).unwrap();
    assert_eq!((text_of(&a), text_of(&b)), ("x".to_string(), "".to_string()));
    assert!(split_once(&chars("Host:a"), &chars(": ")).is_none());
    assert!(split_once(&chars(""), &chars("=")).is_none());
}

#[test]
fn split_cuts_at_every_separator() {
    assert_eq!(strings(split(&chars("a; b; c"), &chars("; "))), vec!["a", "b", "c"]);
    assert_eq!(strings(split(&chars("a; b; "), &chars("; "))), vec!["a", "b", ""]);
    assert_eq!(strings(split(&chars("; a"), &chars("; "))), vec!["", "a"]);
    assert_eq!(strings(split(&chars("abc"), &chars("; "))), vec!["abc"]);
    assert_eq!(strings(split(&chars(""), &chars("; "))), vec![""]);
    assert_eq!(strings(split(&chars("aaa"), &chars("aa"))), vec!["", "a"]);
    assert_eq!(strings(split(&chars("abc"), &chars(""))), vec!["abc"]);
}

#[test]
fn split_agrees_with_std_on_ordinary_text() {
    for (s, pat) in [("x=1\r\ny=2\r\n", "\r\n"), ("a&b&&c", "&"), ("GET / HTTP/1.1\nHost: h\n", "\n")] {
        let ours = strings(split(&chars(s), &chars(pat)));
        let theirs: Vec<String> = s.split(pat).map(|p| p.to_string()).collect();
        assert_eq!(ours, theirs);
    }
}

#[test]
fn white_space_is_what_unicode_says() {
    for c in ['\t', '\n', '\u{b}', '\u{c}', '\r', ' ', '\u{85}', '\u{a0}', '\u{1680}', '\u{2000}', '\u{200a}', '\u{2028}', '\u{2029}', '\u{202f}', '\u{205f}', '\u{3000}'] {
        assert!(is_white_space(c));
    }
    for c in ['a', '0', '\u{8}', '\u{e}', '\u{200b}', '\u{1f}', '\u{feff}'] {
        assert!(!is_white_space(c));
    }
    let mut code = 0u32;
    while code < 0x3100 {
        if let Some(c) = char::from_u32(code) {
            assert_eq!(is_white_space(c), c.is_whitespace());
        }
        code += 1;
    }
}

#[test]
fn trim_takes_white_space_from_both_ends() {
    assert_eq!(text_of(&trim(&chars("  GET / HTTP/1.1 \r\n"))), "GET / HTTP/1.1");
    assert_eq!(text_of(&trim(&chars("a b"))), "a b");
    assert_eq!(text_of(&trim(&chars(" \t\r\n"))), "");
    assert_eq!(text_of(&trim(&chars(""))), "");
    assert_eq!(text_of(&trim(&chars("\u{a0}x\u{3000}"))), "x");
}

#[test]
fn decimal_numbers_are_read() {
    assert_eq!(parse_decimal(&chars("0")), Some(0));
    assert_eq!(parse_decimal(&chars("33")), Some(33));
    assert_eq!(parse_decimal(&chars("+33")), Some(33));
    assert_eq!(parse_decimal(&chars("007")), Some(7));
    assert_eq!(parse_decimal(&chars(&usize::MAX.to_string())), Some(usize::MAX));
}

#[test]
fn what_is_no_decimal_number_is_not_read() {
    for s in ["", "+", "-1", " 1", "1 ", "1_000", "12a", "++1", "1+", "0x10", "\u{664}"] {
        assert_eq!(parse_decimal(&chars(s)), None, "{:?}", s);
    }
    let too_large = format!("{}0", usize::MAX);
    assert_eq!(parse_decimal(&chars(&too_large)), None);
    let one_more = (usize::MAX as u128 + 1).to_string();
    assert_eq!(parse_decimal(&chars(&one_more)), None);
}

#[test]
fn decimal_digits_are_written() {
    assert_eq!(text_of(&decimal(0)), "0");
    assert_eq!(text_of(&decimal(9)), "9");
    assert_eq!(text_of(&decimal(10)), "10");
    assert_eq!(text_of(&decimal(86400)), "86400");
    assert_eq!(text_of(&decimal(u64::MAX)), "18446744073709551615");
}

#[test]
fn written_digits_read_back() {
    for n in [0usize, 1, 9, 10, 99, 100, 4294967295, usize::MAX] {
        assert_eq!(parse_decimal(&decimal(n as u64)), Some(n));
    }
}

struct Lcg(u64);

impl Lcg {
    fn next(&mut self, bound: usize) -> usize {
        self.0 = self.0.wrapping_mul(6364136223846793005).wrapping_add(1442695040888963407);
        ((self.0 >> 33) as usize) % bound
    }

    fn text(&mut self, alphabet: &[char], max_len: usize) -> String {
        let len = self.next(max_len + 1);
        (0..len).map(|_| alphabet[self.next(alphabet.len())]).collect()
    }
}

#[test]
fn trim_agrees_with_std() {
    let alphabet = [' ', '\t', '\r', '\n', 'a', 'b', '\u{a0}', '\u{2003}', '\u{200b}', '\u{e9}'];
    let mut random = Lcg(1);
    for _ in 0..2000 {
        let s = random.text(&alphabet, 8);
        assert_eq!(text_of(&trim(&chars(&s))), s.trim(), "{:?}", s);
    }
}

#[test]
fn split_agrees_with_std() {
    let alphabet = ['a', ';', ' ', '=', '\r', '\n'];
    let patterns = ["; ", "=", "\r\n", "\n", ": ", "aa", "a;a"];
    let mut random = Lcg(2);
    for _ in 0..4000 {
        let s = random.text(&alphabet, 10);
        let pat = patterns[random.next(patterns.len())];
        let ours = strings(split(&chars(&s), &chars(pat)));
        let theirs: Vec<String> = s.split(pat).map(|p| p.to_string()).collect();
        assert_eq!(ours, theirs, "{:?} {:?}", s, pat);
        let once = split_once(&chars(&s), &chars(pat)).map(|(a, b)| (text_of(&a), text_of(&b)));
        let std_once = s.split_once(pat).map(|(a, b)| (a.to_string(), b.to_string()));
        assert_eq!(once, std_once, "{:?} {:?}", s, pat);
        assert_eq!(find_match(&chars(&s), &chars(pat), 0), s.find(pat).map(|i| s[..i].chars().count()));
    }
}

#[test]
fn parse_decimal_agrees_with_std() {
    let alphabet = ['0', '1', '9', '+', '-', ' ', 'a', '7'];
    let mut random = Lcg(3);
    for _ in 0..4000 {
        let s = random.text(&alphabet, 24);
        assert_eq!(parse_decimal(&chars(&s)), s.parse::<usize>().ok(), "{:?}", s);
    }
}

#[test]
fn decimal_agrees_with_std() {
    let mut random = Lcg(4);
    for _ in 0..2000 {
        let n = random.0;
        random.next(2);
        assert_eq!(text_of(&decimal(n)), n.to_string());
    }
}
