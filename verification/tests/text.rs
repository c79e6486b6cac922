use vps_audit::text::{
    all_digits, char_is_whitespace, chars_of, decimal_string, has_at, has_part, has_prefix,
    has_prefix_among, has_suffix, has_suffix_among, owned_texts, parse_hex_u16, parse_number,
    parse_u16, parse_u32, parse_u64, part_before, position, push_decimal, push_joined, push_text,
    read_digits, same_chars, same_ignoring_ascii_case, same_text, split_at_first, split_lines,
    split_words, started, string_of, trimmed, trimmed_of, without_prefix,
};

fn chars(s: &str) -> Vec<char> {
    s.chars().collect()
}

fn text(s: &[char]) -> String {
    s.iter().collect()
}

fn samples() -> Vec<&'static str> {
    vec![
        "",
        " ",
        "\n",
        "a",
        "  a  ",
        "\t a b \r\n",
        "a\nb",
        "a\r\nb\r\n",
        "a\n\nb\n",
        "\r",
        "a\r",
        "a\rb\n",
        "\u{a0}x\u{3000}",
        "\u{2003}wide\u{2028}",
        "Defaults logfile=/var/log/sudo.log",
        "  Defaults\tlogfile",
        "minlen = 14 # comment",
        "PRETTY_NAME=\"Debian GNU/Linux 12 (bookworm)\"",
        "no # yes",
        "héllo wörld",
        "   ",
        "a  b   c",
        "+12",
        "0007",
        "ab:cd:ef",
    ]
}

#[test]
fn chars_of_and_string_of_keep_every_character() {
    for s in samples() {
        assert_eq!(chars_of(s), chars(s));
        assert_eq!(string_of(&chars(s)), s);
    }
}

#[test]
fn whitespace_is_what_std_calls_whitespace() {
    let mut n: u32 = 0;
    while n <= 0x10FFFF {
        if let Some(c) = char::from_u32(n) {
            assert_eq!(char_is_whitespace(c), c.is_whitespace(), "U+{:04X}", n);
        }
        n += 1;
    }
}

#[test]
fn trimmed_agrees_with_std_trim() {
    for s in samples() {
        assert_eq!(text(trimmed(&chars(s))), s.trim(), "{:?}", s);
    }
}

#[test]
fn trimmed_of_agrees_with_std_trim_matches() {
    for s in ["\"a\"", "\"\"a\"", "\"\"\"", "", "a", "\"a", "a\"b\""] {
        assert_eq!(text(trimmed_of(&chars(s), '"')), s.trim_matches('"'), "{:?}", s);
    }
}

#[test]
fn split_lines_agrees_with_std_lines() {
    for s in samples() {
        let c = chars(s);
        let got: Vec<String> = split_lines(&c).iter().map(|l| text(l)).collect();
        let want: Vec<String> = s.lines().map(|l| l.to_string()).collect();
        assert_eq!(got, want, "{:?}", s);
    }
}

#[test]
fn split_lines_of_three_lines() {
    let c = chars("one\r\ntwo\n\nfour");
    let got: Vec<String> = split_lines(&c).iter().map(|l| text(l)).collect();
    assert_eq!(got, vec!["one", "two", "", "four"]);
}

#[test]
fn split_words_agrees_with_std_split_whitespace() {
    for s in samples() {
        let c = chars(s);
        let got: Vec<String> = split_words(&c).iter().map(|l| text(l)).collect();
        let want: Vec<String> = s.split_whitespace().map(|l| l.to_string()).collect();
        assert_eq!(got, want, "{:?}", s);
    }
}

#[test]
fn position_is_the_first_occurrence_or_the_length() {
    assert_eq!(position(&chars("ab:cd:ef"), ':'), 2);
    assert_eq!(position(&chars("abc"), ':'), 3);
    assert_eq!(position(&chars(""), ':'), 0);
    assert_eq!(position(&chars(":x"), ':'), 0);
}

#[test]
fn split_at_first_agrees_with_std_split_once() {
    for s in samples() {
        for c in [':', ' ', '=', '#'] {
            let cs = chars(s);
            let got = split_at_first(&cs, c).map(|(a, b)| (text(a), text(b)));
            let want = s.split_once(c).map(|(a, b)| (a.to_string(), b.to_string()));
            assert_eq!(got, want, "{:?} {:?}", s, c);
        }
    }
}

#[test]
fn part_before_agrees_with_first_piece_of_std_split() {
    for s in samples() {
        let cs = chars(s);
        assert_eq!(text(part_before(&cs, '#')), s.split('#').next().unwrap_or(""), "{:?}", s);
    }
}

#[test]
fn prefix_suffix_and_part_agree_with_std() {
    let pats = ["", "a", "Defaults", "logfile", "b", "\n", "a b", "ef", "ab", "minlen"];
    for s in samples() {
        for p in pats {
            let (cs, cp) = (chars(s), chars(p));
            assert_eq!(has_prefix(&cs, &cp), s.starts_with(p), "{:?} {:?}", s, p);
            assert_eq!(has_suffix(&cs, &cp), s.ends_with(p), "{:?} {:?}", s, p);
            assert_eq!(has_part(&cs, &cp), s.contains(p), "{:?} {:?}", s, p);
        }
    }
}

#[test]
fn has_at_looks_at_one_position() {
    let s = chars("chain input {");
    assert!(has_at(&s, &chars("input"), 6));
    assert!(!has_at(&s, &chars("input"), 5));
    assert!(!has_at(&s, &chars("input"), 12));
    assert!(!has_at(&s, &chars("input"), 100));
    assert!(has_at(&s, &chars(""), 13));
    assert!(!has_at(&s, &chars(""), 14));
}

#[test]
fn prefix_and_suffix_among_a_list() {
    let p = chars("/proc/1/exe");
    assert!(has_prefix_among(&p, &["/sys", "/proc"]));
    assert!(!has_prefix_among(&p, &["/sys", "/dev"]));
    assert!(!has_prefix_among(&p, &[]));
    assert!(has_suffix_among(&p, &["/cmd", "/exe"]));
    assert!(!has_suffix_among(&p, &["/cmd"]));
}

#[test]
fn same_chars_and_same_text_compare_whole_texts() {
    assert!(same_chars(&chars("no"), &chars("no")));
    assert!(!same_chars(&chars("no"), &chars("no ")));
    assert!(!same_chars(&chars("no"), &chars("No")));
    assert!(same_chars(&chars(""), &chars("")));
    assert!(same_text("prohibit-password", "prohibit-password"));
    assert!(!same_text("yes", "no"));
}

#[test]
fn ignoring_ascii_case_agrees_with_std() {
    let words = ["security", "SECURITY", "Security", "securit", "", "é", "É", "k", "\u{212a}"];
    for a in words {
        for b in words {
            assert_eq!(
                same_ignoring_ascii_case(&chars(a), &chars(b)),
                a.eq_ignore_ascii_case(b),
                "{:?} {:?}",
                a,
                b
            );
        }
    }
}

fn numerals() -> Vec<&'static str> {
    vec![
        "", "+", "-", "0", "7", "+7", "-7", "007", "22", "65535", "65536", "4294967295",
        "4294967296", "18446744073709551615", "18446744073709551616", "99999999999999999999999",
        "12a", "a", " 1", "1 ", "1_0", "0x10", "1F90", "1f90", "FFFF", "10000", "+1F", "zz", "１２",
    ]
}

#[test]
fn decimal_parsing_agrees_with_std() {
    for s in numerals() {
        let c = chars(s);
        assert_eq!(parse_u16(&c), s.parse::<u16>().ok(), "{:?}", s);
        assert_eq!(parse_u32(&c), s.parse::<u32>().ok(), "{:?}", s);
        assert_eq!(parse_u64(&c), s.parse::<u64>().ok(), "{:?}", s);
    }
}

#[test]
fn hexadecimal_parsing_agrees_with_std() {
    for s in numerals() {
        assert_eq!(parse_hex_u16(&chars(s)), u16::from_str_radix(s, 16).ok(), "{:?}", s);
    }
}

#[test]
fn parse_number_respects_radix_and_limit() {
    assert_eq!(parse_number(&chars("100"), 10, 100), Some(100));
    assert_eq!(parse_number(&chars("101"), 10, 100), None);
    assert_eq!(parse_number(&chars("zz"), 36, 2000), Some(35 * 36 + 35));
    assert_eq!(parse_number(&chars("12"), 2, 100), None);
    assert_eq!(parse_number(&chars("101"), 2, 100), Some(5));
}

#[test]
fn read_digits_takes_no_sign_and_reads_nothing_as_zero() {
    assert_eq!(read_digits(&chars(""), 10, 9), Some(0));
    assert_eq!(read_digits(&chars("+1"), 10, 9), None);
    assert_eq!(read_digits(&chars("9"), 10, 9), Some(9));
    assert_eq!(read_digits(&chars("10"), 10, 9), None);
}

#[test]
fn all_digits_accepts_decimal_digits_only() {
    assert!(all_digits(&chars("")));
    assert!(all_digits(&chars("0123456789")));
    assert!(all_digits(&chars("99999999999999999999999999999999")));
    assert!(!all_digits(&chars("12a")));
    assert!(!all_digits(&chars("+1")));
}

#[test]
fn decimal_string_agrees_with_std() {
    for n in [0u64, 1, 9, 10, 11, 99, 100, 101, 5, 1024, 65535, 4294967296, u64::MAX] {
        assert_eq!(decimal_string(n), n.to_string());
    }
}

#[test]
fn push_decimal_and_push_text_append() {
    let mut s = started("n=");
    push_decimal(&mut s, 120);
    push_text(&mut s, "!");
    assert_eq!(s, "n=120!");
}

#[test]
fn push_joined_agrees_with_std_join() {
    let lists: Vec<Vec<String>> = vec![
        vec![],
        vec!["a".to_string()],
        vec!["a".to_string(), "b".to_string()],
        vec!["security".to_string(), "linux".to_string(), "config".to_string()],
        vec!["".to_string(), "".to_string()],
    ];
    for l in lists {
        let mut s = started(">");
        push_joined(&mut s, &l, ", ");
        assert_eq!(s, format!(">{}", l.join(", ")));
    }
}

#[test]
fn without_prefix_agrees_with_std_strip_prefix() {
    for s in samples() {
        for p in ["PRETTY_NAME=", "", "a", "  "] {
            let (cs, cp) = (chars(s), chars(p));
            assert_eq!(
                without_prefix(&cs, &cp).map(|r| text(r)),
                s.strip_prefix(p).map(|r| r.to_string()),
                "{:?} {:?}",
                s,
                p
            );
        }
    }
}

#[test]
fn owned_texts_copies_each_text() {
    assert_eq!(owned_texts(&["security", "linux"]), vec!["security".to_string(), "linux".to_string()]);
    assert_eq!(owned_texts(&[]), Vec::<String>::new());
}
