use rustler_core::rustlers::FloatText;
use rustler_core::sched::parse_time;
use rustler_core::text::{read_i64, read_unsigned};

/// Every string over `alphabet` of at most `max` characters.
fn strings(alphabet: &[char], max: usize) -> Vec<String> {
    let mut all = vec![String::new()];
    let mut last = vec![String::new()];
    for _ in 0..max {
        let mut next = Vec::new();
        for s in &last {
            for c in alphabet {
                let mut longer = s.clone();
                longer.push(*c);
                next.push(longer);
            }
        }
        all.extend(next.iter().cloned());
        last = next;
    }
    all
}

/// Every way to write `word` in upper and lower case.
fn casings(word: &str) -> Vec<String> {
    let mut all = vec![String::new()];
    for c in word.chars() {
        let mut next = Vec::new();
        for s in &all {
            next.push(format!("{}{}", s, c.to_ascii_lowercase()));
            next.push(format!("{}{}", s, c.to_ascii_uppercase()));
        }
        all = next;
    }
    all
}

#[test]
fn short_numbers_are_floats_where_the_standard_library_reads_them() {
    let alphabet = ['0', '7', '.', 'e', 'E', '+', '-', ' ', 'x'];
    let mut checked = 0;
    for s in strings(&alphabet, 5) {
        assert_eq!(FloatText::parse(&s).is_some(), s.parse::<f64>().is_ok(), "{:?}", s);
        checked += 1;
    }
    assert_eq!(checked, 1 + 9 + 81 + 729 + 6561 + 59049);
}

#[test]
fn longer_numbers_are_floats_where_the_standard_library_reads_them() {
    let alphabet = ['1', '.', 'e', '-'];
    for s in strings(&alphabet, 8) {
        assert_eq!(FloatText::parse(&s).is_some(), s.parse::<f64>().is_ok(), "{:?}", s);
    }
}

#[test]
fn special_floats_are_read_in_any_case() {
    for word in ["inf", "infinity", "nan"] {
        for cased in casings(word) {
            for sign in ["", "+", "-"] {
                let s = format!("{}{}", sign, cased);
                assert!(FloatText::parse(&s).is_some(), "{:?}", s);
                assert!(s.parse::<f64>().is_ok(), "{:?}", s);
            }
        }
    }
}

#[test]
fn near_misses_of_special_floats_are_rejected() {
    let alphabet = ['i', 'n', 'f', 'a', 'N', 'I', 't', 'y', '+', '1'];
    for s in strings(&alphabet, 4) {
        assert_eq!(FloatText::parse(&s).is_some(), s.parse::<f64>().is_ok(), "{:?}", s);
    }
    for s in [
        "infinit", "infinityy", "infinite", "nann", "na", "in", "inff", "i nf", "inf ", "++inf",
        "infinity1", "1inf", "inf.", ".inf", "infe1", "nan1", "-nan.", "\u{130}nf", "\u{17f}",
        "\u{212a}", "ınf",
    ] {
        assert_eq!(FloatText::parse(s).is_some(), s.parse::<f64>().is_ok(), "{:?}", s);
        assert!(FloatText::parse(s).is_none(), "{:?}", s);
    }
}

#[test]
fn short_integers_are_read_as_the_standard_library_reads_them() {
    let alphabet = ['0', '1', '9', '+', '-', ' ', '.'];
    for s in strings(&alphabet, 5) {
        let chars: Vec<char> = s.chars().collect();
        assert_eq!(read_i64(&chars), s.parse::<i64>().ok(), "{:?}", s);
        assert_eq!(
            read_unsigned(&chars, 255).map(|n| n as u8),
            s.parse::<u8>().ok(),
            "{:?}",
            s
        );
        assert_eq!(
            read_unsigned(&chars, u32::MAX as u64).map(|n| n as u32),
            s.parse::<u32>().ok(),
            "{:?}",
            s
        );
    }
}

#[test]
fn integers_near_the_limits_are_read_as_the_standard_library_reads_them() {
    for base in [i64::MAX as i128, i64::MIN as i128, u64::MAX as i128, 255, 0] {
        for delta in -12..=12 {
            let s = (base + delta).to_string();
            let chars: Vec<char> = s.chars().collect();
            assert_eq!(read_i64(&chars), s.parse::<i64>().ok(), "{:?}", s);
            assert_eq!(read_unsigned(&chars, u64::MAX), s.parse::<u64>().ok(), "{:?}", s);
            assert_eq!(
                read_unsigned(&chars, 255).map(|n| n as u8),
                s.parse::<u8>().ok(),
                "{:?}",
                s
            );
        }
    }
}

#[test]
fn every_time_of_day_is_read_in_its_three_forms() {
    for hour in 0..24_u32 {
        assert_eq!(parse_time(&format!("{:02}", hour)), Some((hour, 0, 0)));
        assert_eq!(parse_time(&format!("{}", hour)), Some((hour, 0, 0)));
        for minute in 0..60_u32 {
            assert_eq!(parse_time(&format!("{:02}:{:02}", hour, minute)), Some((hour, minute, 0)));
            for second in [0_u32, 1, 9, 10, 30, 59] {
                assert_eq!(
                    parse_time(&format!("{:02}:{:02}:{:02}", hour, minute, second)),
                    Some((hour, minute, second))
                );
                assert_eq!(
                    parse_time(&format!("{}:{}:{}", hour, minute, second)),
                    Some((hour, minute, second))
                );
            }
        }
    }
}

#[test]
fn short_texts_are_times_of_day_only_in_the_three_forms() {
    let alphabet = ['0', '2', '5', '9', ':', ' ', '+'];
    for s in strings(&alphabet, 5) {
        let fields: Vec<&str> = s.split(':').collect();
        let field = |text: &str, max: u32| -> Option<u32> {
            if (1..=2).contains(&text.len()) && text.chars().all(|c| c.is_ascii_digit()) {
                text.parse::<u32>().ok().filter(|n| *n <= max)
            } else {
                None
            }
        };
        let expected = match fields.as_slice() {
            [h] => field(h, 23).map(|h| (h, 0, 0)),
            [h, m] => field(h, 23).and_then(|h| field(m, 59).map(|m| (h, m, 0))),
            [h, m, sec] => field(h, 23)
                .and_then(|h| field(m, 59).and_then(|m| field(sec, 59).map(|sec| (h, m, sec)))),
            _ => None,
        };
        assert_eq!(parse_time(&s), expected, "{:?}", s);
    }
}
