use cargo_revolve::numbers::{decimal, parse_octal};
use cargo_revolve::sorting::sort_strings;
use cargo_revolve::text::{chars_of, contains, copy_strings, ends_with, sorts_before, starts_with, texts_equal};

#[test]
fn octal_modes_are_read() {
    assert_eq!(parse_octal("644"), Some(0o644));
    assert_eq!(parse_octal("0644"), Some(420));
    assert_eq!(parse_octal("755"), Some(493));
    assert_eq!(parse_octal("4755"), Some(0o4755));
    assert_eq!(parse_octal("0"), Some(0));
    assert_eq!(parse_octal("+7"), Some(7));
    assert_eq!(parse_octal("177777"), Some(65535));
    assert_eq!(parse_octal("0000000000000000000000644"), Some(420));
}

#[test]
fn bad_octal_modes_are_refused() {
    assert_eq!(parse_octal(""), None);
    assert_eq!(parse_octal("+"), None);
    assert_eq!(parse_octal("-"), None);
    assert_eq!(parse_octal("-7"), None);
    assert_eq!(parse_octal("++7"), None);
    assert_eq!(parse_octal("8"), None);
    assert_eq!(parse_octal("64a"), None);
    assert_eq!(parse_octal(" 644"), None);
    assert_eq!(parse_octal("644 "), None);
    assert_eq!(parse_octal("0o644"), None);
    assert_eq!(parse_octal("rw-r--r--"), None);
    assert_eq!(parse_octal("200000"), None);
    assert_eq!(parse_octal("7777779"), None);
}

#[test]
fn octal_reading_agrees_with_the_host() {
    let alphabet = ['0', '1', '7', '8', '+', '-', ' ', 'a'];
    let mut samples: Vec<String> = vec![String::new()];
    let mut frontier: Vec<String> = vec![String::new()];
    for _ in 0..4 {
        let mut next = Vec::new();
        for s in frontier.iter() {
            for c in alphabet.iter() {
                let mut t = s.clone();
                t.push(*c);
                next.push(t);
            }
        }
        samples.extend(next.iter().cloned());
        frontier = next;
    }
    for n in 0..70000u32 {
        if n % 37 == 0 || n > 65500 {
            samples.push(format!("{:o}", n));
        }
    }
    for s in samples.iter() {
        assert_eq!(parse_octal(s), u16::from_str_radix(s, 8).ok(), "reading {:?}", s);
    }
}

#[test]
fn decimal_writes_numbers_as_the_host_does() {
    assert_eq!(decimal(0), "0");
    assert_eq!(decimal(7), "7");
    assert_eq!(decimal(10), "10");
    assert_eq!(decimal(4096), "4096");
    assert_eq!(decimal(u64::MAX), "18446744073709551615");
    for n in 0..2000u64 {
        assert_eq!(decimal(n * 7919), (n * 7919).to_string());
    }
}

#[test]
fn sorting_agrees_with_the_host() {
    let list: Vec<String> = ["/etc/b", "/etc/a", "/etc", "/etc/a/b", "/Etc", "", "/etc/é", "/etc/z", "/etc/a"]
        .iter()
        .map(|s| s.to_string())
        .collect();
    let mut expected = list.clone();
    expected.sort();
    assert_eq!(sort_strings(&list), expected);
    assert_eq!(sort_strings(&Vec::new()), Vec::<String>::new());
}

#[test]
fn sorts_before_is_the_order_of_strings() {
    let samples = ["", "a", "b", "ab", "a/b", "a.b", "é", "z", "A", "/etc", "/etc/a"];
    for a in samples.iter() {
        for b in samples.iter() {
            assert_eq!(sorts_before(&chars_of(a), &chars_of(b)), a < b, "{:?} before {:?}", a, b);
        }
    }
}

#[test]
fn searching_agrees_with_the_host() {
    let texts = ["", "a", "sample-project-0.1.0-1.x86_64.rpm", "sample-project-debuginfo-0.1.0.rpm", "target/app", "targe", ".rpm"];
    let needles = ["", "a", "sample-project-0.1.0", "debuginfo", ".src.rpm", "target/", ".rpm", "rpm"];
    for t in texts.iter() {
        for n in needles.iter() {
            let tc = chars_of(t);
            let nc = chars_of(n);
            assert_eq!(starts_with(&tc, &nc), t.starts_with(n), "{:?} starts with {:?}", t, n);
            assert_eq!(ends_with(&tc, &nc), t.ends_with(n), "{:?} ends with {:?}", t, n);
            assert_eq!(contains(&tc, &nc), t.contains(n), "{:?} contains {:?}", t, n);
            assert_eq!(texts_equal(t, n), t == n);
        }
    }
}

#[test]
fn chars_and_copies_keep_everything() {
    assert_eq!(chars_of("aé/"), vec!['a', 'é', '/']);
    let list = vec!["x".to_string(), "".to_string(), "yz".to_string()];
    assert_eq!(copy_strings(&list), list);
}
