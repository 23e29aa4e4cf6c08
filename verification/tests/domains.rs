use dns_loadgen::domains::{is_space_char, read_domains, trim, DomainPool};

fn lines(texts: &[&str]) -> Vec<String> {
    texts.iter().map(|t| t.to_string()).collect()
}

fn names(pool: &DomainPool) -> Vec<String> {
    let mut all = Vec::new();
    for i in 0..pool.len() {
        all.push(pool.get(i).clone());
    }
    all
}

#[test]
fn three_valid_lines_and_one_malformed_give_three_entries() {
    let pool = read_domains(&lines(&[
        "example.com\n",
        "www.rust-lang.org\n",
        "not a domain\n",
        "example.net\n",
    ]));
    assert_eq!(pool.len(), 3);
    assert_eq!(names(&pool), vec!["example.com", "www.rust-lang.org", "example.net"]);
}

#[test]
fn blank_lines_are_skipped() {
    let pool = read_domains(&lines(&["\n", "example.com\n", "   \n", "\t\r\n", "example.org"]));
    assert_eq!(names(&pool), vec!["example.com", "example.org"]);
}

#[test]
fn lines_are_trimmed_before_they_are_judged() {
    let pool = read_domains(&lines(&["  example.com  \r\n", "\texample.org\n"]));
    assert_eq!(names(&pool), vec!["example.com", "example.org"]);
}

#[test]
fn malformed_lines_are_dropped() {
    let pool = read_domains(&lines(&[
        "-example.com\n",
        "exa mple.com\n",
        "example..com\n",
        "example.com-\n",
        "exam_ple.com\n",
        "example.123\n",
    ]));
    assert_eq!(pool.len(), 0);
    assert!(pool.is_empty());
}

#[test]
fn duplicates_and_order_are_kept() {
    let pool = read_domains(&lines(&["b.example\n", "a.example\n", "b.example\n"]));
    assert_eq!(names(&pool), vec!["b.example", "a.example", "b.example"]);
}

#[test]
fn no_lines_give_an_empty_pool() {
    let pool = read_domains(&Vec::new());
    assert_eq!(pool.len(), 0);
    assert!(pool.is_empty());
}

#[test]
fn push_line_tells_whether_the_line_was_taken() {
    let mut pool = DomainPool::new();
    assert!(pool.push_line("example.com\n"));
    assert!(!pool.push_line("\n"));
    assert!(!pool.push_line("exa mple.com\n"));
    assert!(pool.push_line(" example.org "));
    assert_eq!(names(&pool), vec!["example.com", "example.org"]);
}

#[test]
fn accept_follows_the_verdict() {
    let mut pool = DomainPool::new();
    assert!(pool.accept("example.com", true));
    assert!(!pool.accept("example.org", false));
    assert!(!pool.accept("", true));
    assert_eq!(names(&pool), vec!["example.com"]);
}

#[test]
fn trim_removes_white_space_at_both_ends_only() {
    assert_eq!(trim("  a b \t\r\n"), "a b");
    assert_eq!(trim("abc"), "abc");
    assert_eq!(trim(""), "");
    assert_eq!(trim(" \n\t "), "");
    assert_eq!(trim("\u{3000}\u{a0}x\u{2003}y\u{2028}\u{85}"), "x\u{2003}y");
}

#[test]
fn trim_agrees_with_std_on_every_white_space_character() {
    for c in ['\t', '\n', '\u{b}', '\u{c}', '\r', ' ', '\u{85}', '\u{a0}', '\u{1680}', '\u{2000}',
        '\u{2005}', '\u{200a}', '\u{2028}', '\u{2029}', '\u{202f}', '\u{205f}', '\u{3000}']
    {
        let text = format!("{}x{}", c, c);
        assert_eq!(trim(&text), "x");
        assert_eq!(text.trim(), "x");
    }
    for c in ['\u{8}', '\u{e}', '\u{1f}', '\u{200b}', '\u{180e}', '\u{feff}', '\u{2060}', 'a'] {
        let text = format!("{}x{}", c, c);
        assert_eq!(trim(&text), text.as_str());
        assert_eq!(text.trim(), text.as_str());
    }
}

#[test]
fn is_space_char_agrees_with_std_on_every_character() {
    let mut u = 0u32;
    while u <= 0x10FFFF {
        if let Some(c) = char::from_u32(u) {
            assert_eq!(is_space_char(c), c.is_whitespace());
        }
        u += 1;
    }
}

#[test]
fn pick_from_an_empty_pool_gives_nothing() {
    let pool = DomainPool::new();
    let mut rng = rand::thread_rng();
    assert!(pool.pick(&mut rng).is_none());
}

#[test]
fn pick_gives_a_name_of_the_pool() {
    let pool = read_domains(&lines(&["a.example\n", "b.example\n", "c.example\n"]));
    let all = names(&pool);
    let mut rng = rand::thread_rng();
    let mut hits = [0usize; 3];
    for _ in 0..300 {
        let name = pool.pick(&mut rng).unwrap();
        let i = all.iter().position(|n| n == name).unwrap();
        hits[i] += 1;
    }
    assert!(hits.iter().all(|&h| h > 0));
}

#[test]
fn pick_from_a_pool_of_one() {
    let pool = read_domains(&lines(&["only.example\n"]));
    let mut rng = rand::thread_rng();
    assert_eq!(pool.pick(&mut rng).unwrap(), "only.example");
}
