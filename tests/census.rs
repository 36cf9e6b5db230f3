use ward::entropy::char_counts;

fn sorted(mut v: Vec<(char, usize)>) -> Vec<(char, usize)> {
    v.sort();
    v
}

fn entropy_of(s: &str) -> f64 {
    let counts = char_counts(s);
    let n: f64 = counts.iter().map(|&(_, k)| k as f64).sum();
    counts.iter().fold(0.0, |acc, &(_, k)| {
        let p = k as f64 / n;
        acc - p * p.log2()
    })
}

#[test]
fn census_of_repeated_char() {
    assert_eq!(char_counts("aaaa"), vec![('a', 4)]);
    assert_eq!(entropy_of("aaaaaaaaaaaaaaaaaaaaaaaa"), 0.0);
}

#[test]
fn census_of_distinct_chars() {
    let c = char_counts("abcd");
    assert_eq!(sorted(c), vec![('a', 1), ('b', 1), ('c', 1), ('d', 1)]);
    assert!((entropy_of("abcdefgh") - 3.0).abs() < 1e-9);
    assert!((entropy_of("aabbccdd") - 2.0).abs() < 1e-9);
}

#[test]
fn census_counts_characters_not_bytes() {
    assert_eq!(sorted(char_counts("ééa")), vec![('a', 1), ('é', 2)]);
    assert_eq!(sorted(char_counts("abca")), vec![('a', 2), ('b', 1), ('c', 1)]);
    assert!(char_counts("").is_empty());
}
