use audio_selector::text::{
    contains_chars, decimal_chars, join_chars, replace_chars, split_lines, split_words, to_chars,
    trimmed,
};

fn s(v: &[char]) -> String {
    v.iter().collect()
}

fn all(v: &[Vec<char>]) -> Vec<String> {
    v.iter().map(|x| s(x)).collect()
}

#[test]
fn lines_follow_str_lines() {
    let text = "a\r\nb\n\nc\r";
    let got = all(&split_lines(&to_chars(text)));
    let want: Vec<String> = text.lines().map(|l| l.to_string()).collect();
    assert_eq!(got, want);
    assert_eq!(got, vec!["a", "b", "", "c\r"]);
    assert!(split_lines(&to_chars("")).is_empty());
    assert_eq!(all(&split_lines(&to_chars("x\n"))), vec!["x"]);
    assert_eq!(all(&split_lines(&to_chars("\n"))), vec![""]);
}

#[test]
fn words_follow_split_whitespace() {
    let text = " Device  AA:BB\tname\u{a0}x \n";
    let got = all(&split_words(&to_chars(text)));
    let want: Vec<String> = text.split_whitespace().map(|w| w.to_string()).collect();
    assert_eq!(got, want);
    assert_eq!(got, vec!["Device", "AA:BB", "name", "x"]);
}

#[test]
fn trim_replace_join() {
    assert_eq!(s(&trimmed(&to_chars("\u{3000} 45 \t"))), "45");
    assert_eq!(s(&trimmed(&to_chars("   "))), "");
    assert_eq!(s(&replace_chars(&to_chars("a%b%%"), &to_chars("%"), &to_chars(""))), "ab");
    assert_eq!(s(&replace_chars(&to_chars("aaa"), &to_chars("aa"), &to_chars("b"))), "ba");
    let parts = vec![to_chars("x"), to_chars(""), to_chars("y")];
    assert_eq!(s(&join_chars(&parts, &to_chars("\n"))), "x\n\ny");
    assert_eq!(s(&join_chars(&Vec::new(), &to_chars("\n"))), "");
    assert!(contains_chars(&to_chars("abc"), &to_chars("")));
    assert!(contains_chars(&to_chars("abc"), &to_chars("bc")));
    assert!(!contains_chars(&to_chars("abc"), &to_chars("cb")));
}

#[test]
fn decimals() {
    assert_eq!(s(&decimal_chars(0)), "0");
    assert_eq!(s(&decimal_chars(75)), "75");
    assert_eq!(s(&decimal_chars(-5)), "-5");
    assert_eq!(s(&decimal_chars(i32::MIN)), i32::MIN.to_string());
    assert_eq!(s(&decimal_chars(i32::MAX)), i32::MAX.to_string());
}
