use wgpu_3d_viewer::text::{parse_i32, split_on, split_whitespace};

fn chars(s: &str) -> Vec<char> {
    s.chars().collect()
}

#[test]
fn parse_i32_matches_std() {
    let cases = [
        "0", "12", "-3", "+7", "", "+", "-", "--1", "+-1", "1a", " 1", "007", "-0",
        "2147483647", "2147483648", "-2147483648", "-2147483649", "99999999999999999999",
        "-000000000000000000000000000005", "١٢", "1.5",
    ];
    for c in cases {
        assert_eq!(parse_i32(&chars(c)), c.parse::<i32>().ok(), "input {:?}", c);
    }
}

#[test]
fn split_whitespace_matches_std() {
    let cases = ["", "a", "  a  b ", "f 1/2/3\t4", "x\u{00A0}y\u{2003}z\u{3000}", "\u{85}q\u{1680}r", "a\u{200B}b"];
    for c in cases {
        let expected: Vec<Vec<char>> = c.split_whitespace().map(chars).collect();
        assert_eq!(split_whitespace(&chars(c)), expected, "input {:?}", c);
    }
}

#[test]
fn split_on_matches_std() {
    let cases = ["", "1", "1/2/3", "1//3", "/", "//", "4/"];
    for c in cases {
        let expected: Vec<Vec<char>> = c.split('/').map(chars).collect();
        assert_eq!(split_on(&chars(c), '/'), expected, "input {:?}", c);
    }
}
