use wordify::bignum::parse_decimal;
use wordify::driver::{capitalize, run_to_four};
use wordify::words::wordify;

fn run(s: &str) -> wordify::driver::FourTrace {
    let n = parse_decimal(s).expect("the literal should parse");
    run_to_four(&n).expect("the value should be within the scale table")
}

#[test]
fn starting_at_four_stops_at_once() {
    let t = run("4");
    assert_eq!(t.lines.len(), 1);
    assert_eq!(t.lines[0].word, "Four");
    assert_eq!(t.lines[0].letters, 4);
    assert_eq!(t.iterations, 0);
}

#[test]
fn starting_at_zero_takes_one_step() {
    let t = run("0");
    assert_eq!(t.lines.len(), 2);
    assert_eq!(t.lines[0].word, "Zero");
    assert_eq!(t.lines[0].letters, 4);
    assert_eq!(t.lines[1].word, "Four");
    assert_eq!(t.lines[1].letters, 4);
    assert_eq!(t.iterations, 1);
}

#[test]
fn three_funnels_through_five() {
    let t = run("3");
    let words: Vec<&str> = t.lines.iter().map(|l| l.word.as_str()).collect();
    assert_eq!(words, ["Three", "Five", "Four"]);
    assert_eq!(t.iterations, 2);
}

#[test]
fn a_negative_start_converges_too() {
    let t = run("-5");
    assert_eq!(t.lines[0].word, "Negative five");
    assert_eq!(t.lines[0].letters, 13);
    assert_eq!(t.lines.last().unwrap().word, "Four");
}

#[test]
fn reapplying_the_transform_at_four_stays_at_four() {
    let word = wordify(&parse_decimal("4").unwrap()).unwrap();
    assert_eq!(word, "four");
    let count = word.chars().count().to_string();
    let again = wordify(&parse_decimal(&count).unwrap()).unwrap();
    assert_eq!(again, "four");
}

#[test]
fn every_line_counts_its_own_letters() {
    let t = run("123456789");
    for line in &t.lines {
        assert_eq!(line.word.chars().count(), line.letters);
    }
    assert_eq!(t.lines.len(), t.iterations + 1);
}

#[test]
fn each_step_counts_the_previous_word() {
    let t = run("1000000");
    for i in 1..t.lines.len() {
        let prev = t.lines[i - 1].letters.to_string();
        let expected = wordify(&parse_decimal(&prev).unwrap()).unwrap();
        assert_eq!(t.lines[i].word.to_lowercase(), expected);
    }
}

#[test]
fn convergence_from_many_starts_is_quick() {
    for s in ["1", "2", "7", "100", "999", "123456", "-987654321", "1000000000000000000000000"] {
        let t = run(s);
        assert!(t.iterations <= 10, "{} took {} iterations", s, t.iterations);
        assert_eq!(t.lines.last().unwrap().word, "Four");
    }
}

#[test]
fn a_huge_start_still_reaches_four() {
    let s: String = std::iter::repeat('9').take(306).collect();
    let t = run(&s);
    assert_eq!(t.lines.last().unwrap().word, "Four");
    assert!(t.iterations <= 10);
}

#[test]
fn capitalize_keeps_the_rest_of_the_word() {
    assert_eq!(capitalize("four"), "Four");
    assert_eq!(capitalize("negative five"), "Negative five");
    assert_eq!(capitalize("one hundred"), "One hundred");
    assert_eq!(capitalize(""), "");
}
