use speakpractice::diff::{diff, Change, Segment};

fn text(s: &Segment) -> String {
    String::from_utf8(s.text.clone()).unwrap()
}

fn side(segs: &[Segment], skip: Change) -> String {
    segs.iter().filter(|s| s.kind != skip).map(text).collect()
}

#[test]
fn scenario_quick_fox() {
    let segs = diff("the quick fox jumps", "the quick brown fox jumped");
    let got: Vec<(Change, String)> = segs.iter().map(|s| (s.kind, text(s).trim().to_string())).collect();
    assert_eq!(
        got,
        vec![
            (Change::Equal, "the quick".to_string()),
            (Change::Insert, "brown".to_string()),
            (Change::Equal, "fox".to_string()),
            (Change::Delete, "jumps".to_string()),
            (Change::Insert, "jumped".to_string()),
        ]
    );
    assert_eq!(text(&segs[0]), "the quick ");
    assert_eq!(text(&segs[1]), "brown ");
    assert_eq!(text(&segs[2]), "fox ");
}

#[test]
fn reconstructs_both_texts() {
    let cases = [
        ("the quick fox jumps", "the quick brown fox jumped"),
        ("", "hello  world"),
        ("über   straße\n", ""),
        ("a b c d", "d c b a"),
        ("Guten Tag", "Guten Tag"),
    ];
    for (r, t) in cases.iter() {
        let segs = diff(r, t);
        assert_eq!(side(&segs, Change::Delete), *t);
        assert_eq!(side(&segs, Change::Insert), *r);
    }
}

#[test]
fn equal_texts_give_one_run() {
    let segs = diff("ein zwei drei", "ein zwei drei");
    assert_eq!(segs.len(), 1);
    assert_eq!(segs[0].kind, Change::Equal);
    assert_eq!(text(&segs[0]), "ein zwei drei");
}

#[test]
fn empty_texts_give_no_runs() {
    assert!(diff("", "").is_empty());
    let segs = diff("", "neu");
    assert_eq!(segs.len(), 1);
    assert_eq!(segs[0].kind, Change::Insert);
}

#[test]
fn runs_alternate_in_kind() {
    let segs = diff("a b c d", "a x c y");
    for w in segs.windows(2) {
        assert_ne!(w[0].kind, w[1].kind);
    }
}

#[test]
fn comparison_is_stable() {
    let a = diff("one two three four", "one three two four");
    let b = diff("one two three four", "one three two four");
    let va: Vec<(Change, Vec<u8>)> = a.iter().map(|s| (s.kind, s.text.clone())).collect();
    let vb: Vec<(Change, Vec<u8>)> = b.iter().map(|s| (s.kind, s.text.clone())).collect();
    assert_eq!(va, vb);
}
