use sapio_core::Path;
use sapio_core::PathFragment;
use sapio_core::ValidFragmentError;

fn frag(token: &str) -> PathFragment {
    PathFragment::try_from_str(token).expect("token should parse")
}

fn rendered(p: &Path) -> Vec<String> {
    p.iterate().iter().map(|f| f.render()).collect()
}

#[test]
fn example_path_encodes_root_first() {
    let root_first = vec![frag("@guard"), frag("#3"), frag("make_payment")];
    let path = Path::try_from_vec(root_first).expect("non-empty list must build");
    assert_eq!(path.encode(), "@guard/#3/make_payment");
}

#[test]
fn example_path_decodes_and_iterates_innermost_first() {
    let path = Path::decode("@guard/#3/make_payment").expect("canonical text must decode");
    assert_eq!(rendered(&path), vec!["make_payment", "#3", "@guard"]);
}

#[test]
fn decode_then_encode_is_identity() {
    for text in [
        "@guard/#3/make_payment",
        "@cloned",
        "#0",
        "a/b/c",
        "@effects/@default_effect/#18446744073709551615/x",
    ] {
        let path = Path::decode(text).expect("text must decode");
        assert_eq!(path.encode(), text);
    }
}

#[test]
fn encode_then_decode_restores_the_fragments() {
    let root_first = vec![frag("@then_fn"), frag("deposit"), frag("#7"), frag("@next")];
    let path = Path::try_from_vec(root_first.clone()).unwrap();
    let again = Path::decode(&path.encode()).expect("encoded text must decode");
    let mut innermost_first = root_first;
    innermost_first.reverse();
    assert_eq!(again.iterate(), innermost_first);
    assert_eq!(path.iterate(), again.iterate());
}

#[test]
fn decoding_the_empty_text_fails_with_a_bad_name() {
    match Path::decode("") {
        Err(ValidFragmentError::BadName(s)) => assert_eq!(s.as_str(), ""),
        other => panic!("expected a bad-name error, got {:?}", other),
    }
}

#[test]
fn empty_segments_fail_with_a_bad_name() {
    for text in ["/", "a/", "/a", "a//b"] {
        match Path::decode(text) {
            Err(ValidFragmentError::BadName(s)) => assert_eq!(s.as_str(), ""),
            other => panic!("expected a bad-name error for {:?}, got {:?}", text, other),
        }
    }
}

#[test]
fn decoding_stops_at_the_first_bad_segment() {
    match Path::decode("@guard/#x/b@d") {
        Err(e) => assert_eq!(e, ValidFragmentError::BranchParseError),
        Ok(_) => panic!("a bad branch segment must not decode"),
    }
    match Path::decode("@guard/ok/b@d/#x") {
        Err(ValidFragmentError::BadName(s)) => assert_eq!(s.as_str(), "b@d"),
        other => panic!("expected a bad-name error, got {:?}", other),
    }
}

#[test]
fn decode_owned_matches_decode() {
    let path = Path::decode_owned(String::from("x/y")).expect("text must decode");
    assert_eq!(path.encode(), "x/y");
}

#[test]
fn an_empty_fragment_list_is_rejected() {
    match Path::try_from_vec(Vec::new()) {
        Err(m) => assert_eq!(m, "path must contain at least one fragment"),
        Ok(_) => panic!("an empty list must not build a path"),
    }
}

#[test]
fn push_extends_without_touching_the_parent() {
    let parent = Path::new(frag("@guard"));
    let left = parent.push(frag("#0"));
    let right = parent.push(frag("#1"));
    assert_eq!(left.encode(), "@guard/#0");
    assert_eq!(right.encode(), "@guard/#1");
    assert_eq!(parent.encode(), "@guard");
}

#[test]
fn pushed_fragment_is_iterated_first() {
    let base = Path::decode("@guard/#3").unwrap();
    let extended = base.push(frag("settle"));
    let frags = extended.iterate();
    assert_eq!(frags[0], frag("settle"));
    assert_eq!(frags[1..], base.iterate()[..]);
}
