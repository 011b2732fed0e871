use sapio_core::PathFragment;
use sapio_core::ValidFragmentError;
use std::sync::Arc;

fn roundtrip(token: &str) -> PathFragment {
    let f = PathFragment::try_from_str(token).expect("token should parse");
    assert_eq!(f.render(), token, "re-encoding must give the identical token");
    f
}

#[test]
fn fixed_tags_parse_to_matching_variant_and_back() {
    assert_eq!(roundtrip("@cloned"), PathFragment::Cloned);
    assert_eq!(roundtrip("@then_fn"), PathFragment::ThenFn);
    assert_eq!(roundtrip("@finish_or_fn"), PathFragment::FinishOrFn);
    assert_eq!(roundtrip("@finish_fn"), PathFragment::FinishFn);
    assert_eq!(roundtrip("@cond_comp_if"), PathFragment::CondCompIf);
    assert_eq!(roundtrip("@guard"), PathFragment::Guard);
    assert_eq!(roundtrip("@next"), PathFragment::Next);
    assert_eq!(roundtrip("@suggested"), PathFragment::Suggested);
    assert_eq!(roundtrip("@default_effect"), PathFragment::DefaultEffect);
    assert_eq!(roundtrip("@effects"), PathFragment::Effects);
}

#[test]
fn branch_tokens_parse_to_ordinals() {
    assert_eq!(
        PathFragment::try_from_str("#3"),
        Ok(PathFragment::Branch(3))
    );
    assert_eq!(
        PathFragment::try_from_str("#0"),
        Ok(PathFragment::Branch(0))
    );
    assert_eq!(
        PathFragment::try_from_str("#18446744073709551615"),
        Ok(PathFragment::Branch(u64::MAX))
    );
}

#[test]
fn branch_tokens_with_bad_digits_fail() {
    assert_eq!(
        PathFragment::try_from_str("#abc"),
        Err(ValidFragmentError::BranchParseError)
    );
    assert_eq!(
        PathFragment::try_from_str("#"),
        Err(ValidFragmentError::BranchParseError)
    );
    assert_eq!(
        PathFragment::try_from_str("#12x"),
        Err(ValidFragmentError::BranchParseError)
    );
    assert_eq!(
        PathFragment::try_from_str("#+3"),
        Err(ValidFragmentError::BranchParseError)
    );
    // one past u64::MAX overflows and is a branch-parse error, not a name
    assert_eq!(
        PathFragment::try_from_str("#18446744073709551616"),
        Err(ValidFragmentError::BranchParseError)
    );
}

#[test]
fn branch_rendering_is_decimal() {
    assert_eq!(PathFragment::Branch(0).render(), "#0");
    assert_eq!(PathFragment::Branch(42).render(), "#42");
    assert_eq!(PathFragment::Branch(u64::MAX).render(), "#18446744073709551615");
}

#[test]
fn names_parse_verbatim() {
    let f = roundtrip("make_payment");
    match f {
        PathFragment::Named(s) => assert_eq!(s.as_str(), "make_payment"),
        other => panic!("expected a named fragment, got {:?}", other),
    }
    roundtrip("ALLCAPS");
    roundtrip("_");
}

#[test]
fn bad_names_are_rejected_with_the_offending_string() {
    for bad in ["bad-name", "has space", "digits123", "a/b", "@unknown", "caf\u{e9}"] {
        match PathFragment::try_from_str(bad) {
            Err(ValidFragmentError::BadName(s)) => assert_eq!(s.as_str(), bad),
            other => panic!("expected a bad-name error for {:?}, got {:?}", bad, other),
        }
    }
}

#[test]
fn empty_token_is_a_bad_name_not_an_empty_named() {
    match PathFragment::try_from_str("") {
        Err(ValidFragmentError::BadName(s)) => assert_eq!(s.as_str(), ""),
        other => panic!("expected a bad-name error, got {:?}", other),
    }
}

#[test]
fn shared_tokens_keep_their_allocation() {
    let arc = Arc::new(String::from("reused_name"));
    match PathFragment::try_from_arc(arc.clone()) {
        Ok(PathFragment::Named(s)) => assert!(Arc::ptr_eq(&arc, &s)),
        other => panic!("expected a named fragment, got {:?}", other),
    }
    assert_eq!(
        PathFragment::try_from_arc(Arc::new(String::from("@guard"))),
        Ok(PathFragment::Guard)
    );
}

#[test]
fn fragment_error_messages_are_stable() {
    assert_eq!(
        ValidFragmentError::BranchParseError.message(),
        "BranchParseError"
    );
    assert_eq!(
        ValidFragmentError::BadName(Arc::new(String::from("b@d"))).message(),
        "BadName(b@d)"
    );
    assert_eq!(
        ValidFragmentError::InvalidReversePath("why").message(),
        "InvalidReversePath(why)"
    );
}
