use scribe::flavor::{display_name, is_dev_flavor, pre_rebrand_identifier, replace_all};

#[test]
fn dev_flavor_is_named_apart() {
    assert!(is_dev_flavor("com.natkins.scribe.dev"));
    assert!(!is_dev_flavor("com.natkins.scribe"));
    assert_eq!(display_name("com.natkins.scribe.dev"), "Scribe Dev");
    assert_eq!(display_name("com.natkins.scribe"), "Scribe");
}

#[test]
fn the_pre_rebrand_identifier_swaps_the_product_name() {
    assert_eq!(pre_rebrand_identifier("com.natkins.scribe").as_deref(), Some("com.natkins.localdictate"));
    assert_eq!(
        pre_rebrand_identifier("com.natkins.scribe.dev").as_deref(),
        Some("com.natkins.localdictate.dev")
    );
    assert_eq!(pre_rebrand_identifier("com.natkins.localdictate"), None);
}

#[test]
fn replace_all_matches_str_replace() {
    for (s, from, to) in [("a.b.a.b", ".b", "!"), ("aaa", "aa", "b"), ("", "x", "y")] {
        assert_eq!(replace_all(s, from, to), s.replace(from, to));
    }
}
