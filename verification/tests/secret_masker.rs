use actions_runner::secret_masker::SecretMasker;

#[test]
fn test_mask_single_secret() {
    let mut masker = SecretMasker::new();
    masker.add_value("password123");
    assert_eq!(masker.mask_secrets("my password123 is here"), "my *** is here");
}

#[test]
fn test_mask_multiple_secrets() {
    let mut masker = SecretMasker::new();
    masker.add_value("secret1");
    masker.add_value("secret2");
    let result = masker.mask_secrets("secret1 and secret2 values");
    assert_eq!(result, "*** and *** values");
}

#[test]
fn test_mask_overlapping_secrets() {
    let mut masker = SecretMasker::new();
    masker.add_value("pass");
    masker.add_value("password");
    // "password" should be replaced first because it's longer
    let result = masker.mask_secrets("my password is here");
    assert_eq!(result, "my *** is here");
}

#[test]
fn test_empty_secret_ignored() {
    let mut masker = SecretMasker::new();
    masker.add_value("");
    masker.add_value("   ");
    assert_eq!(masker.secret_count(), 0);
}

#[test]
fn test_no_secrets_passthrough() {
    let masker = SecretMasker::new();
    assert_eq!(masker.mask_secrets("hello world"), "hello world");
}

#[test]
fn registering_twice_changes_nothing() {
    let mut masker = SecretMasker::new();
    masker.add_value("abc");
    masker.add_value(" abc\n");
    assert_eq!(masker.secret_count(), 1);
    assert_eq!(masker.mask_secrets("xabcx"), "x***x");
}

#[test]
fn masked_text_holds_no_secret() {
    let mut masker = SecretMasker::new();
    for s in ["tok", "token", "en1"] {
        masker.add_value(s);
    }
    let masked = masker.mask_secrets("token tok en1 token1 toktok");
    for s in ["tok", "token", "en1"] {
        assert!(!masked.contains(s), "{masked}");
    }
    assert_eq!(masker.mask_secrets(&masked), masked);
}

#[test]
fn a_text_shorter_than_any_secret_is_unchanged() {
    let mut masker = SecretMasker::new();
    masker.add_value("longsecret");
    assert_eq!(masker.mask_secrets("long"), "long");
}

#[test]
fn clear_forgets_the_secrets() {
    let mut masker = SecretMasker::default();
    masker.add_value("abc");
    masker.clear();
    assert_eq!(masker.secret_count(), 0);
    assert_eq!(masker.mask_secrets("abc"), "abc");
}

#[test]
fn length_is_counted_in_bytes() {
    let mut masker = SecretMasker::new();
    masker.add_value("abcd");
    masker.add_value("ééé");
    assert_eq!(masker.mask_secrets("éééabcd"), "******");
    assert_eq!(masker.mask_secrets("éé"), "éé");
}
