use socktail::hostname::{generate, get_or_generate, get_system_hostname, normalize_hostname};

#[test]
fn test_generate_format() {
    let hostname = generate();
    assert!(hostname.contains('-'));
    assert!(hostname.len() <= 63);

    let parts: Vec<&str> = hostname.split('-').collect();
    assert_eq!(parts.len(), 3);
}

#[test]
fn test_get_or_generate() {
    let hostname = get_or_generate();
    assert!(!hostname.is_empty());
    assert!(hostname.len() <= 63);
}

#[test]
fn test_normalize_keeps_first_label() {
    assert_eq!(normalize_hostname("host.example.com").unwrap(), "host");
}

#[test]
fn test_normalize_replaces_underscores() {
    assert_eq!(normalize_hostname("my_box.local").unwrap(), "my-box");
}

#[test]
fn test_normalize_rejects_empty_and_long() {
    assert!(normalize_hostname("").is_none());
    assert!(normalize_hostname(".example.com").is_none());
    let long = "a".repeat(64);
    assert!(normalize_hostname(&long).is_none());
    let just_fits = "a".repeat(63);
    assert_eq!(normalize_hostname(&just_fits).unwrap(), just_fits);
}

#[test]
fn test_system_hostname_is_usable() {
    if let Some(h) = get_system_hostname() {
        assert!(!h.is_empty());
        assert!(h.len() <= 63);
        assert!(!h.contains('.'));
        assert!(!h.contains('_'));
    }
}
