use permguard::config::PermConfig;
use permguard::octal::{parse_octal, OctalError};
use permguard::policy::{convert_dir_perms, handle_path_chmod, make_mode};

#[test]
fn make_mode_is_idempotent() {
    let cases: [(u32, u32, bool); 6] = [
        (0o100600, 0o644, true),
        (0o100777, 0o644, true),
        (0o104755, 0o640, true),
        (0o40700, 0o755, false),
        (0o100000, 0o4644, true),
        (0o100123, 0o456, false),
    ];
    for (m, d, e) in cases {
        let once = make_mode(m, d, e);
        assert_eq!(make_mode(once, d, e), once);
    }
}

#[test]
fn make_mode_additive_is_or() {
    assert_eq!(make_mode(0o600, 0o644, false), 0o644);
    assert_eq!(make_mode(0o100700, 0o044, false), 0o100744);
    assert_eq!(make_mode(0o777, 0o000, false), 0o777);
    assert_eq!(make_mode(0o4700, 0o055, false), 0o4755);
}

#[test]
fn make_mode_exact_replaces_low_nine_bits() {
    assert_eq!(make_mode(0o100777, 0o644, true), 0o100644);
    assert_eq!(make_mode(0o104700, 0o640, true), 0o104640);
    assert_eq!(make_mode(0o40000, 0o755, true), 0o40755);
    let r = make_mode(0o102751, 0o604, true);
    assert_eq!(r & 0o777, 0o604);
    assert_eq!(r & !0o777, 0o102751 & !0o777);
}

#[test]
fn handle_path_chmod_skips_when_mode_fits() {
    assert_eq!(handle_path_chmod(0o100644, 0o644, true), None);
    assert_eq!(handle_path_chmod(0o100755, 0o644, false), None);
    assert_eq!(handle_path_chmod(0o100600, 0o644, true), Some(0o100644));
    assert_eq!(handle_path_chmod(0o100755, 0o644, true), Some(0o100644));
    assert_eq!(handle_path_chmod(0o100600, 0o044, false), Some(0o100644));
}

#[test]
fn convert_dir_perms_read_grants_execute() {
    assert_eq!(convert_dir_perms(0o644), 0o755);
    assert_eq!(convert_dir_perms(0o600), 0o700);
    assert_eq!(convert_dir_perms(0o000), 0o000);
    assert_eq!(convert_dir_perms(0o444), 0o555);
    assert_eq!(convert_dir_perms(0o640), 0o750);
    assert_eq!(convert_dir_perms(0o222), 0o222);
    assert_eq!(convert_dir_perms(0o4604), 0o4705);
}

#[test]
fn config_derives_dir_perms_when_absent() {
    let c = PermConfig::new(0o644, None, false);
    assert_eq!(c.perms, 0o644);
    assert_eq!(c.dir_perms, 0o755);
    assert!(!c.exact);
    let c = PermConfig::new(0o600, Some(0o711), true);
    assert_eq!(c.dir_perms, 0o711);
    assert!(c.exact);
}

#[test]
fn parse_octal_reads_values() {
    assert_eq!(parse_octal("644"), Ok(0o644));
    assert_eq!(parse_octal("0755"), Ok(0o755));
    assert_eq!(parse_octal("+7"), Ok(7));
    assert_eq!(parse_octal("0"), Ok(0));
    assert_eq!(parse_octal("37777777777"), Ok(u32::MAX));
    assert_eq!(parse_octal("000000000000000644"), Ok(0o644));
}

#[test]
fn parse_octal_rejects_bad_text() {
    assert_eq!(parse_octal(""), Err(OctalError::Empty));
    assert_eq!(parse_octal("+"), Err(OctalError::InvalidDigit));
    assert_eq!(parse_octal("8"), Err(OctalError::InvalidDigit));
    assert_eq!(parse_octal("64x"), Err(OctalError::InvalidDigit));
    assert_eq!(parse_octal("-644"), Err(OctalError::InvalidDigit));
    assert_eq!(parse_octal("++1"), Err(OctalError::InvalidDigit));
    assert_eq!(parse_octal("40000000000"), Err(OctalError::Overflow));
    assert_eq!(parse_octal("777777777777"), Err(OctalError::Overflow));
}
