use fpm::serve::{lock_for, parse_port, version, Lock, Operation};

#[test]
fn readers_share_and_writers_exclude() {
    for op in [Operation::Serve, Operation::ViewSource, Operation::Clone, Operation::CreateCrPage] {
        assert_eq!(lock_for(op), Lock::Read);
    }
    for op in [
        Operation::Sync,
        Operation::Sync2,
        Operation::Edit,
        Operation::Revert,
        Operation::EditorSync,
        Operation::CreateCr,
        Operation::ClearCache,
    ] {
        assert_eq!(lock_for(op), Lock::Write);
    }
}

#[test]
fn the_version_names_the_commit() {
    assert_eq!(version(false, "0.1.0", Some("abc123")), "0.1.0 [abc123]");
    assert_eq!(version(false, "0.1.0", None), "0.1.0");
    assert_eq!(version(true, "0.1.0", Some("abc123")), "0.1.0");
}

#[test]
fn ports_are_numbers_up_to_65535() {
    assert_eq!(parse_port("8000"), Some(8000));
    assert_eq!(parse_port("0"), Some(0));
    assert_eq!(parse_port("65535"), Some(65535));
    assert_eq!(parse_port("65536"), None);
    assert_eq!(parse_port("http"), None);
    for text in ["", "+80", "-1", "80 ", "99999999999999999999"] {
        assert_eq!(parse_port(text), text.parse::<u16>().ok());
    }
}
