use cred::sys_macos::{
    delete_step, get_outcome as mac_get_outcome, sec_err, set_step, DeleteCall, DeleteStep,
    SetCall, SetStep, ERR_SEC_DUPLICATE_ITEM, ERR_SEC_ITEM_NOT_FOUND,
};
use cred::error::i32_to_decimal;
use cred::sys_windows::{
    credential_for, filter_request, set_outcome, set_request, target_request, CRED_PERSIST_LOCAL_MACHINE, CRED_TYPE_GENERIC,
    delete_outcome, entries_outcome, filter_for, get_outcome, names_under, not_found,
    strip_prefix_str, target_for, ERROR_NOT_FOUND,
};
use cred::order::{sort_names, str_le};
use cred::{
    check_set, delete, entries, get, sys_macos, sys_unsupported, validate, CredError,
    ErrorKind, Label, MAX_SECRET,
};

fn svc(tag: &str) -> String {
    format!("nativelite-cred-test-{tag}")
}

#[test]
fn validation_rejects_bad_names() {
    assert!(cred::set("", "n", b"x").is_err());
    assert!(cred::set("s", "", b"x").is_err());
    assert!(cred::set("a/b", "n", b"x").is_err());
    assert!(cred::set("s", "a/b", b"x").is_err());
    assert!(cred::set("s", "a\nb", b"x").is_err());
    assert!(get("s\0", "n").is_err());
    assert!(delete("s", "\u{1}").is_err());
}

#[test]
fn oversized_secret_rejected_before_reaching_the_os() {
    let big = vec![0u8; MAX_SECRET + 1];
    let err = cred::set("svc", "name", &big).unwrap_err();
    assert_eq!(err.kind(), ErrorKind::InvalidInput);
}

#[test]
fn every_operation_is_honestly_unsupported() {
    let s = svc("unsup");
    assert_eq!(cred::set(&s, "k", b"v").unwrap_err().kind(), ErrorKind::Unsupported);
    assert_eq!(get(&s, "k").unwrap_err().kind(), ErrorKind::Unsupported);
    assert_eq!(delete(&s, "k").unwrap_err().kind(), ErrorKind::Unsupported);
    assert_eq!(entries(&s).unwrap_err().kind(), ErrorKind::Unsupported);
}

#[test]
fn validation_still_fires_before_the_backend() {
    assert_eq!(cred::set("a/b", "k", b"v").unwrap_err().kind(), ErrorKind::InvalidInput);
}

#[test]
fn validate_names_the_refused_label() {
    assert_eq!(validate("", "n"), Err(CredError::InvalidLabel(Label::Service)));
    assert_eq!(validate("s", ""), Err(CredError::InvalidLabel(Label::Name)));
    assert_eq!(validate("a/b", "c/d"), Err(CredError::InvalidLabel(Label::Service)));
    assert_eq!(validate("myapp", "api-key"), Ok(()));
    assert_eq!(validate("ünïcødé ✓", "名前"), Ok(()));
}

#[test]
fn control_characters_are_refused() {
    for bad in ["\u{0}", "\u{1f}", "\t", "\r", "\u{7f}", "\u{85}", "\u{9f}", "a\u{1b}b"] {
        assert_eq!(validate("s", bad), Err(CredError::InvalidLabel(Label::Name)));
    }
    for good in [" ", "~", "\u{a0}", "\u{20}x"] {
        assert_eq!(validate("s", good), Ok(()));
    }
}

#[test]
fn size_limit_is_exact() {
    let max = vec![0xABu8; MAX_SECRET];
    assert_eq!(check_set("svc", "big", &max), Ok(()));
    let over = vec![0xABu8; MAX_SECRET + 1];
    assert_eq!(check_set("svc", "big", &over), Err(CredError::SecretTooLarge));
    assert_eq!(check_set("svc", "empty", b""), Ok(()));
    // labels are checked before the size
    assert_eq!(check_set("", "big", &over), Err(CredError::InvalidLabel(Label::Service)));
    assert_eq!(cred::set("svc", "big", &max), Err(CredError::NoVault));
    assert_eq!(MAX_SECRET, 2560);
}

#[test]
fn invalid_service_in_entries_is_invalid_input() {
    assert_eq!(entries("a/b"), Err(CredError::InvalidLabel(Label::Service)));
    assert_eq!(entries(""), Err(CredError::InvalidLabel(Label::Service)));
    assert_eq!(entries("ok"), Err(CredError::NoVault));
}

#[test]
fn error_kinds() {
    assert_eq!(CredError::InvalidLabel(Label::Name).kind(), ErrorKind::InvalidInput);
    assert_eq!(CredError::SecretTooLarge.kind(), ErrorKind::InvalidInput);
    assert_eq!(CredError::NoVault.kind(), ErrorKind::Unsupported);
    assert_eq!(CredError::ListingUnsupported.kind(), ErrorKind::Unsupported);
    assert_eq!(CredError::Os(5).kind(), ErrorKind::Os);
    assert_eq!(CredError::Security(-1).kind(), ErrorKind::Other);
}

#[test]
fn unsupported_backend_refuses_everything() {
    assert_eq!(sys_unsupported::unsupported(), CredError::NoVault);
    assert_eq!(sys_unsupported::set("s", "n", b"v"), Err(CredError::NoVault));
    assert_eq!(sys_unsupported::get("s", "n"), Err(CredError::NoVault));
    assert_eq!(sys_unsupported::delete("s", "n"), Err(CredError::NoVault));
    assert_eq!(sys_unsupported::entries("s"), Err(CredError::NoVault));
}

#[test]
fn windows_target_and_filter() {
    assert_eq!(target_for("myapp", "api-key"), "myapp/api-key");
    assert_eq!(filter_for("myapp"), "myapp/*");
    assert_eq!(target_for("ü", "名"), "ü/名");
    // distinct secrets get distinct targets
    assert_ne!(target_for("ab", "c"), target_for("a", "bc"));
    assert_ne!(target_for("svc", "k1"), target_for("svc", "k2"));
}

#[test]
fn windows_not_found_code() {
    assert!(not_found(Some(ERROR_NOT_FOUND)));
    assert!(not_found(Some(1168)));
    assert!(!not_found(Some(5)));
    assert!(!not_found(None));
}

#[test]
fn windows_get_and_delete_outcomes() {
    assert_eq!(get_outcome(Ok(b"sk-example-123".to_vec())), Ok(Some(b"sk-example-123".to_vec())));
    assert_eq!(get_outcome(Ok(Vec::new())), Ok(Some(Vec::new())));
    assert_eq!(get_outcome(Err(1168)), Ok(None));
    assert_eq!(get_outcome(Err(5)), Err(CredError::Os(5)));
    assert_eq!(delete_outcome(Ok(())), Ok(true));
    assert_eq!(delete_outcome(Err(1168)), Ok(false));
    assert_eq!(delete_outcome(Err(87)), Err(CredError::Os(87)));
}

#[test]
fn strip_prefix_takes_off_exactly_the_prefix() {
    assert_eq!(strip_prefix_str("svc/alpha", "svc/"), Some("alpha".to_string()));
    assert_eq!(strip_prefix_str("svc/", "svc/"), Some(String::new()));
    assert_eq!(strip_prefix_str("svc2/alpha", "svc/"), None);
    assert_eq!(strip_prefix_str("sv", "svc/"), None);
    assert_eq!(strip_prefix_str("ü/名前", "ü/"), Some("名前".to_string()));
}

#[test]
fn entries_lists_names_under_the_service_only() {
    let targets = vec![
        Some("list/beta".to_string()),
        Some("list-other/gamma".to_string()),
        None,
        Some("list/alpha".to_string()),
        Some("lis/t".to_string()),
    ];
    assert_eq!(names_under("list", &targets), vec!["alpha", "beta"]);
    assert_eq!(
        entries_outcome("list", Ok(targets)),
        Ok(vec!["alpha".to_string(), "beta".to_string()])
    );
    assert_eq!(entries_outcome("list", Err(ERROR_NOT_FOUND)), Ok(Vec::new()));
    assert_eq!(entries_outcome("list", Err(5)), Err(CredError::Os(5)));
}

#[test]
fn listing_order_is_byte_order() {
    let names: Vec<String> = ["b", "a", "B", "ab", "", "é", "z", "a"]
        .iter()
        .map(|s| s.to_string())
        .collect();
    let mut expected = names.clone();
    expected.sort();
    assert_eq!(sort_names(&names), expected);
    assert!(str_le("a", "ab"));
    assert!(!str_le("ab", "a"));
    assert!(str_le("B", "a"));
    assert!(str_le("", ""));
    assert!(str_le("z", "é"));
}

#[test]
fn macos_set_adds_or_replaces() {
    assert!(matches!(set_step(SetCall::AddItem, 0), SetStep::Done(Ok(()))));
    assert!(matches!(
        set_step(SetCall::AddItem, ERR_SEC_DUPLICATE_ITEM),
        SetStep::Call(SetCall::FindItem)
    ));
    assert!(matches!(
        set_step(SetCall::AddItem, -34),
        SetStep::Done(Err(CredError::Security(-34)))
    ));
    assert!(matches!(set_step(SetCall::FindItem, 0), SetStep::Call(SetCall::ReplaceData)));
    assert!(matches!(
        set_step(SetCall::FindItem, ERR_SEC_ITEM_NOT_FOUND),
        SetStep::Done(Err(CredError::Security(-25300)))
    ));
    assert!(matches!(set_step(SetCall::ReplaceData, 0), SetStep::Done(Ok(()))));
    assert!(matches!(
        set_step(SetCall::ReplaceData, -61),
        SetStep::Done(Err(CredError::Security(-61)))
    ));
}

#[test]
fn macos_delete_and_get() {
    assert!(matches!(
        delete_step(DeleteCall::FindItem, ERR_SEC_ITEM_NOT_FOUND),
        DeleteStep::Done(Ok(false))
    ));
    assert!(matches!(delete_step(DeleteCall::FindItem, 0), DeleteStep::Call(DeleteCall::DeleteItem)));
    assert!(matches!(
        delete_step(DeleteCall::FindItem, -128),
        DeleteStep::Done(Err(CredError::Security(-128)))
    ));
    assert!(matches!(delete_step(DeleteCall::DeleteItem, 0), DeleteStep::Done(Ok(true))));
    assert!(matches!(
        delete_step(DeleteCall::DeleteItem, -5),
        DeleteStep::Done(Err(CredError::Security(-5)))
    ));
    assert_eq!(mac_get_outcome(ERR_SEC_ITEM_NOT_FOUND, Vec::new()), Ok(None));
    assert_eq!(mac_get_outcome(-25293, Vec::new()), Err(CredError::Security(-25293)));
    assert_eq!(mac_get_outcome(0, vec![1, 2, 3]), Ok(Some(vec![1, 2, 3])));
    assert_eq!(sec_err(-1), CredError::Security(-1));
    assert_eq!(sys_macos::entries("s"), Err(CredError::ListingUnsupported));
}

#[test]
fn binary_secret_passes_through_unchanged() {
    let secret: Vec<u8> = (0u8..=255).collect();
    assert_eq!(check_set("bin", "blob", &secret), Ok(()));
    assert_eq!(get_outcome(Ok(secret.clone())), Ok(Some(secret.clone())));
    assert_eq!(mac_get_outcome(0, secret.clone()), Ok(Some(secret)));
}

#[test]
fn error_messages() {
    assert_eq!(
        validate("", "a/b").unwrap_err().message(),
        "service must be non-empty, without '/', NUL, or control characters"
    );
    assert_eq!(
        validate("ok", "a/b").unwrap_err().message(),
        "name must be non-empty, without '/', NUL, or control characters"
    );
    assert_eq!(
        CredError::SecretTooLarge.message(),
        format!("secret exceeds {MAX_SECRET} bytes (the vault's limit)")
    );
    assert_eq!(
        CredError::NoVault.message(),
        "no OS credential vault backend on this platform yet \
         (Linux Secret Service needs D-Bus; planned). cred refuses to fall \
         back to plaintext files."
    );
    assert_eq!(
        CredError::ListingUnsupported.message(),
        "listing keychain items needs the SecItemCopyMatching FFI surface; \
         planned. Keep an index entry if you need portable listing"
    );
    assert_eq!(sec_err(-25293).message(), "Security.framework error -25293");
    assert_eq!(sec_err(-25293).kind(), ErrorKind::Other);
    assert_eq!(CredError::Os(1168).message(), "os error 1168");
}

#[test]
fn decimal_rendering() {
    for n in [0, 7, 10, 99, 100, 1168, -1, -25300, i32::MAX, i32::MIN] {
        assert_eq!(i32_to_decimal(n), n.to_string());
    }
}

#[test]
fn windows_credential_record() {
    let c = credential_for("myapp", "api-key", b"sk-example-123");
    assert_eq!(c.flags, 0);
    assert_eq!(c.cred_type, CRED_TYPE_GENERIC);
    assert_eq!(c.cred_type, 1);
    assert_eq!(c.target_name, "myapp/api-key");
    assert_eq!(c.blob_size, 14);
    assert_eq!(c.persist, CRED_PERSIST_LOCAL_MACHINE);
    assert_eq!(c.persist, 2);
    assert_eq!(c.user_name, "nativelite");
    assert_eq!(c.blob, b"sk-example-123".to_vec());
    let max = vec![0xABu8; MAX_SECRET];
    assert_eq!(credential_for("s", "big", &max).blob_size, 2560);
    assert_eq!(set_outcome(Ok(())), Ok(()));
    assert_eq!(set_outcome(Err(5)), Err(CredError::Os(5)));
}

#[test]
fn windows_requests_refuse_invalid_input() {
    let secret: Vec<u8> = (0u8..=255).collect();
    let c = set_request("bin", "blob", &secret).unwrap();
    assert_eq!(c.blob, secret);
    assert_eq!(c.blob_size, 256);
    assert_eq!(c.target_name, "bin/blob");
    assert_eq!(c.cred_type, 1);
    assert_eq!(c.persist, 2);
    assert_eq!(c.user_name, "nativelite");
    let over = vec![0u8; MAX_SECRET + 1];
    assert!(matches!(set_request("svc", "name", &over), Err(CredError::SecretTooLarge)));
    assert!(matches!(
        set_request("a/b", "name", b"x"),
        Err(CredError::InvalidLabel(Label::Service))
    ));
    assert!(matches!(set_request("s", "", b"x"), Err(CredError::InvalidLabel(Label::Name))));
    assert_eq!(target_request("myapp", "api-key"), Ok("myapp/api-key".to_string()));
    assert_eq!(target_request("s\0", "n"), Err(CredError::InvalidLabel(Label::Service)));
    assert_eq!(target_request("s", "\u{1}"), Err(CredError::InvalidLabel(Label::Name)));
    assert_eq!(filter_request("myapp"), Ok("myapp/*".to_string()));
    assert_eq!(filter_request("a/b"), Err(CredError::InvalidLabel(Label::Service)));
}
