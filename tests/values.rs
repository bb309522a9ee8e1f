use libcni::args::{CniArgs, CniCommand, CniPath};
use libcni::cnitool::{hash_input_text, hex_text, obtain_hashed_container_id};
use sha2::Digest;
use libcni::env::{check_container_id, obtain_args, obtain_path, require_env, load_env, CniEnv, EnvValue};
use libcni::error::CniErrorCode;
use libcni::text::{split_str, str_eq};

#[test]
fn args_last_write_wins() {
    let a = CniArgs::from_str("a=1;b=2;a=3").unwrap();
    assert_eq!(a.len(), 2);
    assert_eq!(a.get("a").as_deref(), Some("3"));
    assert_eq!(a.get("b").as_deref(), Some("2"));
    assert_eq!(
        a.into_pairs(),
        vec![("a".to_string(), "3".to_string()), ("b".to_string(), "2".to_string())]
    );
}

#[test]
fn empty_args_are_empty() {
    let a = CniArgs::from_str("").unwrap();
    assert_eq!(a.len(), 0);
    assert_eq!(a.get("a"), None);
}

#[test]
fn args_skip_empty_entries_and_split_at_first_equals() {
    let a = CniArgs::from_str(";;k=v=w;;x=;").unwrap();
    assert_eq!(a.len(), 2);
    assert_eq!(a.get("k").as_deref(), Some("v=w"));
    assert_eq!(a.get("x").as_deref(), Some(""));
}

#[test]
fn args_entry_without_equals_is_rejected() {
    assert!(CniArgs::from_str("a=1;b").is_none());
}

#[test]
fn args_from_environment() {
    let mut env = CniEnv::new();
    assert_eq!(obtain_args(&env).unwrap().len(), 0);
    env.set_text("CNI_ARGS", "a=1;b=2;a=3");
    let a = obtain_args(&env).unwrap();
    assert_eq!(a.get("a").as_deref(), Some("3"));
    env.set_text("CNI_ARGS", "oops");
    assert_eq!(obtain_args(&env).unwrap_err().code(), 4);
}

#[test]
fn path_keeps_order_and_duplicates() {
    let p = CniPath::from_str("/opt/cni/bin:/usr/lib/cni:/opt/cni/bin").into_paths();
    assert_eq!(p, vec!["/opt/cni/bin", "/usr/lib/cni", "/opt/cni/bin"]);
    assert_eq!(CniPath::from_str("").into_paths(), vec![""]);
    assert_eq!(CniPath::from_str_with_separator("a;b", ';').into_paths(), vec!["a", "b"]);
}

#[test]
fn path_from_environment() {
    let mut env = CniEnv::new();
    assert!(obtain_path(&env).unwrap().into_paths().is_empty());
    env.set_text("CNI_PATH", "/a:/b");
    assert_eq!(obtain_path(&env).unwrap().into_paths(), vec!["/a", "/b"]);
    env.set("CNI_PATH".to_string(), EnvValue::NotUnicode);
    assert_eq!(obtain_path(&env).unwrap_err().code(), 4);
}

#[test]
fn commands_parse() {
    assert_eq!(CniCommand::from_str("ADD"), Ok(CniCommand::Add));
    assert_eq!(CniCommand::from_str("DEL"), Ok(CniCommand::Del));
    assert_eq!(CniCommand::from_str("CHECK"), Ok(CniCommand::Check));
    assert_eq!(CniCommand::from_str("GC"), Ok(CniCommand::GC));
    assert_eq!(CniCommand::from_str("VERSION"), Ok(CniCommand::Version));
    let e = CniCommand::from_str("STATUS").unwrap_err();
    assert_eq!(e.to_text(), "Unknown command error");
    assert!(CniCommand::Del.needs_config());
    assert!(!CniCommand::GC.needs_config());
}

#[test]
fn container_ids_matching_the_pattern_are_accepted() {
    for id in ["c1", "0", "abc-def_ghi.jkl", "a.-_", "9z"] {
        assert!(check_container_id(id).is_ok(), "{}", id);
    }
}

#[test]
fn container_ids_outside_the_pattern_are_rejected() {
    for id in ["", "Abc", "Z", "-abc", ".abc", "_abc", "!x", "a b", "aB", "a/b", "é", "abc\n"] {
        let e = check_container_id(id).unwrap_err();
        assert_eq!(e.code(), 4, "{:?}", id);
        assert!(matches!(e, CniErrorCode::InvalidEnvironmentVariable { ref var, .. } if var == "CNI_CONTAINERID"));
    }
}

#[test]
fn absent_and_malformed_variables_differ() {
    let mut env = CniEnv::new();
    assert_eq!(require_env(&env, "CNI_IFNAME").unwrap_err().code(), 12);
    assert!(load_env(&env, "CNI_IFNAME").unwrap().is_none());
    env.set("CNI_IFNAME".to_string(), EnvValue::NotUnicode);
    assert_eq!(require_env(&env, "CNI_IFNAME").unwrap_err().code(), 4);
    assert_eq!(load_env(&env, "CNI_IFNAME").unwrap_err().code(), 4);
    env.set_text("CNI_IFNAME", "eth0");
    assert_eq!(require_env(&env, "CNI_IFNAME").unwrap(), "eth0");
    assert_eq!(load_env(&env, "CNI_IFNAME").unwrap().as_deref(), Some("eth0"));
}

#[test]
fn text_helpers() {
    assert!(str_eq("abc", "abc"));
    assert!(!str_eq("abc", "abd"));
    assert!(!str_eq("ab", "abc"));
    assert_eq!(split_str("a::b", ':'), vec!["a", "", "b"]);
}

#[test]
fn hashed_container_id_depends_on_the_domain() {
    assert_eq!(hash_input_text("ab"), "cnitool-ab        ");
    assert_eq!(hash_input_text("/proc/1/ns/net"), "cnitool-/proc/1/ns/net");
    let a = obtain_hashed_container_id("/proc/1/ns/net");
    let b = obtain_hashed_container_id("/proc/2/ns/net");
    assert_ne!(a, b);
    assert_eq!(a.len(), 128);
    assert!(a.chars().all(|c| c.is_ascii_digit() || ('a'..='f').contains(&c)));
    assert!(check_container_id(&a).is_ok());
    assert_eq!(
        &obtain_hashed_container_id("")[..16],
        // The digest of "cnitool-" followed by ten spaces.
        &hex_digest_prefix()
    );
    assert_eq!(a, obtain_hashed_container_id("/proc/1/ns/net"));
}

fn hex_digest_prefix() -> String {
    let d = sha2::Sha512::digest(b"cnitool-          ");
    d.iter().take(8).map(|b| format!("{:02x}", b)).collect()
}

#[test]
fn hex_text_writes_two_lower_case_digits_per_byte() {
    assert_eq!(hex_text(&[0x00, 0x0f, 0xa5, 0xff]), "000fa5ff");
    assert_eq!(hex_text(&[]), "");
}
