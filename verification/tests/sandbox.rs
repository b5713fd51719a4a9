//! Sandbox rules and profiles.

use ralph::sandbox::profile::generate;
use ralph::sandbox::rules::{
    binaries, collect_blocked_binaries, collect_dirs, expand_home, readonly_dirs, resolve_binary,
    writeable_dirs,
};

fn allow(names: &[&str]) -> Vec<String> {
    names.iter().map(|s| s.to_string()).collect()
}

#[test]
fn the_only_rule_is_aws() {
    assert!(readonly_dirs().is_empty());
    assert_eq!(writeable_dirs()[0].name, "aws");
    assert_eq!(writeable_dirs()[0].items, ["~/.aws"]);
    assert_eq!(binaries()[0].items, ["aws"]);
}

#[test]
fn aws_is_blocked_until_it_is_allowed() {
    assert_eq!(collect_blocked_binaries(&allow(&[])), ["aws"]);
    assert_eq!(collect_blocked_binaries(&allow(&["gcloud"])), ["aws"]);
    assert!(collect_blocked_binaries(&allow(&["aws"])).is_empty());
    assert!(collect_dirs(&allow(&["gcloud"]), "/h").1.is_empty());
    let (readonly, writeable) = collect_dirs(&allow(&["gcloud", "aws"]), "/h");
    assert!(readonly.is_empty());
    assert_eq!(writeable, ["/h/.aws"]);
}

#[test]
fn home_stands_for_a_leading_tilde() {
    assert_eq!(expand_home("~/.aws", "/h"), "/h/.aws");
    assert_eq!(expand_home("~x", "/h"), "~x");
    assert_eq!(expand_home("/a/~/b", "/h"), "/a/~/b");
}

#[test]
fn binaries_resolve_through_links() {
    assert_eq!(resolve_binary(None, Some("/x")), None);
    assert_eq!(resolve_binary(Some("/usr/bin/aws"), None).as_deref(), Some("/usr/bin/aws"));
    assert_eq!(
        resolve_binary(Some("/usr/bin/aws"), Some("/opt/aws/bin/aws")).as_deref(),
        Some("/opt/aws/bin/aws")
    );
}

#[test]
fn profiles_add_rules_to_the_base() {
    assert_eq!(generate("(base)\n", &allow(&[]), "/h", &vec![]), "(base)\n");
    assert_eq!(
        generate("(base)\n", &allow(&["aws"]), "/h", &vec!["/usr/bin/x".to_string()]),
        "(base)\n\n;; Extra write rules from --allow\n(allow file-write* (subpath \"/h/.aws\"))\n\
         \n;; Blocked binaries\n(deny process-exec* (literal \"/usr/bin/x\"))\n"
    );
}
