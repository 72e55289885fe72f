use tincta::updater::{
    is_newer, linux_download_url, linux_package_name, macos_download_url, macos_package_name,
    release_decision, linux_install_command, macos_extract_command, macos_install_script,
};

#[test]
fn newer_versions() {
    assert!(is_newer("1.2.4", "1.2.3"));
    assert!(is_newer("1.10.0", "1.9.9"));
    assert!(is_newer("2", "1.99.99"));
    assert!(!is_newer("1.2.3", "1.2.3"));
    assert!(!is_newer("1.2.3", "1.2.4"));
    assert!(!is_newer("1.2", "1.2.0"));
}

#[test]
fn unparsable_parts_count_as_zero() {
    assert!(!is_newer("1.x.0", "1.0.0"));
    assert!(is_newer("1.+1.0", "1.0.9"));
    assert!(!is_newer("1.-1.0", "1.0.0"));
    assert!(!is_newer("1.99999999999.0", "1.0.0"));
    assert!(is_newer("1.4294967295", "1.4294967294"));
    assert!(is_newer("0.0.1", ""));
}

#[test]
fn release_decisions() {
    assert_eq!(release_decision(Some("v1.3.0"), "1.2.0"), Ok(Some("1.3.0".to_string())));
    assert_eq!(release_decision(Some("vv2.0.0"), "1.2.0"), Ok(Some("2.0.0".to_string())));
    assert_eq!(release_decision(Some("v1.2.0"), "1.2.0"), Ok(None));
    assert_eq!(release_decision(None, "1.2.0"), Err("Invalid API response".to_string()));
}

#[test]
fn package_locations() {
    assert_eq!(linux_package_name("1.0.0"), "simpleedit_1.0.0-1_amd64.deb");
    assert_eq!(macos_package_name("1.0.0"), "simpleedit-v1.0.0-aarch64-apple-darwin.tar.gz");
    assert_eq!(
        linux_download_url("1.0.0"),
        "https://github.com/simpleeditdev/simpleedit/releases/download/v1.0.0/simpleedit_1.0.0-1_amd64.deb"
    );
    assert_eq!(
        macos_download_url("2.1.0"),
        "https://github.com/simpleeditdev/simpleedit/releases/download/v2.1.0/simpleedit-v2.1.0-aarch64-apple-darwin.tar.gz"
    );
}

#[test]
fn install_commands() {
    let (cmd, args) = linux_install_command("/tmp/simpleedit_1.0.0-1_amd64.deb");
    assert_eq!(cmd, "pkexec");
    assert_eq!(args, vec!["dpkg", "-i", "/tmp/simpleedit_1.0.0-1_amd64.deb"]);
    let (tar, targs) = macos_extract_command("/tmp/a.tar.gz", "/tmp/x");
    assert_eq!(tar, "tar");
    assert_eq!(targs, vec!["-xzf", "/tmp/a.tar.gz", "-C", "/tmp/x"]);
    assert_eq!(
        macos_install_script("/tmp/x/simpleedit"),
        "do shell script \"cp '/tmp/x/simpleedit' /usr/local/bin/simpleedit && chmod +x /usr/local/bin/simpleedit\" with administrator privileges"
    );
}
