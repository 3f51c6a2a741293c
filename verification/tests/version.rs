use updatemon::manifest::Artifact;
use updatemon::version::is_remote_newer;
use updatemon::UpdateError;

fn art(version: &str) -> Artifact {
    Artifact {
        filename: "agent.zst".to_string(),
        sha512: "deadbeef".to_string(),
        version: version.to_string(),
        destination: "/opt/agent".to_string(),
        service: None,
        lockfile: None,
    }
}

fn newer(local: &str, remote: &str) -> Result<bool, UpdateError> {
    is_remote_newer("agent", &art(local), &art(remote))
}

#[test]
fn remote_patch_bump_is_newer() {
    assert_eq!(newer("1.0.0", "1.0.1").unwrap(), true);
    assert_eq!(newer("1.0.1", "1.0.0").unwrap(), false);
}

#[test]
fn equal_versions_are_not_newer() {
    assert_eq!(newer("1.0.0", "1.0.0").unwrap(), false);
    assert_eq!(newer("v2.1.0", "v2.1.0").unwrap(), false);
    assert_eq!(newer("1.0.0-alpha.1", "1.0.0-alpha.1").unwrap(), false);
}

#[test]
fn v_prefix_is_stripped_on_either_side() {
    assert_eq!(newer("v2.0.0", "2.1.0").unwrap(), true);
    assert_eq!(newer("2.0.0", "v2.1.0").unwrap(), true);
    assert_eq!(newer("v2.1.0", "v2.0.0").unwrap(), false);
}

#[test]
fn major_and_minor_take_precedence() {
    assert_eq!(newer("1.9.9", "2.0.0").unwrap(), true);
    assert_eq!(newer("1.1.9", "1.2.0").unwrap(), true);
    assert_eq!(newer("2.0.0", "1.9.9").unwrap(), false);
}

#[test]
fn numeric_compare_not_lexicographic() {
    assert_eq!(newer("1.0.99", "1.0.100").unwrap(), true);
    assert_eq!(newer("1.0.100", "1.0.99").unwrap(), false);
}

#[test]
fn prerelease_sorts_before_release() {
    assert_eq!(newer("1.0.0-alpha", "1.0.0").unwrap(), true);
    assert_eq!(newer("1.0.0", "1.0.0-alpha").unwrap(), false);
}

#[test]
fn prerelease_chain_orders_as_semver_says() {
    let chain = [
        "1.0.0-alpha",
        "1.0.0-alpha.1",
        "1.0.0-alpha.beta",
        "1.0.0-beta",
        "1.0.0-beta.2",
        "1.0.0-beta.11",
        "1.0.0-rc.1",
        "1.0.0",
    ];
    for i in 0..chain.len() {
        for j in 0..chain.len() {
            let got = newer(chain[i], chain[j]).unwrap();
            assert_eq!(got, i < j, "comparing {} to {}", chain[i], chain[j]);
        }
    }
}

#[test]
fn numeric_identifiers_sort_before_alphanumeric() {
    assert_eq!(newer("1.0.0-1", "1.0.0-a").unwrap(), true);
    assert_eq!(newer("1.0.0-a", "1.0.0-1").unwrap(), false);
}

#[test]
fn malformed_versions_fail_with_parse_error() {
    for bad in ["1.0", "", "v", "1.0.0-", "abc", "1.0.01"] {
        let e = newer(bad, "1.0.0").unwrap_err();
        assert!(matches!(e, UpdateError::VersionParse), "local {:?}", bad);
        let e = newer("1.0.0", bad).unwrap_err();
        assert!(matches!(e, UpdateError::VersionParse), "remote {:?}", bad);
    }
}
