use oneup::crates_io::{published_versions, CrateVersion, CratesIoClient};
use oneup::npmrc::NpmrcConfig;
use oneup::registry::{
    classify_status, encode_package_name, npm_package, package_scope, PackageInfo, RegistryClient,
    RegistryError, Reply,
};

fn versions_and_latest(info: PackageInfo) -> (Vec<String>, String) {
    match info {
        PackageInfo::Found { versions, latest } => (versions, latest),
        PackageInfo::NotFound => panic!("the package was found"),
    }
}

#[test]
fn scoped_names_are_encoded() {
    assert_eq!(encode_package_name("@scope/name"), "@scope%2fname");
    assert_eq!(encode_package_name("plain"), "plain");
    assert_eq!(encode_package_name("@scope/a/b"), "@scope%2fa/b");
    assert_eq!(encode_package_name("a/b"), "a/b");
    assert_eq!(encode_package_name("@noslash"), "@noslash");
    assert_eq!(encode_package_name(""), "");
}

#[test]
fn scope_is_what_stands_before_the_slash() {
    assert_eq!(package_scope("@myorg/pkg"), Some("@myorg"));
    assert_eq!(package_scope("@myorg"), Some("@myorg"));
    assert_eq!(package_scope("pkg"), None);
    assert_eq!(package_scope("a/@b"), None);
    assert_eq!(package_scope(""), None);
}

#[test]
fn statuses_are_told_apart() {
    assert_eq!(classify_status(404), Reply::NotFound);
    assert_eq!(classify_status(401), Reply::Unauthorized);
    assert_eq!(classify_status(200), Reply::Success);
    assert_eq!(classify_status(299), Reply::Success);
    assert_eq!(classify_status(300), Reply::Failed);
    assert_eq!(classify_status(199), Reply::Failed);
    assert_eq!(classify_status(403), Reply::Failed);
    assert_eq!(classify_status(500), Reply::Failed);
}

#[test]
fn npm_request_asks_for_json_with_the_token() {
    let client = RegistryClient::new("https://registry.example", Some("secret".to_string()));
    let request = client.request("@scope/pkg");
    assert_eq!(request.url, "https://registry.example/@scope%2fpkg");
    assert_eq!(request.accept.as_deref(), Some("application/json"));
    assert_eq!(request.authorization.as_deref(), Some("Bearer secret"));
    assert_eq!(request.user_agent, None);

    let anonymous = RegistryClient::new("https://registry.example", None);
    let request = anonymous.request("pkg");
    assert_eq!(request.url, "https://registry.example/pkg");
    assert_eq!(request.authorization, None);
}

#[test]
fn npm_reply_lists_versions_and_latest() {
    let client = RegistryClient::new("https://registry.example", None);
    let body = r#"{"dist-tags":{"latest":"26.2.1"},"versions":{"26.2.1":{},"26.1.9":{},"26.2.0":{}}}"#;
    let (mut versions, latest) = versions_and_latest(client.read_reply(200, body).unwrap());
    versions.sort();
    assert_eq!(versions, vec!["26.1.9", "26.2.0", "26.2.1"]);
    assert_eq!(latest, "26.2.1");
}

#[test]
fn npm_reply_without_members_has_defaults() {
    let client = RegistryClient::new("https://registry.example", None);
    let (versions, latest) = versions_and_latest(client.read_reply(200, "{}").unwrap());
    assert!(versions.is_empty());
    assert_eq!(latest, "0.0.0");
    let body = r#"{"dist-tags":{"latest":7},"versions":["1.0.0"]}"#;
    let (versions, latest) = versions_and_latest(client.read_reply(200, body).unwrap());
    assert!(versions.is_empty());
    assert_eq!(latest, "0.0.0");
}

#[test]
fn npm_reply_errors() {
    let client = RegistryClient::new("https://registry.example", None);
    assert!(matches!(client.read_reply(404, "whatever"), Ok(PackageInfo::NotFound)));
    assert_eq!(client.read_reply(401, "{}").err(), Some(RegistryError::Unauthorized));
    assert_eq!(client.read_reply(500, "{}").err(), Some(RegistryError::Status { code: 500 }));
    assert_eq!(client.read_reply(302, "{}").err(), Some(RegistryError::Status { code: 302 }));
    assert_eq!(client.read_reply(200, "not json").err(), Some(RegistryError::Body));
}

#[test]
fn npm_package_fills_in_what_is_missing() {
    let (versions, latest) = versions_and_latest(npm_package(None, None));
    assert!(versions.is_empty());
    assert_eq!(latest, "0.0.0");
    let (versions, latest) = versions_and_latest(npm_package(
        Some("1.2.3".to_string()),
        Some(vec!["1.2.3".to_string(), "1.2.2".to_string()]),
    ));
    assert_eq!(versions, vec!["1.2.3", "1.2.2"]);
    assert_eq!(latest, "1.2.3");
}

#[test]
fn override_registry_has_no_token() {
    let client = RegistryClient::for_override("https://my.registry.example///");
    assert_eq!(client.registry_url, "https://my.registry.example");
    assert_eq!(client.auth_token, None);
}

#[test]
fn client_from_settings_follows_the_scope() {
    let npmrc = NpmrcConfig::load(
        Some("@myorg:registry=https://npm.myorg.com/\n//npm.myorg.com/:_authToken=abc\n"),
        None,
        &Vec::new(),
    );
    let client = RegistryClient::from_npmrc("@myorg/pkg", &npmrc);
    assert_eq!(client.registry_url, "https://npm.myorg.com");
    assert_eq!(client.auth_token.as_deref(), Some("abc"));
    let other = RegistryClient::from_npmrc("pkg", &npmrc);
    assert_eq!(other.registry_url, "https://registry.npmjs.org");
    assert_eq!(other.auth_token, None);
}

#[test]
fn crates_client_defaults_to_crates_io() {
    assert_eq!(CratesIoClient::new(None).registry_url, "https://crates.io");
    assert_eq!(CratesIoClient::new(Some("https://my.reg/")).registry_url, "https://my.reg");
    let request = CratesIoClient::new(None).request("serde");
    assert_eq!(request.url, "https://crates.io/api/v1/crates/serde");
    assert_eq!(request.user_agent.as_deref(), Some("oneup (https://github.com/circlesac/oneup)"));
    assert_eq!(request.accept, None);
    assert_eq!(request.authorization, None);
}

#[test]
fn crates_reply_leaves_out_yanked_versions() {
    let client = CratesIoClient::new(None);
    let body = r#"{"crate":{"max_version":"1.2.3"},"versions":[
        {"num":"1.2.3","yanked":false},
        {"num":"1.2.2","yanked":true},
        {"num":"1.2.1"},
        {"yanked":false},
        {"num":"1.2.0","yanked":"yes"},
        {"num":7}
    ]}"#;
    let (versions, latest) = versions_and_latest(client.read_reply(200, body).unwrap());
    assert_eq!(versions, vec!["1.2.3", "1.2.1", "1.2.0"]);
    assert_eq!(latest, "1.2.3");
}

#[test]
fn crates_reply_errors_and_defaults() {
    let client = CratesIoClient::new(None);
    assert!(matches!(client.read_reply(404, ""), Ok(PackageInfo::NotFound)));
    assert_eq!(client.read_reply(401, "{}").err(), Some(RegistryError::Status { code: 401 }));
    assert_eq!(client.read_reply(503, "{}").err(), Some(RegistryError::Status { code: 503 }));
    assert_eq!(client.read_reply(200, "{").err(), Some(RegistryError::Body));
    let (versions, latest) = versions_and_latest(client.read_reply(200, "{}").unwrap());
    assert!(versions.is_empty());
    assert_eq!(latest, "0.0.0");
    let (versions, _) =
        versions_and_latest(client.read_reply(200, r#"{"versions":{"1.0.0":{}}}"#).unwrap());
    assert!(versions.is_empty());
}

#[test]
fn published_versions_keep_their_order() {
    let entry = |num: Option<&str>, yanked: Option<bool>| CrateVersion {
        num: num.map(|n| n.to_string()),
        yanked,
    };
    let entries = vec![
        entry(Some("3"), None),
        entry(Some("2"), Some(true)),
        entry(None, Some(false)),
        entry(Some("1"), Some(false)),
    ];
    assert_eq!(published_versions(&entries), vec!["3", "1"]);
    assert_eq!(published_versions(&Vec::new()), Vec::<String>::new());
}

#[test]
fn latest_is_the_member_of_the_member() {
    let client = RegistryClient::new("https://registry.example", None);
    let latest_of = |body: &str| versions_and_latest(client.read_reply(200, body).unwrap()).1;
    assert_eq!(latest_of(r#"{"dist-tags":{"latest":"1.2.3","next":"2.0.0"}}"#), "1.2.3");
    assert_eq!(latest_of(r#"{"dist-tags":{"next":"2.0.0"}}"#), "0.0.0");
    assert_eq!(latest_of(r#"{"dist-tags":["1.2.3"]}"#), "0.0.0");
    assert_eq!(latest_of(r#"{"dist-tags":"1.2.3"}"#), "0.0.0");
    assert_eq!(latest_of(r#"{"dist-tags":{"latest":{"x":"1.2.3"}}}"#), "0.0.0");
    assert_eq!(latest_of(r#"{"latest":"1.2.3"}"#), "0.0.0");
    assert_eq!(latest_of(r#"["dist-tags"]"#), "0.0.0");
    assert_eq!(latest_of(r#"{"dist-tags/latest":"1.2.3"}"#), "0.0.0");

    let crates = CratesIoClient::new(None);
    let max_of = |body: &str| versions_and_latest(crates.read_reply(200, body).unwrap()).1;
    assert_eq!(max_of(r#"{"crate":{"max_version":"1.2.3"}}"#), "1.2.3");
    assert_eq!(max_of(r#"{"crate":{"max_version":4}}"#), "0.0.0");
    assert_eq!(max_of(r#"{"crate":[{"max_version":"1.2.3"}]}"#), "0.0.0");
    assert_eq!(max_of(r#"{"max_version":"1.2.3"}"#), "0.0.0");
}
