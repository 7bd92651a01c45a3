use oneup::npmrc::{
    env_reference_of, env_setting_key, normalize_registry_url, with_dashes, NpmrcConfig,
};

fn env(pairs: &[(&str, &str)]) -> Vec<(String, String)> {
    pairs.iter().map(|(k, v)| (k.to_string(), v.to_string())).collect()
}

#[test]
fn public_registry_is_the_default() {
    let config = NpmrcConfig::load(None, None, &Vec::new());
    assert_eq!(config.registry_url(None), "https://registry.npmjs.org");
    assert_eq!(config.registry_url(Some("@myorg")), "https://registry.npmjs.org");
    assert_eq!(config.auth_token("https://registry.npmjs.org"), None);
}

#[test]
fn project_file_goes_before_the_users() {
    let config = NpmrcConfig::load(
        Some("registry=https://user.example/\nalways-auth=true\n"),
        Some("registry = https://project.example///\n"),
        &Vec::new(),
    );
    assert_eq!(config.registry_url(None), "https://project.example");
    let only_user =
        NpmrcConfig::load(Some("registry=https://user.example/\n"), None, &Vec::new());
    assert_eq!(only_user.registry_url(None), "https://user.example");
}

#[test]
fn environment_goes_before_the_files() {
    let config = NpmrcConfig::load(
        Some("registry=https://user.example/\n"),
        Some("registry=https://project.example/\n"),
        &env(&[("PATH", "/bin"), ("NPM_CONFIG_REGISTRY", "https://env.example/")]),
    );
    assert_eq!(config.registry_url(None), "https://env.example");
    let lower = NpmrcConfig::load(
        None,
        None,
        &env(&[("npm_config_registry", "https://lower.example")]),
    );
    assert_eq!(lower.registry_url(None), "https://lower.example");
    let later = NpmrcConfig::load(
        None,
        None,
        &env(&[("NPM_CONFIG_REGISTRY", "https://a.example"), ("npm_config_registry", "https://b.example")]),
    );
    assert_eq!(later.registry_url(None), "https://b.example");
}

#[test]
fn scoped_registry_goes_before_the_default_one() {
    let config = NpmrcConfig::load(
        Some("registry=https://default.example\n@myorg:registry=https://npm.myorg.com/\n"),
        None,
        &Vec::new(),
    );
    assert_eq!(config.registry_url(Some("@myorg")), "https://npm.myorg.com");
    assert_eq!(config.registry_url(Some("@other")), "https://default.example");
    assert_eq!(config.registry_url(None), "https://default.example");
}

#[test]
fn token_of_the_host_goes_before_the_general_one() {
    let config = NpmrcConfig::load(
        Some("//npm.myorg.com/:_authToken=host-token\n_authToken=general\n"),
        None,
        &Vec::new(),
    );
    assert_eq!(config.auth_token("https://npm.myorg.com").as_deref(), Some("host-token"));
    assert_eq!(config.auth_token("https://npm.myorg.com/").as_deref(), Some("host-token"));
    assert_eq!(config.auth_token("http://npm.myorg.com//").as_deref(), Some("host-token"));
    assert_eq!(config.auth_token("https://http://npm.myorg.com").as_deref(), Some("host-token"));
    assert_eq!(config.auth_token("https://elsewhere.example").as_deref(), Some("general"));
}

#[test]
fn token_may_refer_to_the_environment() {
    let config = NpmrcConfig::load(
        Some("//npm.myorg.com/:_authToken=${NPM_TOKEN}\n_authToken=${MISSING}\n"),
        None,
        &env(&[("NPM_TOKEN", "from-env")]),
    );
    assert_eq!(config.auth_token("https://npm.myorg.com").as_deref(), Some("from-env"));
    assert_eq!(config.auth_token("https://elsewhere.example").as_deref(), Some(""));
    assert_eq!(config.resolve_env_var("${NPM_TOKEN}"), "from-env");
    assert_eq!(config.resolve_env_var("$NPM_TOKEN"), "$NPM_TOKEN");
    assert_eq!(config.resolve_env_var("${NPM_TOKEN"), "${NPM_TOKEN");
    assert_eq!(config.resolve_env_var("${}"), "");
    assert_eq!(config.resolve_env_var("plain"), "plain");
}

#[test]
fn references_to_the_environment_are_recognised() {
    assert_eq!(env_reference_of("${NAME}"), Some("NAME"));
    assert_eq!(env_reference_of("${}"), Some(""));
    assert_eq!(env_reference_of("${"), None);
    assert_eq!(env_reference_of("${NAME"), None);
    assert_eq!(env_reference_of("x${NAME}"), None);
    assert_eq!(env_reference_of(""), None);
    assert_eq!(env_reference_of("${A}}"), Some("A}"));
}

#[test]
fn lines_of_a_file_are_read_leniently() {
    let text = "# a comment\n; another\n\n   \n  registry  =  https://spaced.example/  \r\nno equals sign\nkey=a=b\n=empty-key\n";
    let config = NpmrcConfig::load(Some(text), None, &Vec::new());
    assert_eq!(config.registry_url(None), "https://spaced.example");
    assert_eq!(config.registry_url(Some("# a comment")), "https://spaced.example");

    let tokens = NpmrcConfig::load(
        Some("  _authToken = a=b \n;_authToken=commented\n#_authToken=commented\n"),
        None,
        &Vec::new(),
    );
    assert_eq!(tokens.auth_token("https://any.example").as_deref(), Some("a=b"));
}

#[test]
fn later_line_replaces_an_earlier_one() {
    let config = NpmrcConfig::load(Some("registry=https://one\nregistry=https://two\n"), None, &Vec::new());
    assert_eq!(config.registry_url(None), "https://two");
}

#[test]
fn environment_names_become_setting_keys() {
    assert_eq!(env_setting_key("NPM_CONFIG_REGISTRY").as_deref(), Some("registry"));
    assert_eq!(env_setting_key("npm_config_Always_Auth").as_deref(), Some("always-auth"));
    assert_eq!(env_setting_key("NPM_CONFIG_").as_deref(), Some(""));
    assert_eq!(env_setting_key("NPM_CONFIG"), None);
    assert_eq!(env_setting_key("Npm_Config_registry"), None);
    assert_eq!(env_setting_key("PATH"), None);
    assert_eq!(env_setting_key("XNPM_CONFIG_REGISTRY"), None);
}

#[test]
fn registry_addresses_lose_their_final_slashes() {
    assert_eq!(normalize_registry_url("https://r.example/"), "https://r.example");
    assert_eq!(normalize_registry_url("https://r.example///"), "https://r.example");
    assert_eq!(normalize_registry_url("https://r.example/path"), "https://r.example/path");
    assert_eq!(normalize_registry_url("///"), "");
    assert_eq!(normalize_registry_url(""), "");
}

#[test]
fn underscores_become_dashes() {
    assert_eq!(with_dashes("always_auth"), "always-auth");
    assert_eq!(with_dashes("__"), "--");
    assert_eq!(with_dashes("plain"), "plain");
    assert_eq!(with_dashes(""), "");
}
