use codex_proxy::config::{
    default_log_filter, env_flag, load_model_aliases, parse_alias_list, parse_port, Environment,
    Settings,
};

fn text(value: &str) -> Option<String> {
    Some(value.to_string())
}

fn empty() -> Environment {
    Environment {
        bind_addr: None,
        port: None,
        listen_addr: None,
        state_root: None,
        cursor_proxy_api_key: None,
        codex_cursor_proxy_api_key: None,
        upstream_url: None,
        upstream_identity_encoding: None,
        upstream_transport_tuning: None,
        log_full_body: None,
        is_debug: None,
        model_aliases: None,
    }
}

#[test]
fn settings_have_defaults() {
    let settings = Settings::from_env(empty());
    assert_eq!(settings.bind_addr, "0.0.0.0:3000");
    assert_eq!(settings.port, 3000);
    assert_eq!(settings.listen_addr, None);
    assert_eq!(settings.state_root, ".state");
    assert_eq!(settings.upstream_url, "https://chatgpt.com/backend-api/codex/responses");
    assert!(!settings.upstream_identity_encoding);
    assert!(!settings.tune_upstream_transport);
    assert_eq!(settings.static_api_key, None);
    assert!(!settings.log_full_body);
    assert_eq!(
        settings.model_aliases.get("gpt-5.3-codex-spark-preview").map(String::as_str),
        Some("gpt-5.3-codex-spark")
    );
}

#[test]
fn settings_follow_the_environment() {
    let mut environment = empty();
    environment.bind_addr = text("127.0.0.1");
    environment.port = text("8080");
    environment.listen_addr = text("[::1]:9");
    environment.state_root = text("/s");
    environment.codex_cursor_proxy_api_key = text("second");
    environment.upstream_url = text("");
    environment.upstream_identity_encoding = text(" 1 ");
    environment.upstream_transport_tuning = text("true");
    environment.is_debug = text("1");
    environment.model_aliases = text("a=b");
    let settings = Settings::from_env(environment);
    assert_eq!(settings.bind_addr, "127.0.0.1:8080");
    assert_eq!(settings.listen_addr.as_deref(), Some("[::1]:9"));
    assert_eq!(settings.state_root, "/s");
    assert_eq!(settings.static_api_key.as_deref(), Some("second"));
    assert_eq!(settings.upstream_url, "");
    assert!(settings.upstream_identity_encoding);
    assert!(!settings.tune_upstream_transport);
    assert!(settings.log_full_body);
    assert_eq!(settings.model_aliases.get("a").map(String::as_str), Some("b"));
    assert!(settings.model_aliases.get("gpt-5.3-codex-spark-preview").is_none());
}

#[test]
fn blank_key_disables_the_check() {
    let mut environment = empty();
    environment.cursor_proxy_api_key = text("  ");
    environment.codex_cursor_proxy_api_key = text("second");
    assert_eq!(Settings::from_env(environment).static_api_key, None);
}

#[test]
fn ports_are_whole_numbers() {
    assert_eq!(parse_port("0"), Some(0));
    assert_eq!(parse_port("65535"), Some(65535));
    assert_eq!(parse_port("+80"), Some(80));
    for wrong in ["65536", "-0", "-1", "", " 80", "8o", "99999999999999999999"] {
        assert_eq!(parse_port(wrong), None, "{wrong}");
    }
    let mut environment = empty();
    environment.port = text("x");
    assert_eq!(Settings::from_env(environment).bind_addr, "0.0.0.0:3000");
}

#[test]
fn alias_list_is_read_entry_by_entry() {
    let aliases = parse_alias_list(" a = b ,c=d=e,,=x,y=,a=z");
    assert_eq!(aliases.get("a").map(String::as_str), Some("z"));
    assert_eq!(aliases.get("c").map(String::as_str), Some("d=e"));
    assert!(aliases.get("y").is_none());
    assert!(aliases.get("").is_none());
    assert!(load_model_aliases(text("  ")).get("gpt-5.3-codex-spark-preview").is_some());
}

#[test]
fn flags_are_one() {
    assert!(env_flag(Some("1")));
    assert!(env_flag(Some("\t1\n")));
    assert!(!env_flag(Some("01")));
    assert!(!env_flag(None));
    assert_eq!(default_log_filter(Some("1")), "codex_proxy=debug,info");
    assert_eq!(default_log_filter(None), "codex_proxy=info,info");
}
