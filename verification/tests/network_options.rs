use blink::network::{
    default_network_config, parse_allow_net, parse_network_mode, resolve_network_config,
    NetworkConfig, NetworkError, NetworkMode,
};
use blink::registries::{parse_image_registries, parse_registry_entry, RegistryError, RegistryTransport};

#[test]
fn parse_network_mode_values() {
    assert_eq!(parse_network_mode("enabled").unwrap(), NetworkMode::Enabled);
    assert_eq!(parse_network_mode("OFF").unwrap(), NetworkMode::Disabled);
    assert!(parse_network_mode("maybe").is_err());
}

#[test]
fn parse_allow_net_csv() {
    let list = parse_allow_net(" auth.kimi.com , npmjs.org ").unwrap();
    assert_eq!(list, vec!["auth.kimi.com", "npmjs.org"]);
}

#[test]
fn network_mode_accepts_every_spelling_with_whitespace() {
    for word in ["enabled", "1", "true", "on", " On ", "TRUE"] {
        assert_eq!(parse_network_mode(word).unwrap(), NetworkMode::Enabled);
    }
    for word in ["disabled", "0", "false", "off", "\tDisabled\n"] {
        assert_eq!(parse_network_mode(word).unwrap(), NetworkMode::Disabled);
    }
}

#[test]
fn invalid_network_mode_keeps_the_trimmed_text() {
    assert_eq!(
        parse_network_mode("  Maybe ").unwrap_err(),
        NetworkError::InvalidMode("Maybe".to_string())
    );
}

#[test]
fn allow_net_drops_empty_entries() {
    assert_eq!(parse_allow_net(",, a.com ,,b.org,").unwrap(), vec!["a.com", "b.org"]);
    assert!(parse_allow_net("").unwrap().is_empty());
    assert!(parse_allow_net(" , ").unwrap().is_empty());
}

#[test]
fn default_is_enabled_full_egress() {
    let c = default_network_config(None, None);
    assert_eq!(c.mode, NetworkMode::Enabled);
    assert!(c.allow_net.is_empty());
}

#[test]
fn default_config_reads_both_values() {
    let c = default_network_config(Some("off"), Some("x.io, y.io"));
    assert_eq!(c.mode, NetworkMode::Disabled);
    assert_eq!(c.allow_net, vec!["x.io", "y.io"]);
}

#[test]
fn default_config_ignores_an_invalid_mode() {
    let c = default_network_config(Some("sometimes"), None);
    assert_eq!(c.mode, NetworkMode::Enabled);
}

#[test]
fn request_overrides_default() {
    let request = NetworkConfig { mode: NetworkMode::Disabled, allow_net: Vec::new() };
    let default = default_network_config(None, None);
    let c = resolve_network_config(Some(request.clone()), default.clone());
    assert_eq!(c, request);
    assert_eq!(resolve_network_config(None, default.clone()), default);
}

#[test]
fn parse_http_registry() {
    let registries = parse_image_registries("localhost:5000@http").unwrap();
    assert_eq!(registries.len(), 1);
    assert_eq!(registries[0].host, "localhost:5000");
    assert_eq!(registries[0].transport, RegistryTransport::Http);
}

#[test]
fn parse_multiple_registries() {
    let registries =
        parse_image_registries("localhost:5000@http,ghcr.io/myorg@https+search").unwrap();
    assert_eq!(registries.len(), 2);
    assert!(registries[1].search);
}

#[test]
fn registry_defaults_to_https_without_modifiers() {
    let r = parse_registry_entry(" docker.io ").unwrap();
    assert_eq!(r.host, "docker.io");
    assert_eq!(r.transport, RegistryTransport::Https);
    assert!(!r.search);
    assert!(!r.skip_verify);
}

#[test]
fn registry_modifiers_apply_in_order() {
    let r = parse_registry_entry("reg.local @ http + skip_verify + https").unwrap();
    assert_eq!(r.host, "reg.local");
    assert_eq!(r.transport, RegistryTransport::Https);
    assert!(r.skip_verify);
    assert!(!r.search);
}

#[test]
fn registry_with_empty_host_is_refused() {
    assert_eq!(
        parse_registry_entry("@http").unwrap_err(),
        RegistryError::EmptyHost { entry: "@http".to_string() }
    );
}

#[test]
fn registry_with_unknown_modifier_is_refused() {
    assert_eq!(
        parse_registry_entry("r.io@http+fast").unwrap_err(),
        RegistryError::UnknownModifier { modifier: "fast".to_string(), entry: "r.io@http+fast".to_string() }
    );
    assert!(parse_image_registries("a.io, b.io@bogus").is_err());
}

#[test]
fn registry_list_skips_blank_entries() {
    let registries = parse_image_registries(" , a.io ,, b.io@search ").unwrap();
    assert_eq!(registries.len(), 2);
    assert_eq!(registries[0].host, "a.io");
    assert_eq!(registries[1].host, "b.io");
    assert!(registries[1].search);
    assert!(parse_image_registries("").unwrap().is_empty());
}

#[test]
fn allowlist_hosts() {
    let request = NetworkConfig {
        mode: NetworkMode::Enabled,
        allow_net: vec!["auth.kimi.com".into(), "api.moonshot.cn".into()],
    };
    let c = resolve_network_config(Some(request), default_network_config(None, None));
    assert_eq!(c.mode, NetworkMode::Enabled);
    assert_eq!(c.allow_net, vec!["auth.kimi.com", "api.moonshot.cn"]);
}

#[test]
fn allow_list_reparses_to_itself() {
    let list = parse_allow_net(" a.io ,, b.org , ").unwrap();
    for host in &list {
        assert!(!host.is_empty() && host.trim() == host && !host.contains(','));
    }
    assert_eq!(parse_allow_net(&list.join(",")).unwrap(), list);
}
