use hijuepapus_bot::config::Config;

use std::collections::HashMap;

fn env<'a>(pairs: &'a [(&'a str, &'a str)]) -> impl Fn(&str) -> Option<String> + 'a {
    let m: HashMap<&str, &str> = pairs.iter().copied().collect();
    move |k| m.get(k).map(|v| v.to_string())
}

#[test]
fn parses_complete_env() {
    let cfg = Config::from_lookup(env(&[
        ("DISCORD_TOKEN", "t"),
        ("DISCORD_GUILD_ID", "123"),
        ("DISCORD_ADMIN_ROLE_ID", "456"),
        ("DISCORD_NOTIFY_CHANNEL_ID", "789"),
        ("DOCKER_API_URL", "http://socket-proxy:2375"),
        ("RCON_ADDR", "mc:25575"),
        ("SERVER_ADDRESS", "mc.hijuepapus.pro"),
        ("RCON_PASSWORD", "pw"),
    ]))
    .unwrap();
    assert_eq!(cfg.guild_id, 123);
    assert_eq!(cfg.rcon_host_port().unwrap(), ("mc".to_string(), 25575));
}

#[test]
fn missing_var_is_a_named_error() {
    let err = Config::from_lookup(env(&[])).unwrap_err();
    assert!(err.message().contains("DISCORD_TOKEN"));
}

#[test]
fn bad_id_is_a_named_error() {
    let err = Config::from_lookup(env(&[
        ("DISCORD_TOKEN", "t"),
        ("DISCORD_GUILD_ID", "notanumber"),
    ]))
    .unwrap_err();
    assert!(err.message().contains("DISCORD_GUILD_ID"));
}

#[test]
fn remover_role_id_is_none_when_absent() {
    let cfg = Config::from_lookup(env(&[
        ("DISCORD_TOKEN", "t"),
        ("DISCORD_GUILD_ID", "123"),
        ("DISCORD_ADMIN_ROLE_ID", "456"),
        ("DISCORD_NOTIFY_CHANNEL_ID", "789"),
        ("RCON_PASSWORD", "pw"),
    ]))
    .unwrap();
    assert_eq!(cfg.remover_role_id, None);
}

#[test]
fn remover_role_id_parses_when_present() {
    let cfg = Config::from_lookup(env(&[
        ("DISCORD_TOKEN", "t"),
        ("DISCORD_GUILD_ID", "123"),
        ("DISCORD_ADMIN_ROLE_ID", "456"),
        ("DISCORD_NOTIFY_CHANNEL_ID", "789"),
        ("RCON_PASSWORD", "pw"),
        ("DISCORD_REMOVER_ROLE_ID", "999"),
    ]))
    .unwrap();
    assert_eq!(cfg.remover_role_id, Some(999));
}

#[test]
fn remover_role_id_bad_value_is_a_named_error() {
    let err = Config::from_lookup(env(&[
        ("DISCORD_TOKEN", "t"),
        ("DISCORD_GUILD_ID", "123"),
        ("DISCORD_ADMIN_ROLE_ID", "456"),
        ("DISCORD_NOTIFY_CHANNEL_ID", "789"),
        ("RCON_PASSWORD", "pw"),
        ("DISCORD_REMOVER_ROLE_ID", "notanumber"),
    ]))
    .unwrap_err();
    assert!(err.message().contains("DISCORD_REMOVER_ROLE_ID"));
}
