use hijuepapus_bot::config::{Config, ConfigError, Settings, Variable};
use hijuepapus_bot::text::NumberFault;

fn complete() -> Settings {
    Settings {
        discord_token: Some("t".into()),
        guild_id: Some("1".into()),
        admin_role_id: Some("2".into()),
        remover_role_id: None,
        notify_channel_id: Some("3".into()),
        docker_api_url: None,
        rcon_addr: None,
        rcon_password: Some("pw".into()),
        server_address: None,
    }
}

#[test]
fn unset_addresses_have_defaults() {
    let c = Config::from_settings(&complete()).unwrap();
    assert_eq!(c.docker_api_url, "http://socket-proxy:2375");
    assert_eq!(c.rcon_addr, "mc:25575");
    assert_eq!(c.server_address, "unknown");
    assert_eq!((c.guild_id, c.admin_role_id, c.notify_channel_id), (1, 2, 3));
    assert_eq!((c.discord_token, c.rcon_password), ("t".into(), "pw".into()));
}

#[test]
fn each_variable_is_missed_by_name() {
    let cases: Vec<(Settings, Variable)> = vec![
        (Settings { discord_token: None, ..complete() }, Variable::Token),
        (Settings { guild_id: None, ..complete() }, Variable::GuildId),
        (Settings { admin_role_id: None, ..complete() }, Variable::AdminRoleId),
        (Settings { notify_channel_id: None, ..complete() }, Variable::NotifyChannelId),
        (Settings { rcon_password: None, ..complete() }, Variable::RconPassword),
    ];
    for (settings, variable) in cases {
        let err = Config::from_settings(&settings).unwrap_err();
        assert_eq!(err, ConfigError::Missing(variable));
        assert_eq!(err.message(), format!("missing env var {}", variable.name()));
    }
}

#[test]
fn ids_must_be_numbers_of_64_bits() {
    for (bad, fault) in [
        ("x", NumberFault::InvalidDigit),
        ("", NumberFault::Empty),
        ("-1", NumberFault::InvalidDigit),
        ("1.5", NumberFault::InvalidDigit),
        ("18446744073709551616", NumberFault::TooLarge),
        (" 7", NumberFault::InvalidDigit),
    ] {
        let s = Settings { notify_channel_id: Some(bad.into()), ..complete() };
        let err = Config::from_settings(&s).unwrap_err();
        assert_eq!(err, ConfigError::NotAnId(Variable::NotifyChannelId, fault));
        let cause = bad.parse::<u64>().unwrap_err().to_string();
        assert_eq!(err.cause(), Some(cause.as_str()));
        assert_eq!(err.message(), "DISCORD_NOTIFY_CHANNEL_ID must be a numeric Discord id");
    }
    let s = Settings { guild_id: Some("18446744073709551615".into()), ..complete() };
    assert_eq!(Config::from_settings(&s).unwrap().guild_id, u64::MAX);
}

#[test]
fn a_blank_remover_role_is_no_role() {
    let with = |v: &str| {
        Config::from_settings(&Settings { remover_role_id: Some(v.into()), ..complete() })
            .map(|c| c.remover_role_id)
    };
    assert_eq!(with(""), Ok(None));
    assert_eq!(with(" \t"), Ok(None));
    assert_eq!(with("9"), Ok(Some(9)));
    assert_eq!(with(" 9"), Err(ConfigError::NotAnId(Variable::RemoverRoleId, NumberFault::InvalidDigit)));
}

#[test]
fn the_first_fault_in_order_is_reported() {
    let s = Settings {
        guild_id: Some("x".into()),
        admin_role_id: None,
        rcon_password: None,
        ..complete()
    };
    assert_eq!(
        Config::from_settings(&s).unwrap_err(),
        ConfigError::NotAnId(Variable::GuildId, NumberFault::InvalidDigit)
    );
    let s = Settings { remover_role_id: Some("x".into()), notify_channel_id: None, ..complete() };
    assert_eq!(
        Config::from_settings(&s).unwrap_err(),
        ConfigError::NotAnId(Variable::RemoverRoleId, NumberFault::InvalidDigit)
    );
}

#[test]
fn the_port_follows_the_last_colon() {
    let at = |addr: &str| {
        Config::from_settings(&Settings { rcon_addr: Some(addr.into()), ..complete() })
            .unwrap()
            .rcon_host_port()
    };
    assert_eq!(at("::1:65535"), Ok(("::1".to_string(), 65535)));
    assert_eq!(at(":0"), Ok(("".to_string(), 0)));
    assert_eq!(at("mc"), Err(ConfigError::NotHostPort));
    assert_eq!(at("mc:"), Err(ConfigError::BadPort(NumberFault::Empty)));
    assert_eq!(at("mc:65536"), Err(ConfigError::BadPort(NumberFault::TooLarge)));
    assert_eq!(at("mc:rcon"), Err(ConfigError::BadPort(NumberFault::InvalidDigit)));
    assert_eq!(ConfigError::NotHostPort.message(), "RCON_ADDR must be host:port");
    let bad = ConfigError::BadPort(NumberFault::TooLarge);
    assert_eq!(bad.message(), "RCON_ADDR port");
    assert_eq!(bad.cause(), Some("number too large to fit in target type"));
    assert_eq!(ConfigError::NotHostPort.cause(), None);
    assert_eq!(ConfigError::Missing(Variable::Token).cause(), None);
}
