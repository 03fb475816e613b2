use compass::config::{identifier_ok, AppConfig, ConfigError, ConfigVars};

fn s(v: &str) -> Option<String> {
    Some(v.to_string())
}

fn vars() -> ConfigVars {
    ConfigVars {
        compass_bind: None,
        arc_rpc_url: s("https://arc.example"),
        arc_usdc_address: s("0x1111111111111111111111111111111111111111"),
        arc_factory_address: s("0x2222222222222222222222222222222222222222"),
        arc_entry_point: s("0x3333333333333333333333333333333333333333"),
        arbitrum_sepolia_rpc_url: s("https://arb.example"),
        arbitrum_sepolia_aave_pool: s("0x4444444444444444444444444444444444444444"),
        arbitrum_sepolia_aave_usdc: s("0x5555555555555555555555555555555555555555"),
        arbitrum_sepolia_usdc: None,
        arbitrum_sepolia_factory_address: s("0x6666666666666666666666666666666666666666"),
        arbitrum_sepolia_entry_point: s("0x7777777777777777777777777777777777777777"),
        arbitrum_sepolia_paymaster: s("   "),
        arc_paymaster: s("0x8888888888888888888888888888888888888888"),
        compass_user_pk: s("0xuser"),
        compass_agent_pk: s("0xagent"),
        gateway_api_url: s("https://gateway.example"),
        gateway_api_key: None,
        gateway_wallet_address: s("0x9999999999999999999999999999999999999999"),
        gateway_minter_address: s("0xaaaaaaaaaaaaaaaaaaaaaaaaaaaaaaaaaaaaaaaa"),
        compass_upgrade_authority: s("0xbbbbbbbbbbbbbbbbbbbbbbbbbbbbbbbbbbbbbbbb"),
        anthropic_api_key: None,
        anthropic_model: None,
        compass_automation_cron_interval_secs: s("120"),
        compass_automation_snapshot_interval_secs: s("soon"),
        database_url: s(""),
        compass_db_schema: None,
        enable_debug_api: s(" yes "),
        compass_disable_automation: s("no"),
    }
}

#[test]
fn defaults_and_readings() {
    let c = AppConfig::from_vars(&vars()).ok().unwrap();
    assert_eq!(c.bind, "0.0.0.0:8787");
    assert_eq!(c.arbitrum_sepolia_usdc, "0x75faf114eafb1BDbe2F0316DF893fd58CE46AA4d");
    assert_eq!(c.arbitrum_sepolia_paymaster, None);
    assert_eq!(c.arc_paymaster.as_deref(), Some("0x8888888888888888888888888888888888888888"));
    assert_eq!(c.gateway_api_key, "");
    assert_eq!(c.anthropic_model, None);
    assert_eq!(c.automation_cron_interval_secs, 120);
    assert_eq!(c.automation_snapshot_interval_secs, 60);
    assert_eq!(c.database_url, None);
    assert_eq!(c.db_schema, "public");
    assert!(c.enable_debug_api);
    assert!(!c.disable_automation);
    assert_eq!(c.user_pk, "0xuser");
}

#[test]
fn first_missing_variable_is_named() {
    let mut v = vars();
    v.arbitrum_sepolia_rpc_url = None;
    v.gateway_api_url = None;
    match AppConfig::from_vars(&v) {
        Err(ConfigError::MissingVar { name }) => assert_eq!(name, "ARBITRUM_SEPOLIA_RPC_URL"),
        other => panic!("expected a missing variable, got {other:?}"),
    }
}

#[test]
fn schema_must_be_an_identifier() {
    let mut v = vars();
    v.compass_db_schema = s("9lives");
    match AppConfig::from_vars(&v) {
        Err(ConfigError::BadSchema { schema }) => assert_eq!(schema, "9lives"),
        other => panic!("expected a bad schema, got {other:?}"),
    }
    v.compass_db_schema = s("tenant_7");
    assert_eq!(AppConfig::from_vars(&v).ok().unwrap().db_schema, "tenant_7");
    assert!(identifier_ok("_a1"));
    assert!(!identifier_ok("a-b"));
    assert!(!identifier_ok("1a"));
}

#[test]
fn addresses_checked_in_order() {
    let mut v = vars();
    v.arc_entry_point = s("  ");
    v.gateway_minter_address = s("0x12");
    match AppConfig::from_vars(&v) {
        Err(ConfigError::EmptyAddress { name }) => assert_eq!(name, "ARC_ENTRY_POINT"),
        other => panic!("expected an empty address, got {other:?}"),
    }
    v.arc_entry_point = s("0x3333333333333333333333333333333333333333");
    match AppConfig::from_vars(&v) {
        Err(ConfigError::BadAddress { name, value }) => {
            assert_eq!(name, "GATEWAY_MINTER_ADDRESS");
            assert_eq!(value, "0x12");
        }
        other => panic!("expected a bad address, got {other:?}"),
    }
}

#[test]
fn switches_and_intervals() {
    for on in ["1", "true", "TRUE", " on", "yes"] {
        let mut v = vars();
        v.compass_disable_automation = s(on);
        assert!(AppConfig::from_vars(&v).ok().unwrap().disable_automation);
    }
    for off in ["True", "y", "0", ""] {
        let mut v = vars();
        v.compass_disable_automation = s(off);
        assert!(!AppConfig::from_vars(&v).ok().unwrap().disable_automation);
    }
    let mut v = vars();
    v.compass_automation_cron_interval_secs = s("+30");
    assert_eq!(AppConfig::from_vars(&v).ok().unwrap().automation_cron_interval_secs, 30);
    v.compass_automation_cron_interval_secs = s("-30");
    assert_eq!(AppConfig::from_vars(&v).ok().unwrap().automation_cron_interval_secs, 900);
}
