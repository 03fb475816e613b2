//! The service's settings, read from the values of its environment
//! variables: which are required, the defaults of the others, and the
//! checks on addresses and on the database schema name.
use vstd::prelude::*;

use crate::outside::{address_from_str, parse_address};
use crate::text::{parse_u64, str_eq, trim, trimmed, u64_parsed};

verus! {

/// The raw values of the service's environment variables; `None` where a
/// variable is unset (or not valid Unicode).
#[derive(Debug)]
pub struct ConfigVars {
    pub compass_bind: Option<String>,
    pub arc_rpc_url: Option<String>,
    pub arc_usdc_address: Option<String>,
    pub arc_factory_address: Option<String>,
    pub arc_entry_point: Option<String>,
    pub arbitrum_sepolia_rpc_url: Option<String>,
    pub arbitrum_sepolia_aave_pool: Option<String>,
    pub arbitrum_sepolia_aave_usdc: Option<String>,
    pub arbitrum_sepolia_usdc: Option<String>,
    pub arbitrum_sepolia_factory_address: Option<String>,
    pub arbitrum_sepolia_entry_point: Option<String>,
    pub arbitrum_sepolia_paymaster: Option<String>,
    pub arc_paymaster: Option<String>,
    pub compass_user_pk: Option<String>,
    pub compass_agent_pk: Option<String>,
    pub gateway_api_url: Option<String>,
    pub gateway_api_key: Option<String>,
    pub gateway_wallet_address: Option<String>,
    pub gateway_minter_address: Option<String>,
    pub compass_upgrade_authority: Option<String>,
    pub anthropic_api_key: Option<String>,
    pub anthropic_model: Option<String>,
    pub compass_automation_cron_interval_secs: Option<String>,
    pub compass_automation_snapshot_interval_secs: Option<String>,
    pub database_url: Option<String>,
    pub compass_db_schema: Option<String>,
    pub enable_debug_api: Option<String>,
    pub compass_disable_automation: Option<String>,
}

/// The service's settings.
#[derive(Debug)]
pub struct AppConfig {
    pub bind: String,
    pub arc_rpc_url: String,
    pub arc_usdc: String,
    pub arc_factory: String,
    pub arc_entry_point: String,
    pub arbitrum_sepolia_rpc_url: String,
    pub arbitrum_sepolia_aave_pool: String,
    pub arbitrum_sepolia_aave_usdc: String,
    pub arbitrum_sepolia_usdc: String,
    pub arbitrum_sepolia_factory: String,
    pub arbitrum_sepolia_entry_point: String,
    pub arbitrum_sepolia_paymaster: Option<String>,
    pub arc_paymaster: Option<String>,
    pub user_pk: String,
    pub agent_pk: String,
    pub gateway_api_url: String,
    pub gateway_api_key: String,
    pub gateway_wallet: String,
    pub gateway_minter: String,
    pub compass_upgrade_authority: String,
    pub anthropic_api_key: String,
    /// The model the chat agent asks for; unset, the agent's own default.
    pub anthropic_model: Option<String>,
    pub automation_cron_interval_secs: u64,
    pub automation_snapshot_interval_secs: u64,
    pub database_url: Option<String>,
    pub db_schema: String,
    pub enable_debug_api: bool,
    pub disable_automation: bool,
}

/// Why the settings were refused.
#[derive(Debug)]
pub enum ConfigError {
    /// A required variable is unset.
    MissingVar { name: &'static str },
    /// The schema name is not an SQL identifier `[A-Za-z_][A-Za-z0-9_]*`.
    BadSchema { schema: String },
    /// An address setting is blank.
    EmptyAddress { name: &'static str },
    /// An address setting is not `0x` and 40 hexadecimal digits.
    BadAddress { name: &'static str, value: String },
}

/// The required variables, in the order they are checked.
pub open spec fn required_names() -> Seq<Seq<char>> {
    seq![
        "ARC_RPC_URL"@,
        "ARC_USDC_ADDRESS"@,
        "ARC_FACTORY_ADDRESS"@,
        "ARC_ENTRY_POINT"@,
        "ARBITRUM_SEPOLIA_RPC_URL"@,
        "ARBITRUM_SEPOLIA_AAVE_POOL"@,
        "ARBITRUM_SEPOLIA_AAVE_USDC"@,
        "ARBITRUM_SEPOLIA_FACTORY_ADDRESS"@,
        "ARBITRUM_SEPOLIA_ENTRY_POINT"@,
        "COMPASS_USER_PK"@,
        "COMPASS_AGENT_PK"@,
        "GATEWAY_API_URL"@,
        "GATEWAY_WALLET_ADDRESS"@,
        "GATEWAY_MINTER_ADDRESS"@,
        "COMPASS_UPGRADE_AUTHORITY"@,
    ]
}

/// The values of the required variables, in the same order.
pub open spec fn required_values(v: ConfigVars) -> Seq<Option<String>> {
    seq![
        v.arc_rpc_url,
        v.arc_usdc_address,
        v.arc_factory_address,
        v.arc_entry_point,
        v.arbitrum_sepolia_rpc_url,
        v.arbitrum_sepolia_aave_pool,
        v.arbitrum_sepolia_aave_usdc,
        v.arbitrum_sepolia_factory_address,
        v.arbitrum_sepolia_entry_point,
        v.compass_user_pk,
        v.compass_agent_pk,
        v.gateway_api_url,
        v.gateway_wallet_address,
        v.gateway_minter_address,
        v.compass_upgrade_authority,
    ]
}

/// The `k`-th required variable is the first that is unset.
pub open spec fn first_missing(v: ConfigVars, k: int) -> bool {
    &&& 0 <= k < 15
    &&& required_values(v)[k] is None
    &&& forall|j: int| 0 <= j < k ==> required_values(v)[j] is Some
}

/// The text of a variable, or `default` where it is unset.
pub open spec fn text_or(v: Option<String>, default: Seq<char>) -> Seq<char> {
    match v {
        Some(s) => s@,
        None => default,
    }
}

/// A variable that is set and not blank.
pub open spec fn non_blank(v: Option<String>) -> Option<String> {
    match v {
        Some(s) => if trimmed(s@).len() > 0 {
            Some(s)
        } else {
            None
        },
        None => None,
    }
}

/// A number of seconds: the variable read as a `u64`, or `default` where it
/// is unset or not such a number.
pub open spec fn seconds_or(v: Option<String>, default: u64) -> u64 {
    match v {
        Some(s) => match u64_parsed(s@) {
            Some(n) => n,
            None => default,
        },
        None => default,
    }
}

/// A switch: on where the trimmed variable is `1`, `true`, `TRUE`, `yes`
/// or `on`.
pub open spec fn switch_on(v: Option<String>) -> bool {
    match v {
        Some(s) => {
            let t = trimmed(s@);
            t == "1"@ || t == "true"@ || t == "TRUE"@ || t == "yes"@ || t == "on"@
        },
        None => false,
    }
}

pub open spec fn is_ascii_digit(c: char) -> bool {
    '0' <= c <= '9'
}

pub open spec fn is_identifier_char(c: char) -> bool {
    is_ascii_digit(c) || 'a' <= c <= 'z' || 'A' <= c <= 'Z' || c == '_'
}

/// An SQL identifier: letters, digits and `_`, not starting with a digit.
pub open spec fn is_identifier(s: Seq<char>) -> bool {
    &&& forall|i: int| 0 <= i < s.len() ==> is_identifier_char(#[trigger] s[i])
    &&& s.len() > 0 ==> !is_ascii_digit(s[0])
}

/// The schema the settings name: the variable where it is not blank, else
/// `public`.
pub open spec fn schema_of(v: ConfigVars) -> Seq<char> {
    match non_blank(v.compass_db_schema) {
        Some(s) => s@,
        None => "public"@,
    }
}

/// The address settings with their variable names, in the order they are
/// checked.
pub open spec fn address_settings(c: AppConfig) -> Seq<(Seq<char>, Seq<char>)> {
    seq![
        ("ARC_USDC_ADDRESS"@, c.arc_usdc@),
        ("ARC_FACTORY_ADDRESS"@, c.arc_factory@),
        ("ARC_ENTRY_POINT"@, c.arc_entry_point@),
        ("ARBITRUM_SEPOLIA_AAVE_POOL"@, c.arbitrum_sepolia_aave_pool@),
        ("ARBITRUM_SEPOLIA_AAVE_USDC"@, c.arbitrum_sepolia_aave_usdc@),
        ("ARBITRUM_SEPOLIA_USDC"@, c.arbitrum_sepolia_usdc@),
        ("ARBITRUM_SEPOLIA_FACTORY_ADDRESS"@, c.arbitrum_sepolia_factory@),
        ("ARBITRUM_SEPOLIA_ENTRY_POINT"@, c.arbitrum_sepolia_entry_point@),
        ("GATEWAY_WALLET_ADDRESS"@, c.gateway_wallet@),
        ("GATEWAY_MINTER_ADDRESS"@, c.gateway_minter@),
        ("COMPASS_UPGRADE_AUTHORITY"@, c.compass_upgrade_authority@),
    ]
}

/// An address setting passes: not blank, and read by `Address::from_str`.
#[verifier::opaque]
pub open spec fn address_ok(value: Seq<char>) -> bool {
    trimmed(value).len() > 0 && address_from_str(value) is Some
}

/// The `k`-th of the named settings is the first that fails its check.
pub open spec fn first_bad_address(s: Seq<(Seq<char>, Seq<char>)>, k: int) -> bool {
    &&& 0 <= k < s.len()
    &&& !address_ok(s[k].1)
    &&& forall|j: int| 0 <= j < k ==> address_ok(#[trigger] s[j].1)
}

/// Every one of the named settings passes its check.
pub open spec fn all_addresses_ok(s: Seq<(Seq<char>, Seq<char>)>) -> bool {
    forall|j: int| 0 <= j < s.len() ==> address_ok(#[trigger] s[j].1)
}

/// The address settings that the variables give, named as in
/// [`address_settings`], where every required variable is set.
pub open spec fn address_settings_of_vars(v: ConfigVars) -> Seq<(Seq<char>, Seq<char>)> {
    seq![
        ("ARC_USDC_ADDRESS"@, text_or(v.arc_usdc_address, Seq::empty())),
        ("ARC_FACTORY_ADDRESS"@, text_or(v.arc_factory_address, Seq::empty())),
        ("ARC_ENTRY_POINT"@, text_or(v.arc_entry_point, Seq::empty())),
        ("ARBITRUM_SEPOLIA_AAVE_POOL"@, text_or(v.arbitrum_sepolia_aave_pool, Seq::empty())),
        ("ARBITRUM_SEPOLIA_AAVE_USDC"@, text_or(v.arbitrum_sepolia_aave_usdc, Seq::empty())),
        ("ARBITRUM_SEPOLIA_USDC"@, text_or(
            v.arbitrum_sepolia_usdc,
            "0x75faf114eafb1BDbe2F0316DF893fd58CE46AA4d"@,
        )),
        ("ARBITRUM_SEPOLIA_FACTORY_ADDRESS"@, text_or(
            v.arbitrum_sepolia_factory_address,
            Seq::empty(),
        )),
        ("ARBITRUM_SEPOLIA_ENTRY_POINT"@, text_or(v.arbitrum_sepolia_entry_point, Seq::empty())),
        ("GATEWAY_WALLET_ADDRESS"@, text_or(v.gateway_wallet_address, Seq::empty())),
        ("GATEWAY_MINTER_ADDRESS"@, text_or(v.gateway_minter_address, Seq::empty())),
        ("COMPASS_UPGRADE_AUTHORITY"@, text_or(v.compass_upgrade_authority, Seq::empty())),
    ]
}

/// The settings drawn from the variables alone, before any check: each
/// field is the variable, its default or its reading.
pub open spec fn config_drawn_from(c: AppConfig, v: ConfigVars) -> bool {
    &&& c.bind@ == text_or(v.compass_bind, "0.0.0.0:8787"@)
    &&& Some(c.arc_rpc_url) == v.arc_rpc_url
    &&& Some(c.arc_usdc) == v.arc_usdc_address
    &&& Some(c.arc_factory) == v.arc_factory_address
    &&& Some(c.arc_entry_point) == v.arc_entry_point
    &&& Some(c.arbitrum_sepolia_rpc_url) == v.arbitrum_sepolia_rpc_url
    &&& Some(c.arbitrum_sepolia_aave_pool) == v.arbitrum_sepolia_aave_pool
    &&& Some(c.arbitrum_sepolia_aave_usdc) == v.arbitrum_sepolia_aave_usdc
    &&& c.arbitrum_sepolia_usdc@ == text_or(
        v.arbitrum_sepolia_usdc,
        "0x75faf114eafb1BDbe2F0316DF893fd58CE46AA4d"@,
    )
    &&& Some(c.arbitrum_sepolia_factory) == v.arbitrum_sepolia_factory_address
    &&& Some(c.arbitrum_sepolia_entry_point) == v.arbitrum_sepolia_entry_point
    &&& c.arbitrum_sepolia_paymaster == non_blank(v.arbitrum_sepolia_paymaster)
    &&& c.arc_paymaster == non_blank(v.arc_paymaster)
    &&& Some(c.user_pk) == v.compass_user_pk
    &&& Some(c.agent_pk) == v.compass_agent_pk
    &&& Some(c.gateway_api_url) == v.gateway_api_url
    &&& c.gateway_api_key@ == text_or(v.gateway_api_key, Seq::empty())
    &&& Some(c.gateway_wallet) == v.gateway_wallet_address
    &&& Some(c.gateway_minter) == v.gateway_minter_address
    &&& Some(c.compass_upgrade_authority) == v.compass_upgrade_authority
    &&& c.anthropic_api_key@ == text_or(v.anthropic_api_key, Seq::empty())
    &&& c.anthropic_model == v.anthropic_model
    &&& c.automation_cron_interval_secs == seconds_or(v.compass_automation_cron_interval_secs, 900)
    &&& c.automation_snapshot_interval_secs == seconds_or(
        v.compass_automation_snapshot_interval_secs,
        60,
    )
    &&& c.database_url == (match v.database_url {
        Some(s) => if s@.len() > 0 {
            Some(s)
        } else {
            None
        },
        None => None,
    })
    &&& c.db_schema@ == schema_of(v)
    &&& c.enable_debug_api == switch_on(v.enable_debug_api)
    &&& c.disable_automation == switch_on(v.compass_disable_automation)
}

fn text_or_default(v: &Option<String>, default: &str) -> (r: String)
    ensures
        r@ == text_or(*v, default@),
{
    match v {
        Some(s) => s.clone(),
        None => String::from_str(default),
    }
}

fn non_blank_of(v: &Option<String>) -> (r: Option<String>)
    ensures
        r == non_blank(*v),
{
    match v {
        Some(s) => if trim(s.as_str()).unicode_len() > 0 {
            Some(s.clone())
        } else {
            None
        },
        None => None,
    }
}

fn seconds_or_default(v: &Option<String>, default: u64) -> (r: u64)
    ensures
        r == seconds_or(*v, default),
{
    match v {
        Some(s) => match parse_u64(s.as_str()) {
            Some(n) => n,
            None => default,
        },
        None => default,
    }
}

fn switch_of(v: &Option<String>) -> (r: bool)
    ensures
        r == switch_on(*v),
{
    match v {
        Some(s) => {
            let t = trim(s.as_str());
            str_eq(t, "1") || str_eq(t, "true") || str_eq(t, "TRUE") || str_eq(t, "yes") || str_eq(
                t,
                "on",
            )
        },
        None => false,
    }
}

/// Whether `s` is an SQL identifier `[A-Za-z_][A-Za-z0-9_]*` (the empty
/// text passes).
pub fn identifier_ok(s: &str) -> (r: bool)
    ensures
        r == is_identifier(s@),
{
    let n = s.unicode_len();
    let mut i: usize = 0;
    while i < n
        invariant
            n == s@.len(),
            i <= n,
            forall|j: int| 0 <= j < i ==> is_identifier_char(#[trigger] s@[j]),
        decreases n - i,
    {
        let c = s.get_char(i);
        if !(('0' <= c && c <= '9') || ('a' <= c && c <= 'z') || ('A' <= c && c <= 'Z') || c
            == '_') {
            return false;
        }
        i = i + 1;
    }
    if n > 0 {
        let c = s.get_char(0);
        if '0' <= c && c <= '9' {
            return false;
        }
    }
    true
}

fn copy_setting(v: &Option<String>) -> (r: Option<String>)
    ensures
        r == *v,
{
    match v {
        Some(s) => Some(s.clone()),
        None => None,
    }
}

fn present(v: &Option<String>) -> (r: String)
    requires
        v is Some,
    ensures
        Some(r) == *v,
{
    match v {
        Some(s) => s.clone(),
        None => String::new(),
    }
}

/// The index of the first unset variable among `vals`, or `vals.len()`
/// when all are set.
fn first_unset(vals: &Vec<&Option<String>>) -> (r: usize)
    ensures
        r <= vals@.len(),
        forall|j: int| 0 <= j < r ==> (#[trigger] vals@[j]) is Some,
        r < vals@.len() ==> vals@[r as int] is None,
{
    let mut i: usize = 0;
    while i < vals.len()
        invariant
            i <= vals@.len(),
            forall|j: int| 0 <= j < i ==> (#[trigger] vals@[j]) is Some,
        decreases vals@.len() - i,
    {
        if vals[i].is_none() {
            return i;
        }
        i = i + 1;
    }
    i
}

/// The index of the first of the named settings that fails its check, with
/// the refusal, or `None` when all pass.
fn first_refused(names: &Vec<&'static str>, values: &Vec<&String>) -> (r: Option<(usize, ConfigError)>)
    requires
        names@.len() == values@.len(),
    ensures
        r is None ==> forall|j: int| 0 <= j < values@.len() ==> address_ok((#[trigger] values@[j])@),
        r matches Some((k, e)) ==> k < values@.len() && !address_ok(values@[k as int]@) && (forall|
            j: int,
        | 0 <= j < k ==> address_ok((#[trigger] values@[j])@)) && (if trimmed(values@[k as int]@).len()
            == 0 {
            e matches ConfigError::EmptyAddress { name } && name == names@[k as int]
        } else {
            e matches ConfigError::BadAddress { name, value } && name == names@[k as int] && value@
                == values@[k as int]@
        }),
{
    let mut i: usize = 0;
    while i < names.len()
        invariant
            names@.len() == values@.len(),
            i <= names@.len(),
            forall|j: int| 0 <= j < i ==> address_ok((#[trigger] values@[j])@),
        decreases names@.len() - i,
    {
        let name = names[i];
        let value = values[i];
        if trim(value.as_str()).unicode_len() == 0 {
            proof {
                reveal(address_ok);
            }
            return Some((i, ConfigError::EmptyAddress { name }));
        }
        if parse_address(value.as_str()).is_none() {
            proof {
                reveal(address_ok);
            }
            return Some((i, ConfigError::BadAddress { name, value: value.clone() }));
        }
        proof {
            reveal(address_ok);
        }
        i = i + 1;
    }
    None
}

/// Every required variable is set.
pub open spec fn all_required_set(v: ConfigVars) -> bool {
    &&& v.arc_rpc_url is Some
    &&& v.arc_usdc_address is Some
    &&& v.arc_factory_address is Some
    &&& v.arc_entry_point is Some
    &&& v.arbitrum_sepolia_rpc_url is Some
    &&& v.arbitrum_sepolia_aave_pool is Some
    &&& v.arbitrum_sepolia_aave_usdc is Some
    &&& v.arbitrum_sepolia_factory_address is Some
    &&& v.arbitrum_sepolia_entry_point is Some
    &&& v.compass_user_pk is Some
    &&& v.compass_agent_pk is Some
    &&& v.gateway_api_url is Some
    &&& v.gateway_wallet_address is Some
    &&& v.gateway_minter_address is Some
    &&& v.compass_upgrade_authority is Some
}

proof fn lemma_all_required_set(v: ConfigVars)
    ensures
        all_required_set(v) <==> forall|k: int| !first_missing(v, k),
{
    if all_required_set(v) {
        assert forall|k: int| !first_missing(v, k) by {
        }
    } else {
        let vals = required_values(v);
        if vals[0] is None {
            assert(first_missing(v, 0));
        } else if vals[1] is None {
            assert(first_missing(v, 1));
        } else if vals[2] is None {
            assert(first_missing(v, 2));
        } else if vals[3] is None {
            assert(first_missing(v, 3));
        } else if vals[4] is None {
            assert(first_missing(v, 4));
        } else if vals[5] is None {
            assert(first_missing(v, 5));
        } else if vals[6] is None {
            assert(first_missing(v, 6));
        } else if vals[7] is None {
            assert(first_missing(v, 7));
        } else if vals[8] is None {
            assert(first_missing(v, 8));
        } else if vals[9] is None {
            assert(first_missing(v, 9));
        } else if vals[10] is None {
            assert(first_missing(v, 10));
        } else if vals[11] is None {
            assert(first_missing(v, 11));
        } else if vals[12] is None {
            assert(first_missing(v, 12));
        } else if vals[13] is None {
            assert(first_missing(v, 13));
        } else {
            assert(first_missing(v, 14));
        }
    }
}

/// The settings the variables give, with the schema already chosen.
fn draw_settings(v: &ConfigVars, db_schema: String) -> (c: AppConfig)
    requires
        all_required_set(*v),
        db_schema@ == schema_of(*v),
    ensures
        config_drawn_from(c, *v),
{
    proof {
        reveal_strlit("");
    }
    let database_url = match &v.database_url {
        Some(s) => if s.as_str().unicode_len() > 0 {
            Some(s.clone())
        } else {
            None
        },
        None => None,
    };
    let c = AppConfig {
        bind: text_or_default(&v.compass_bind, "0.0.0.0:8787"),
        arc_rpc_url: present(&v.arc_rpc_url),
        arc_usdc: present(&v.arc_usdc_address),
        arc_factory: present(&v.arc_factory_address),
        arc_entry_point: present(&v.arc_entry_point),
        arbitrum_sepolia_rpc_url: present(&v.arbitrum_sepolia_rpc_url),
        arbitrum_sepolia_aave_pool: present(&v.arbitrum_sepolia_aave_pool),
        arbitrum_sepolia_aave_usdc: present(&v.arbitrum_sepolia_aave_usdc),
        arbitrum_sepolia_usdc: text_or_default(
            &v.arbitrum_sepolia_usdc,
            "0x75faf114eafb1BDbe2F0316DF893fd58CE46AA4d",
        ),
        arbitrum_sepolia_factory: present(&v.arbitrum_sepolia_factory_address),
        arbitrum_sepolia_entry_point: present(&v.arbitrum_sepolia_entry_point),
        arbitrum_sepolia_paymaster: non_blank_of(&v.arbitrum_sepolia_paymaster),
        arc_paymaster: non_blank_of(&v.arc_paymaster),
        user_pk: present(&v.compass_user_pk),
        agent_pk: present(&v.compass_agent_pk),
        gateway_api_url: present(&v.gateway_api_url),
        gateway_api_key: text_or_default(&v.gateway_api_key, ""),
        gateway_wallet: present(&v.gateway_wallet_address),
        gateway_minter: present(&v.gateway_minter_address),
        compass_upgrade_authority: present(&v.compass_upgrade_authority),
        anthropic_api_key: text_or_default(&v.anthropic_api_key, ""),
        anthropic_model: copy_setting(&v.anthropic_model),
        automation_cron_interval_secs: seconds_or_default(
            &v.compass_automation_cron_interval_secs,
            900,
        ),
        automation_snapshot_interval_secs: seconds_or_default(
            &v.compass_automation_snapshot_interval_secs,
            60,
        ),
        database_url,
        db_schema,
        enable_debug_api: switch_of(&v.enable_debug_api),
        disable_automation: switch_of(&v.compass_disable_automation),
    };
    assert(c.bind@ == text_or(v.compass_bind, "0.0.0.0:8787"@));
    assert(Some(c.arc_rpc_url) == v.arc_rpc_url);
    assert(c.gateway_api_key@ == text_or(v.gateway_api_key, Seq::empty()));
    assert(c.database_url == (match v.database_url {
        Some(s) => if s@.len() > 0 {
            Some(s)
        } else {
            None
        },
        None => None,
    }));
    assert(c.db_schema@ == schema_of(*v));
    assert(c.enable_debug_api == switch_on(v.enable_debug_api));
    assert(c.arbitrum_sepolia_paymaster == non_blank(v.arbitrum_sepolia_paymaster));
    assert(c.arbitrum_sepolia_usdc@ == text_or(
        v.arbitrum_sepolia_usdc,
        "0x75faf114eafb1BDbe2F0316DF893fd58CE46AA4d"@,
    ));
    assert(c.anthropic_model == v.anthropic_model);
    assert(c.automation_cron_interval_secs == seconds_or(v.compass_automation_cron_interval_secs, 900));
    assert(Some(c.compass_upgrade_authority) == v.compass_upgrade_authority);
    assert(c.arc_paymaster == non_blank(v.arc_paymaster));
    assert(c.anthropic_api_key@ == text_or(v.anthropic_api_key, Seq::empty()));
    assert(c.automation_snapshot_interval_secs == seconds_or(
        v.compass_automation_snapshot_interval_secs,
        60,
    ));
    assert(c.disable_automation == switch_on(v.compass_disable_automation));
    assert(Some(c.arc_usdc) == v.arc_usdc_address);
    assert(Some(c.arc_factory) == v.arc_factory_address);
    assert(Some(c.arc_entry_point) == v.arc_entry_point);
    assert(Some(c.arbitrum_sepolia_rpc_url) == v.arbitrum_sepolia_rpc_url);
    assert(Some(c.arbitrum_sepolia_aave_pool) == v.arbitrum_sepolia_aave_pool);
    assert(Some(c.arbitrum_sepolia_aave_usdc) == v.arbitrum_sepolia_aave_usdc);
    assert(Some(c.arbitrum_sepolia_factory) == v.arbitrum_sepolia_factory_address);
    assert(Some(c.arbitrum_sepolia_entry_point) == v.arbitrum_sepolia_entry_point);
    assert(Some(c.user_pk) == v.compass_user_pk);
    assert(Some(c.agent_pk) == v.compass_agent_pk);
    assert(Some(c.gateway_api_url) == v.gateway_api_url);
    assert(Some(c.gateway_wallet) == v.gateway_wallet_address);
    assert(Some(c.gateway_minter) == v.gateway_minter_address);
    c
}

impl AppConfig {
    /// Reads the settings from the variables' values: the first unset
    /// required variable refuses them, then a schema name that is no SQL
    /// identifier, then the first address setting that is blank or no
    /// address.
    #[verifier::rlimit(40)]
    pub fn from_vars(v: &ConfigVars) -> (r: Result<AppConfig, ConfigError>)
        ensures
            (exists|k: int| first_missing(*v, k)) <==> r matches Err(ConfigError::MissingVar { .. }),
            forall|k: int|
                first_missing(*v, k) ==> (r matches Err(ConfigError::MissingVar { name })
                    && name@ == required_names()[k]),
            (forall|k: int| !first_missing(*v, k)) && !is_identifier(schema_of(*v)) ==> (r matches Err(
                ConfigError::BadSchema { schema },
            ) && schema@ == schema_of(*v)),
            r matches Err(ConfigError::BadSchema { .. }) ==> !is_identifier(schema_of(*v)),
            r matches Ok(c) ==> config_drawn_from(c, *v) && is_identifier(c.db_schema@)
                && all_addresses_ok(address_settings(c)),
            (forall|k: int| !first_missing(*v, k)) && is_identifier(schema_of(*v)) ==> (r is Ok
                <==> all_addresses_ok(address_settings_of_vars(*v))),
            r matches Err(ConfigError::EmptyAddress { name }) ==> exists|k: int|
                first_bad_address(address_settings_of_vars(*v), k) && name@
                    == address_settings_of_vars(*v)[k].0 && trimmed(
                    address_settings_of_vars(*v)[k].1,
                ).len() == 0,
            r matches Err(ConfigError::BadAddress { name, value }) ==> exists|k: int|
                first_bad_address(address_settings_of_vars(*v), k) && name@
                    == address_settings_of_vars(*v)[k].0 && value@ == address_settings_of_vars(
                    *v,
                )[k].1 && trimmed(value@).len() > 0,
    {
        let names: Vec<&'static str> = vec![
            "ARC_RPC_URL",
            "ARC_USDC_ADDRESS",
            "ARC_FACTORY_ADDRESS",
            "ARC_ENTRY_POINT",
            "ARBITRUM_SEPOLIA_RPC_URL",
            "ARBITRUM_SEPOLIA_AAVE_POOL",
            "ARBITRUM_SEPOLIA_AAVE_USDC",
            "ARBITRUM_SEPOLIA_FACTORY_ADDRESS",
            "ARBITRUM_SEPOLIA_ENTRY_POINT",
            "COMPASS_USER_PK",
            "COMPASS_AGENT_PK",
            "GATEWAY_API_URL",
            "GATEWAY_WALLET_ADDRESS",
            "GATEWAY_MINTER_ADDRESS",
            "COMPASS_UPGRADE_AUTHORITY",
        ];
        let vals: Vec<&Option<String>> = vec![
            &v.arc_rpc_url,
            &v.arc_usdc_address,
            &v.arc_factory_address,
            &v.arc_entry_point,
            &v.arbitrum_sepolia_rpc_url,
            &v.arbitrum_sepolia_aave_pool,
            &v.arbitrum_sepolia_aave_usdc,
            &v.arbitrum_sepolia_factory_address,
            &v.arbitrum_sepolia_entry_point,
            &v.compass_user_pk,
            &v.compass_agent_pk,
            &v.gateway_api_url,
            &v.gateway_wallet_address,
            &v.gateway_minter_address,
            &v.compass_upgrade_authority,
        ];
        assert forall|j: int| 0 <= j < 15 implies *(#[trigger] vals@[j]) == required_values(*v)[j] by {
        }
        assert forall|j: int| 0 <= j < 15 implies (#[trigger] names@[j])@ == required_names()[j] by {
        }
        let k = first_unset(&vals);
        proof {
            lemma_all_required_set(*v);
        }
        if k < vals.len() {
            assert(first_missing(*v, k as int));
            assert forall|m: int| first_missing(*v, m) implies m == k by {
                if m < k {
                    assert(vals@[m] is Some);
                }
                if m > k {
                    assert(required_values(*v)[k as int] is Some);
                }
            }
            return Err(ConfigError::MissingVar { name: names[k] });
        }
        proof {
            lemma_all_required_set(*v);
        }
        let db_schema = match non_blank_of(&v.compass_db_schema) {
            Some(s) => s,
            None => String::from_str("public"),
        };
        if !identifier_ok(db_schema.as_str()) {
            return Err(ConfigError::BadSchema { schema: db_schema });
        }
        let c = draw_settings(v, db_schema);
        assert(address_settings(c) =~= address_settings_of_vars(*v));
        match c.validate_addresses() {
            Ok(()) => Ok(c),
            Err(e) => Err(e),
        }
    }

    /// Checks the address settings in order: each must be not blank and an
    /// address.
    pub fn validate_addresses(&self) -> (r: Result<(), ConfigError>)
        ensures
            r is Ok <==> all_addresses_ok(address_settings(*self)),
            r matches Err(ConfigError::EmptyAddress { name }) ==> exists|k: int|
                first_bad_address(address_settings(*self), k) && name@ == address_settings(
                    *self,
                )[k].0 && trimmed(address_settings(*self)[k].1).len() == 0,
            r matches Err(ConfigError::BadAddress { name, value }) ==> exists|k: int|
                first_bad_address(address_settings(*self), k) && name@ == address_settings(
                    *self,
                )[k].0 && value@ == address_settings(*self)[k].1 && trimmed(value@).len() > 0,
            !(r matches Err(ConfigError::MissingVar { .. })),
            !(r matches Err(ConfigError::BadSchema { .. })),
    {
        let names: Vec<&'static str> = vec![
            "ARC_USDC_ADDRESS",
            "ARC_FACTORY_ADDRESS",
            "ARC_ENTRY_POINT",
            "ARBITRUM_SEPOLIA_AAVE_POOL",
            "ARBITRUM_SEPOLIA_AAVE_USDC",
            "ARBITRUM_SEPOLIA_USDC",
            "ARBITRUM_SEPOLIA_FACTORY_ADDRESS",
            "ARBITRUM_SEPOLIA_ENTRY_POINT",
            "GATEWAY_WALLET_ADDRESS",
            "GATEWAY_MINTER_ADDRESS",
            "COMPASS_UPGRADE_AUTHORITY",
        ];
        let values: Vec<&String> = vec![
            &self.arc_usdc,
            &self.arc_factory,
            &self.arc_entry_point,
            &self.arbitrum_sepolia_aave_pool,
            &self.arbitrum_sepolia_aave_usdc,
            &self.arbitrum_sepolia_usdc,
            &self.arbitrum_sepolia_factory,
            &self.arbitrum_sepolia_entry_point,
            &self.gateway_wallet,
            &self.gateway_minter,
            &self.compass_upgrade_authority,
        ];
        let ghost s = address_settings(*self);
        assert forall|j: int| 0 <= j < 11 implies (#[trigger] values@[j])@ == s[j].1 && names@[j]@
            == s[j].0 by {
        }
        let refused = first_refused(&names, &values);
        match refused {
            None => {
                assert forall|j: int| 0 <= j < s.len() implies address_ok(#[trigger] s[j].1) by {
                    assert(address_ok(values@[j]@));
                }
                Ok(())
            },
            Some((k, e)) => {
                assert(first_bad_address(s, k as int)) by {
                    assert forall|j: int| 0 <= j < k implies address_ok(#[trigger] s[j].1) by {
                        assert(address_ok(values@[j]@));
                    }
                }
                Err(e)
            },
        }
    }
}

} // verus!
