//! The user's smart accounts and the agent's session on them: the status
//! report, the session's lifetime, and the checks on the accounts' setup.
use vstd::prelude::*;

use crate::funding::chain_code;
use crate::model::{ChainId, UserAddress};
use crate::outside::{address_from_str, parse_address};
use crate::text::hex_text;

verus! {

/// The salt under which a user's smart account is created.
pub const ACCOUNT_SALT: u64 = 0;

/// Seconds a newly registered session lasts.
pub const SESSION_LIFETIME_SECS: u64 = 86_400;

/// The state of a user's smart account on one chain.
#[derive(Debug)]
pub struct DiamondStatus {
    pub chain: String,
    pub address: String,
    pub deployed: bool,
    pub session_valid: bool,
    pub session_expires_at: u64,
}

/// The state of a user's smart accounts on both chains.
#[derive(Debug)]
pub struct SessionStatus {
    pub user: String,
    pub agent: String,
    pub salt: u64,
    pub arc: DiamondStatus,
    pub arbitrum_sepolia: DiamondStatus,
    pub addresses_match: bool,
    pub ready: bool,
}

/// What a probe of one chain found: the smart account's address, whether
/// code is deployed there, and the agent's session as read (validity and
/// expiry), `None` where reading it failed.
#[derive(Debug)]
pub struct ChainProbe {
    pub address: UserAddress,
    pub deployed: bool,
    pub session: Option<(bool, u64)>,
}

/// The session found by a probe: nothing on an undeployed account or when
/// the read failed.
pub open spec fn probed_session(p: ChainProbe) -> (bool, u64) {
    if p.deployed {
        match p.session {
            Some(s) => s,
            None => (false, 0),
        }
    } else {
        (false, 0)
    }
}

/// The expiry a session read gives: the 256-bit value (four little-endian
/// 64-bit limbs) when it fits 64 bits, else 0; 0 when the read failed.
pub fn expiry_from_read(read: Option<[u64; 4]>) -> (r: u64)
    ensures
        r == match read {
            Some(l) => if l[1] == 0 && l[2] == 0 && l[3] == 0 {
                l[0]
            } else {
                0
            },
            None => 0,
        },
{
    match read {
        Some(l) => if l[1] == 0 && l[2] == 0 && l[3] == 0 {
            l[0]
        } else {
            0
        },
        None => 0,
    }
}

fn chain_text(chain: ChainId) -> (r: String)
    ensures
        r@ == chain_code(chain),
{
    match chain {
        ChainId::Arc => String::from_str("arc"),
        ChainId::ArbitrumSepolia => String::from_str("arbitrum_sepolia"),
    }
}

/// The status of the smart account on `chain`.
pub fn diamond_status(chain: ChainId, probe: &ChainProbe) -> (r: DiamondStatus)
    ensures
        r.chain@ == chain_code(chain),
        r.address@ == "0x"@ + hex_text(probe.address@),
        r.deployed == probe.deployed,
        r.session_valid == probed_session(*probe).0,
        r.session_expires_at == probed_session(*probe).1,
{
    let (session_valid, session_expires_at) = if probe.deployed {
        match probe.session {
            Some(s) => s,
            None => (false, 0),
        }
    } else {
        (false, 0)
    };
    DiamondStatus {
        chain: chain_text(chain),
        address: probe.address.text(),
        deployed: probe.deployed,
        session_valid,
        session_expires_at,
    }
}

/// The status of both smart accounts: the accounts match when they share
/// an address; the user is ready when both are deployed with a valid
/// session for the agent.
pub fn session_status(user: UserAddress, agent: UserAddress, arc: &ChainProbe, arbitrum: &ChainProbe) -> (r:
    SessionStatus)
    ensures
        r.user@ == "0x"@ + hex_text(user@),
        r.agent@ == "0x"@ + hex_text(agent@),
        r.salt == ACCOUNT_SALT,
        r.arc.chain@ == chain_code(ChainId::Arc),
        r.arc.address@ == "0x"@ + hex_text(arc.address@),
        r.arc.deployed == arc.deployed,
        r.arc.session_valid == probed_session(*arc).0,
        r.arc.session_expires_at == probed_session(*arc).1,
        r.arbitrum_sepolia.chain@ == chain_code(ChainId::ArbitrumSepolia),
        r.arbitrum_sepolia.address@ == "0x"@ + hex_text(arbitrum.address@),
        r.arbitrum_sepolia.deployed == arbitrum.deployed,
        r.arbitrum_sepolia.session_valid == probed_session(*arbitrum).0,
        r.arbitrum_sepolia.session_expires_at == probed_session(*arbitrum).1,
        r.addresses_match == (arc.address == arbitrum.address),
        r.ready == (arc.deployed && arbitrum.deployed && probed_session(*arc).0 && probed_session(
            *arbitrum,
        ).0),
{
    let a = diamond_status(ChainId::Arc, arc);
    let b = diamond_status(ChainId::ArbitrumSepolia, arbitrum);
    let ready = a.deployed && b.deployed && a.session_valid && b.session_valid;
    SessionStatus {
        user: user.text(),
        agent: agent.text(),
        salt: ACCOUNT_SALT,
        arc: a,
        arbitrum_sepolia: b,
        addresses_match: arc.address == arbitrum.address,
        ready,
    }
}

/// The expiry of a session registered at `now_secs` (Unix seconds, taken
/// as an unsigned 64-bit number).
pub fn session_expiry(now_secs: i64) -> (r: u64)
    requires
        (now_secs as u64) + SESSION_LIFETIME_SECS <= u64::MAX,
    ensures
        r == (now_secs as u64) + SESSION_LIFETIME_SECS,
{
    now_secs as u64 + SESSION_LIFETIME_SECS
}

/// The zero address.
pub open spec fn is_zero_address(a: UserAddress) -> bool {
    a.hi == 0 && a.mid == 0 && a.lo == 0
}

/// The addresses a smart account is initialised with.
#[derive(Debug)]
pub struct InitAddresses {
    pub entry_point: UserAddress,
    pub usdc: UserAddress,
    pub gateway_wallet: UserAddress,
    pub gateway_minter: UserAddress,
    pub aave_pool: UserAddress,
    pub upgrade_authority: UserAddress,
    pub paymaster: UserAddress,
}

/// Why the accounts' setup was refused.
#[derive(Debug)]
pub enum SetupError {
    /// A setting is not an address.
    BadAddress { setting: &'static str },
    /// The entry point is the zero address.
    ZeroEntryPoint,
    /// The USDC token is the zero address.
    ZeroUsdc,
}

/// Refuses initialisation addresses with a zero entry point, then with a
/// zero USDC token.
pub fn validate_init(init: &InitAddresses) -> (r: Result<(), SetupError>)
    ensures
        is_zero_address(init.entry_point) ==> r matches Err(SetupError::ZeroEntryPoint),
        !is_zero_address(init.entry_point) && is_zero_address(init.usdc) ==> r matches Err(
            SetupError::ZeroUsdc,
        ),
        !is_zero_address(init.entry_point) && !is_zero_address(init.usdc) ==> r is Ok,
{
    let e = init.entry_point;
    if e.hi == 0 && e.mid == 0 && e.lo == 0 {
        return Err(SetupError::ZeroEntryPoint);
    }
    let u = init.usdc;
    if u.hi == 0 && u.mid == 0 && u.lo == 0 {
        return Err(SetupError::ZeroUsdc);
    }
    Ok(())
}

/// The address a setting names.
pub fn address_setting(text: &str, setting: &'static str) -> (r: Result<UserAddress, SetupError>)
    ensures
        address_from_str(text@) matches Some(b) ==> (r matches Ok(a) && a@ == b),
        address_from_str(text@) is None ==> (r matches Err(SetupError::BadAddress { setting: s })
            && s == setting),
{
    match parse_address(text) {
        Some(b) => Ok(UserAddress::from_bytes(b)),
        None => Err(SetupError::BadAddress { setting }),
    }
}

/// A chain's paymaster: the zero address where none is set.
pub fn paymaster_address(setting: &Option<String>, name: &'static str) -> (r: Result<
    UserAddress,
    SetupError,
>)
    ensures
        match *setting {
            None => r matches Ok(a) && is_zero_address(a),
            Some(t) => match address_from_str(t@) {
                Some(b) => r matches Ok(a) && a@ == b,
                None => r matches Err(SetupError::BadAddress { setting: s }) && s == name,
            },
        },
{
    match setting {
        Some(t) => address_setting(t.as_str(), name),
        None => Ok(UserAddress { hi: 0, mid: 0, lo: 0 }),
    }
}

/// Transactions sent on each chain by one part of the setup; `None` where
/// nothing needed sending.
#[derive(Debug)]
pub struct SetupTxs {
    pub arc_tx: Option<String>,
    pub arb_tx: Option<String>,
}

/// The outcome of a setup: the status afterwards, the deployments and the
/// session registrations.
#[derive(Debug)]
pub struct SetupResult {
    pub status: SessionStatus,
    pub deploy: SetupTxs,
    pub session: SetupTxs,
}

} // verus!
