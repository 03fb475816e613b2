//! The lines of reasoning the evaluator shows the user: what it audits,
//! what it finds held, which venues it scans, and how the session ends.
use vstd::prelude::*;

use crate::evaluator::{
    chain_name, holdings_total, protocol_name, sum_holdings, Candidate, Decision, Holding, Position,
};
use crate::model::{ChainId, ProtocolId, VenueRef};
use crate::policy::Policy;
use crate::text::{decimal_text, push_decimal, push_decimal_padded, zero_padded};
use crate::model::{amount_u64, amount_value, is_positive, Amount};
use crate::outside::{u256_div, u256_rem, u256_text, u256_value};

verus! {

/// The name of a chain in the reasoning.
pub open spec fn chain_label(c: ChainId) -> Seq<char> {
    match c {
        ChainId::Arc => "Arc"@,
        ChainId::ArbitrumSepolia => "Arbitrum Sepolia"@,
    }
}

/// The name of a protocol in the reasoning.
pub open spec fn protocol_label(p: ProtocolId) -> Seq<char> {
    match p {
        ProtocolId::Idle => "Wallet"@,
        ProtocolId::AaveV3 => "AAVE v3"@,
    }
}

/// A venue as the reasoning names it: the protocol on the chain.
pub open spec fn venue_label_text(v: VenueRef) -> Seq<char> {
    protocol_label(v.protocol) + " on "@ + chain_label(v.chain)
}

/// The plural ending of a count.
pub open spec fn plural(n: nat) -> Seq<char> {
    if n == 1 {
        ""@
    } else {
        "s"@
    }
}

/// The items, with `sep` between each two.
pub open spec fn join(items: Seq<Seq<char>>, sep: Seq<char>) -> Seq<char>
    decreases items.len(),
{
    if items.len() == 0 {
        Seq::empty()
    } else if items.len() == 1 {
        items[0]
    } else {
        join(items.drop_last(), sep) + sep + items.last()
    }
}

/// The opening line: how many venues the policy whitelists, on which chains.
pub open spec fn audit_entry_text(chains: Seq<ChainId>, venues: nat) -> Seq<char> {
    "Auditing markets across "@ + decimal_text(venues) + " venue"@ + plural(venues) + " on "@ + join(
        chains.map_values(|c: ChainId| chain_label(c)),
        ", "@,
    ) + "."@
}

/// Whole USDC and the first two decimals.
pub open spec fn short_usdc_text(raw: nat) -> Seq<char> {
    decimal_text(raw / 1_000_000) + "."@ + zero_padded(decimal_text(raw % 1_000_000 / 10_000), 2)
}

/// The venues of the holdings with capital, in order.
pub open spec fn held_venues(hs: Seq<Holding>) -> Seq<VenueRef>
    decreases hs.len(),
{
    if hs.len() == 0 {
        Seq::empty()
    } else if amount_value(hs.last().amount) != 0 {
        held_venues(hs.drop_last()).push(hs.last().venue)
    } else {
        held_venues(hs.drop_last())
    }
}

/// The line on the position: empty, or its total and where it is held
/// (the venue when there is one, else how many).
pub open spec fn position_text(hs: Seq<Holding>) -> Seq<char> {
    let total = holdings_total(hs);
    let held = held_venues(hs);
    if total == 0 {
        "Wallet is empty — no capital to evaluate yet."@
    } else {
        "Detected active position of "@ + short_usdc_text(total) + " USDC in "@ + (if held.len() == 1 {
            venue_label_text(held[0])
        } else {
            decimal_text(held.len()) + " venues"@
        }) + "."@
    }
}

/// The line on the ranking: how many venues, named in ranked order.
pub open spec fn scan_text(ranked: Seq<Candidate>) -> Seq<char> {
    "Scanned APR across "@ + decimal_text(ranked.len()) + " candidate venue"@ + plural(ranked.len())
        + ": "@ + join(ranked.map_values(|c: Candidate| venue_label_text(c.venue)), ", "@) + "."@
}

/// The closing line, by the kind of decision.
pub open spec fn session_complete_text(d: Decision) -> Seq<char> {
    "Session complete — "@ + match d {
        Decision::Act { .. } => "Execution plan ready."@,
        Decision::Noop { .. } => "No action required."@,
        Decision::CircuitBreak { .. } => "Engine paused for review."@,
        Decision::Escalate { .. } => "Handing off to LLM."@,
    }
}

fn push_plural(n: usize, out: &mut String)
    ensures
        final(out)@ == old(out)@ + plural(n as nat),
{
    if n != 1 {
        out.append("s");
    } else {
        assert(""@ =~= Seq::<char>::empty()) by {
            reveal_strlit("");
        }
        assert(old(out)@ + ""@ =~= old(out)@);
    }
}

fn push_venue_label(v: VenueRef, out: &mut String)
    ensures
        final(out)@ == old(out)@ + venue_label_text(v),
{
    let p = protocol_name(v.protocol);
    let c = chain_name(v.chain);
    proof {
        assert(p@ == protocol_label(v.protocol));
        assert(c@ == chain_label(v.chain));
    }
    out.append(p);
    out.append(" on ");
    out.append(c);
    assert(final(out)@ =~= old(out)@ + venue_label_text(v));
}

/// A venue as the reasoning names it.
pub fn venue_label(v: VenueRef) -> (r: String)
    ensures
        r@ == venue_label_text(v),
{
    let mut out = String::new();
    push_venue_label(v, &mut out);
    out
}

/// The opening line of the evaluator's reasoning.
pub fn audit_entry_thought(policy: &Policy) -> (r: String)
    ensures
        r@ == audit_entry_text(policy.chains.whitelist@, policy.protocols.whitelist@.len()),
{
    let n = policy.protocols.whitelist.len();
    let chains = &policy.chains.whitelist;
    let mut out = String::from_str("Auditing markets across ");
    push_decimal(n as u128, &mut out);
    out.append(" venue");
    push_plural(n, &mut out);
    out.append(" on ");
    let ghost head = out@;
    let ghost labels = chains@.map_values(|c: ChainId| chain_label(c));
    let mut i: usize = 0;
    while i < chains.len()
        invariant
            chains@ == policy.chains.whitelist@,
            labels == chains@.map_values(|c: ChainId| chain_label(c)),
            i <= chains@.len(),
            out@ == head + join(labels.take(i as int), ", "@),
        decreases chains@.len() - i,
    {
        let ghost before = out@;
        if i > 0 {
            out.append(", ");
        }
        let c = chain_name(chains[i]);
        assert(c@ == chain_label(chains@[i as int]));
        out.append(c);
        proof {
            let t = labels.take(i + 1);
            assert(t.drop_last() =~= labels.take(i as int));
            assert(t.last() == labels[i as int]);
            if i == 0 {
                assert(join(labels.take(0), ", "@) =~= Seq::<char>::empty());
                assert(out@ =~= head + join(t, ", "@));
            } else {
                assert(out@ =~= head + join(t, ", "@));
            }
        }
        i = i + 1;
    }
    assert(labels.take(chains@.len() as int) =~= labels);
    out.append(".");
    out
}

fn push_short_usdc(raw: Amount, out: &mut String)
    ensures
        final(out)@ == old(out)@ + short_usdc_text(amount_value(raw)),
{
    let unit = amount_u64(1_000_000);
    let whole = u256_div(raw, unit);
    let frac = u256_rem(raw, unit);
    let hundredths = u256_div(frac, amount_u64(10_000));
    proof {
        let b = crate::outside::limb_base();
        let h = hundredths@;
        assert(amount_value(hundredths) < 100);
        assert(h[1] == 0 && h[2] == 0 && h[3] == 0) by (nonlinear_arith)
            requires
                b == 0x1_0000_0000_0000_0000nat,
                u256_value(h) == h[0] as nat + h[1] as nat * b + h[2] as nat * (b * b) + h[3] as nat * (b
                    * b * b),
                u256_value(h) < 100,
        ;
    }
    out.append(u256_text(whole).as_str());
    out.append(".");
    push_decimal_padded(hundredths[0] as u128, 2, out);
    assert(final(out)@ =~= old(out)@ + short_usdc_text(amount_value(raw)));
}

/// The venues of the holdings with capital, in order.
fn held_venue_list(hs: &Vec<Holding>) -> (r: Vec<VenueRef>)
    ensures
        r@ == held_venues(hs@),
{
    let mut out: Vec<VenueRef> = Vec::new();
    let mut i: usize = 0;
    while i < hs.len()
        invariant
            i <= hs@.len(),
            out@ == held_venues(hs@.take(i as int)),
        decreases hs@.len() - i,
    {
        assert(hs@.take(i + 1).drop_last() =~= hs@.take(i as int));
        if is_positive(hs[i].amount) {
            out.push(hs[i].venue);
        }
        i = i + 1;
    }
    assert(hs@.take(hs@.len() as int) =~= hs@);
    out
}

/// The line on the position the evaluator found.
pub fn position_thought(position: &Position) -> (r: String)
    requires
        position.wf(),
    ensures
        r@ == position_text(position.holdings@),
{
    let total = sum_holdings(position);
    if !is_positive(total) {
        return String::from_str("Wallet is empty — no capital to evaluate yet.");
    }
    let held = held_venue_list(&position.holdings);
    let mut out = String::from_str("Detected active position of ");
    push_short_usdc(total, &mut out);
    out.append(" USDC in ");
    let ghost mid = out@;
    if held.len() == 1 {
        push_venue_label(held[0], &mut out);
    } else {
        push_decimal(held.len() as u128, &mut out);
        out.append(" venues");
    }
    out.append(".");
    assert(out@ =~= position_text(position.holdings@));
    out
}

/// The line on the ranking the evaluator scanned.
pub fn scan_thought(ranked: &Vec<Candidate>) -> (r: String)
    ensures
        r@ == scan_text(ranked@),
{
    let n = ranked.len();
    let mut out = String::from_str("Scanned APR across ");
    push_decimal(n as u128, &mut out);
    out.append(" candidate venue");
    push_plural(n, &mut out);
    out.append(": ");
    let ghost head = out@;
    let ghost labels = ranked@.map_values(|c: Candidate| venue_label_text(c.venue));
    let mut i: usize = 0;
    while i < ranked.len()
        invariant
            labels == ranked@.map_values(|c: Candidate| venue_label_text(c.venue)),
            i <= ranked@.len(),
            out@ == head + join(labels.take(i as int), ", "@),
        decreases ranked@.len() - i,
    {
        if i > 0 {
            out.append(", ");
        }
        push_venue_label(ranked[i].venue, &mut out);
        proof {
            let t = labels.take(i + 1);
            assert(t.drop_last() =~= labels.take(i as int));
            assert(t.last() == labels[i as int]);
            if i == 0 {
                assert(join(labels.take(0), ", "@) =~= Seq::<char>::empty());
            }
            assert(out@ =~= head + join(t, ", "@));
        }
        i = i + 1;
    }
    assert(labels.take(ranked@.len() as int) =~= labels);
    out.append(".");
    out
}

/// The closing line of the evaluator's reasoning.
pub fn session_complete_thought(d: &Decision) -> (r: String)
    ensures
        r@ == session_complete_text(*d),
{
    let mut out = String::from_str("Session complete — ");
    let tail = match d {
        Decision::Act { .. } => "Execution plan ready.",
        Decision::Noop { .. } => "No action required.",
        Decision::CircuitBreak { .. } => "Engine paused for review.",
        Decision::Escalate { .. } => "Handing off to LLM.",
    };
    out.append(tail);
    out
}

} // verus!
