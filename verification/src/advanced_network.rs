//! Bonding and VRF checks, SYN-flood protection rules and live updates of nftables sets.
use vstd::prelude::*;
use crate::errors::AegisError;
use crate::models::advanced::{SynProxyConfig, VrfProfile};
use crate::text::{concat3, decimal, decimal_text, join, join_strings, owned, push_str, str_eq, views};

verus! {

/// The nftables rule that answers SYN floods through `synproxy` under a rate limit.
pub open spec fn synproxy_rule(c: SynProxyConfig) -> Seq<char> {
    "tcp flags syn tcp option maxseg size set "@ + decimal(c.mss as nat) + " synproxy mss "@
        + decimal(c.mss as nat) + " wscale "@ + decimal(c.wscale as nat) + " limit rate "@
        + decimal(c.syn_rate_limit as nat) + "/second burst 200 packets accept"@
}

/// The `nft` command that adds (`verb` = `add`) or deletes (`verb` = `delete`) the addresses
/// `ips` in set `set` of table `inet aegisnode`.
pub open spec fn set_command(verb: Seq<char>, set: Seq<char>, ips: Seq<Seq<char>>) -> Seq<char> {
    if ips.len() == 0 {
        "nft "@ + verb + " element inet aegisnode "@ + set + " { }"@
    } else {
        "nft "@ + verb + " element inet aegisnode "@ + set + " { "@ + join(ips, ", "@) + " }"@
    }
}

/// Manager of bonds, VRFs and advanced firewall protections.
pub struct AdvancedNetworkManager;

fn set_command_text(verb: &str, set_name: &str, ips: &[String]) -> (r: String)
    ensures
        r@ == set_command(verb@, set_name@, views(ips@)),
{
    let mut r = owned("nft ");
    push_str(&mut r, verb);
    push_str(&mut r, " element inet aegisnode ");
    push_str(&mut r, set_name);
    if ips.len() == 0 {
        push_str(&mut r, " { }");
    } else {
        push_str(&mut r, " { ");
        let list = join_strings(ips, ", ");
        push_str(&mut r, list.as_str());
        push_str(&mut r, " }");
    }
    r
}

impl AdvancedNetworkManager {
    /// Refuses a bond that would take in the management interface (which would cut the
    /// administrator's SSH session).
    pub fn validate_management_interface_protection(slaves: &[String], management_iface: &str) -> (r:
        Result<(), AegisError>)
        ensures
            r is Err <==> exists|i: int| 0 <= i < slaves@.len() && (#[trigger] slaves@[i])@
                == management_iface@,
            r matches Err(e) ==> e is Validation,
    {
        let mut i: usize = 0;
        while i < slaves.len()
            invariant
                i <= slaves@.len(),
                forall|j: int| 0 <= j < i ==> (#[trigger] slaves@[j])@ != management_iface@,
            decreases slaves.len() - i,
        {
            if str_eq(slaves[i].as_str(), management_iface) {
                return Err(
                    AegisError::Validation(
                        concat3(
                            "Bond refused: the management interface '",
                            management_iface,
                            "' cannot be a bond slave",
                        ),
                    ),
                );
            }
            i = i + 1;
        }
        Ok(())
    }

    /// Accepts a VRF with a name and a routing table in `1..=65535`.
    pub fn validate_vrf_profile(profile: &VrfProfile) -> (r: Result<(), AegisError>)
        ensures
            r is Ok <==> (profile.vrf_name@.len() > 0 && 1 <= profile.table_id <= 65535),
            r matches Err(e) ==> e is Validation,
    {
        if profile.vrf_name.as_str().unicode_len() == 0 {
            return Err(AegisError::Validation(owned("The VRF interface name must not be empty")));
        }
        if profile.table_id == 0 || profile.table_id > 65535 {
            let m = concat3(
                "The VRF routing table ID (",
                decimal_text(profile.table_id as u64).as_str(),
                ") must lie between 1 and 65535",
            );
            return Err(AegisError::Validation(m));
        }
        Ok(())
    }

    /// The SYN-flood protection rule for `config`.
    pub fn generate_synproxy_nft_rule(config: &SynProxyConfig) -> (r: String)
        ensures
            r@ == synproxy_rule(*config),
    {
        let mss = decimal_text(config.mss as u64);
        let mut r = owned("tcp flags syn tcp option maxseg size set ");
        push_str(&mut r, mss.as_str());
        push_str(&mut r, " synproxy mss ");
        push_str(&mut r, mss.as_str());
        push_str(&mut r, " wscale ");
        push_str(&mut r, decimal_text(config.wscale as u64).as_str());
        push_str(&mut r, " limit rate ");
        push_str(&mut r, decimal_text(config.syn_rate_limit as u64).as_str());
        push_str(&mut r, "/second burst 200 packets accept");
        r
    }

    /// The command that adds `ips` to set `set_name` without reloading the ruleset.
    pub fn generate_dynamic_set_add_command(set_name: &str, ips: &[String]) -> (r: String)
        ensures
            r@ == set_command("add"@, set_name@, views(ips@)),
    {
        set_command_text("add", set_name, ips)
    }

    /// The command that deletes `ips` from set `set_name`.
    pub fn generate_dynamic_set_delete_command(set_name: &str, ips: &[String]) -> (r: String)
        ensures
            r@ == set_command("delete"@, set_name@, views(ips@)),
    {
        set_command_text("delete", set_name, ips)
    }
}

} // verus!
