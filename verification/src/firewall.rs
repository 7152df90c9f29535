//! The inbound firewall rules a client machine needs, as command arguments
//! for Windows' `netsh`.
use vstd::prelude::*;

verus! {

/// One inbound rule: its name, protocol and local ports.
#[derive(Debug, Clone)]
pub struct FirewallRule {
    pub name: String,
    pub protocol: String,
    pub ports: String,
}

/// The rules a client opens: the server's microphone audio (UDP 9002), and
/// file transfer and clipboard (TCP 9003, 9004).
pub fn client_firewall_rules() -> (r: Vec<FirewallRule>)
    ensures
        r@.len() == 2,
        r@[0].name@ == "NetShare-Client-UDP"@,
        r@[0].protocol@ == "UDP"@,
        r@[0].ports@ == "9002"@,
        r@[1].name@ == "NetShare-Client-TCP"@,
        r@[1].protocol@ == "TCP"@,
        r@[1].ports@ == "9003,9004"@,
{
    let mut v: Vec<FirewallRule> = Vec::new();
    v.push(FirewallRule {
        name: "NetShare-Client-UDP".to_owned(),
        protocol: "UDP".to_owned(),
        ports: "9002".to_owned(),
    });
    v.push(FirewallRule {
        name: "NetShare-Client-TCP".to_owned(),
        protocol: "TCP".to_owned(),
        ports: "9003,9004".to_owned(),
    });
    v
}

fn prefixed(prefix: &str, value: &str) -> (r: String)
    ensures
        r@ == prefix@ + value@,
{
    let mut s = prefix.to_owned();
    s.append(value);
    s
}

/// The `netsh` arguments that delete the rule named `name`.
pub fn delete_rule_args(name: &str) -> (r: Vec<String>)
    ensures
        r@.len() == 5,
        r@[0]@ == "advfirewall"@,
        r@[1]@ == "firewall"@,
        r@[2]@ == "delete"@,
        r@[3]@ == "rule"@,
        r@[4]@ == "name="@ + name@,
{
    let mut v: Vec<String> = Vec::new();
    v.push("advfirewall".to_owned());
    v.push("firewall".to_owned());
    v.push("delete".to_owned());
    v.push("rule".to_owned());
    v.push(prefixed("name=", name));
    v
}

/// The `netsh` arguments that add `rule` as an inbound allow rule.
pub fn add_rule_args(rule: &FirewallRule) -> (r: Vec<String>)
    ensures
        r@.len() == 9,
        r@[0]@ == "advfirewall"@,
        r@[1]@ == "firewall"@,
        r@[2]@ == "add"@,
        r@[3]@ == "rule"@,
        r@[4]@ == "name="@ + rule.name@,
        r@[5]@ == "dir=in"@,
        r@[6]@ == "action=allow"@,
        r@[7]@ == "protocol="@ + rule.protocol@,
        r@[8]@ == "localport="@ + rule.ports@,
{
    let mut v: Vec<String> = Vec::new();
    v.push("advfirewall".to_owned());
    v.push("firewall".to_owned());
    v.push("add".to_owned());
    v.push("rule".to_owned());
    v.push(prefixed("name=", rule.name.as_str()));
    v.push("dir=in".to_owned());
    v.push("action=allow".to_owned());
    v.push(prefixed("protocol=", rule.protocol.as_str()));
    v.push(prefixed("localport=", rule.ports.as_str()));
    v
}

} // verus!
