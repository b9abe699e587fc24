//! Command line values and the interface addresses chosen from them.
use vstd::prelude::*;
use vstd::string::StrSliceExecFns;
use vstd::string::StringExecFns;
use crate::addr::IpAddress;

verus! {

/// The command line of the forwarder, as parsed.
#[derive(Debug)]
pub struct Args {
    /// Name of first network interface
    pub if1: String,
    /// Ip version of first network interface: "on" for IPv6
    pub is_if1_ipv6: String,
    /// Name of second network interface
    pub if2: String,
    /// Ip version of second network interface: "on" for IPv6
    pub is_if2_ipv6: String,
    /// Log severity
    pub log_level: String,
}

/// The configuration the forwarder runs with: its arguments and the address
/// found on each interface (`None` where none of the chosen family was).
#[derive(Debug)]
pub struct Config {
    pub args: Args,
    pub if1_ip: Option<IpAddress>,
    pub if2_ip: Option<IpAddress>,
}

/// Whether two strings hold the same characters.
pub fn text_eq(a: &str, b: &str) -> (r: bool)
    ensures
        r == (a@ == b@),
{
    let n = a.unicode_len();
    if n != b.unicode_len() {
        return false;
    }
    let mut i: usize = 0;
    while i < n
        invariant
            n == a@.len() == b@.len(),
            0 <= i <= n,
            forall|j: int| 0 <= j < i ==> a@[j] == b@[j],
        decreases n - i,
    {
        if a.get_char(i) != b.get_char(i) {
            return false;
        }
        i = i + 1;
    }
    assert(a@ =~= b@);
    true
}

/// The message given for a switch that is neither "on" nor "off".
pub open spec fn on_off_error() -> Seq<char> {
    "Value can be on or off"@
}

/// Checks the value of an on/off switch: it is kept when it reads "on" or
/// "off", and refused otherwise.
pub fn is_on_off(s: &str) -> (r: Result<String, String>)
    ensures
        (s@ == "on"@ || s@ == "off"@) ==> r is Ok && r->Ok_0@ == s@,
        !(s@ == "on"@ || s@ == "off"@) ==> r is Err && r->Err_0@ == on_off_error(),
{
    if text_eq(s, "on") || text_eq(s, "off") {
        Ok(String::from_str(s))
    } else {
        Err(String::from_str("Value can be on or off"))
    }
}

/// Builds the arguments from the values given on the command line; the two
/// IP-version switches must each read "on" or "off".
pub fn handling_args(
    if1: String,
    is_if1_ipv6: String,
    if2: String,
    is_if2_ipv6: String,
    log_level: String,
) -> (r: Result<Args, String>)
    ensures
        r is Ok <==> ((is_if1_ipv6@ == "on"@ || is_if1_ipv6@ == "off"@) && (is_if2_ipv6@ == "on"@
            || is_if2_ipv6@ == "off"@)),
        r is Ok ==> r->Ok_0.if1@ == if1@ && r->Ok_0.is_if1_ipv6@ == is_if1_ipv6@ && r->Ok_0.if2@
            == if2@ && r->Ok_0.is_if2_ipv6@ == is_if2_ipv6@ && r->Ok_0.log_level@ == log_level@,
        r is Err ==> r->Err_0@ == on_off_error(),
{
    let v1 = match is_on_off(is_if1_ipv6.as_str()) {
        Ok(v) => v,
        Err(e) => {
            return Err(e);
        },
    };
    let v2 = match is_on_off(is_if2_ipv6.as_str()) {
        Ok(v) => v,
        Err(e) => {
            return Err(e);
        },
    };
    Ok(Args { if1, is_if1_ipv6: v1, if2, is_if2_ipv6: v2, log_level })
}

/// The last IPv4 address of `ips`, if any.
pub open spec fn last_v4(ips: Seq<IpAddress>) -> Option<IpAddress>
    decreases ips.len(),
{
    if ips.len() == 0 {
        None
    } else if ips.last() is V4 {
        Some(ips.last())
    } else {
        last_v4(ips.drop_last())
    }
}

/// The last IPv6 address of `ips`, if any.
pub open spec fn last_v6(ips: Seq<IpAddress>) -> Option<IpAddress>
    decreases ips.len(),
{
    if ips.len() == 0 {
        None
    } else if ips.last() is V6 {
        Some(ips.last())
    } else {
        last_v6(ips.drop_last())
    }
}

/// Of the addresses of an interface, the last of each family.
pub fn get_interface_ips(ips: &Vec<IpAddress>) -> (r: (Option<IpAddress>, Option<IpAddress>))
    ensures
        r.0 == last_v4(ips@),
        r.1 == last_v6(ips@),
{
    let mut ipv4_addr: Option<IpAddress> = None;
    let mut ipv6_addr: Option<IpAddress> = None;
    let mut i: usize = 0;
    while i < ips.len()
        invariant
            0 <= i <= ips@.len(),
            ipv4_addr == last_v4(ips@.subrange(0, i as int)),
            ipv6_addr == last_v6(ips@.subrange(0, i as int)),
        decreases ips@.len() - i,
    {
        let ip = ips[i];
        proof {
            let s = ips@.subrange(0, i as int + 1);
            assert(s.drop_last() =~= ips@.subrange(0, i as int));
            assert(s.last() == ip);
        }
        match ip {
            IpAddress::V4(_) => {
                ipv4_addr = Some(ip);
            },
            IpAddress::V6(_) => {
                ipv6_addr = Some(ip);
            },
        }
        i = i + 1;
    }
    assert(ips@.subrange(0, ips@.len() as int) =~= ips@);
    (ipv4_addr, ipv6_addr)
}

/// The address an interface is used with: its IPv4 address when the IPv6
/// switch reads "off", its IPv6 address otherwise.
pub open spec fn app_ip(v4: Option<IpAddress>, v6: Option<IpAddress>, is_ipv6_on: Seq<char>) -> Option<
    IpAddress,
> {
    if is_ipv6_on == "off"@ {
        v4
    } else {
        v6
    }
}

/// Chooses the address of an interface by the IPv6 switch; an error names
/// the family that was missing.
pub fn get_app_ip(v4: Option<IpAddress>, v6: Option<IpAddress>, is_ipv6_on: &str) -> (r: Result<
    IpAddress,
    String,
>)
    ensures
        r is Ok <==> app_ip(v4, v6, is_ipv6_on@) is Some,
        r is Ok ==> Some(r->Ok_0) == app_ip(v4, v6, is_ipv6_on@),
        r is Err ==> r->Err_0@ == (if is_ipv6_on@ == "off"@ { "IPv4 is not found"@ } else {
            "IPv6 is not found"@
        }),
{
    if text_eq(is_ipv6_on, "off") {
        match v4 {
            Some(ip) => Ok(ip),
            None => Err(String::from_str("IPv4 is not found")),
        }
    } else {
        match v6 {
            Some(ip) => Ok(ip),
            None => Err(String::from_str("IPv6 is not found")),
        }
    }
}

/// Address of the first interface, if one of the chosen family was found.
pub fn get_if1_ip(cfg: &Config) -> (r: Option<IpAddress>)
    ensures
        r == cfg.if1_ip,
{
    cfg.if1_ip
}

/// Address of the second interface, if one of the chosen family was found.
pub fn get_if2_ip(cfg: &Config) -> (r: Option<IpAddress>)
    ensures
        r == cfg.if2_ip,
{
    cfg.if2_ip
}

/// Whether the first interface is used over IPv4.
pub open spec fn if1_is_ipv4(cfg: &Config) -> bool {
    cfg.if1_ip matches Some(ip) && ip is V4
}

/// Whether the second interface is used over IPv4.
pub open spec fn if2_is_ipv4(cfg: &Config) -> bool {
    cfg.if2_ip matches Some(ip) && ip is V4
}

/// Checks if the first network interface has an IPv4 address; false where
/// no address was found.
pub fn is_if1_ipv4(cfg: &Config) -> (r: bool)
    ensures
        r == if1_is_ipv4(cfg),
{
    match get_if1_ip(cfg) {
        Some(ip) => ip.is_ipv4(),
        None => false,
    }
}

/// Checks if the second network interface has an IPv4 address; false where
/// no address was found.
pub fn is_if2_ipv4(cfg: &Config) -> (r: bool)
    ensures
        r == if2_is_ipv4(cfg),
{
    match get_if2_ip(cfg) {
        Some(ip) => ip.is_ipv4(),
        None => false,
    }
}

/// Name of the first interface, or `None` where it is empty.
pub fn get_if1_name(cfg: &Config) -> (r: Option<&str>)
    ensures
        cfg.args.if1@.len() == 0 ==> r is None,
        cfg.args.if1@.len() > 0 ==> r is Some && r->Some_0@ == cfg.args.if1@,
{
    if cfg.args.if1.as_str().unicode_len() == 0 {
        return None;
    }
    Some(cfg.args.if1.as_str())
}

/// Name of the second interface, or `None` where it is empty.
pub fn get_if2_name(cfg: &Config) -> (r: Option<&str>)
    ensures
        cfg.args.if2@.len() == 0 ==> r is None,
        cfg.args.if2@.len() > 0 ==> r is Some && r->Some_0@ == cfg.args.if2@,
{
    if cfg.args.if2.as_str().unicode_len() == 0 {
        return None;
    }
    Some(cfg.args.if2.as_str())
}

} // verus!
