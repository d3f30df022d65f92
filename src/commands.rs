//! The tool invocations that change the host's addresses and default routes,
//! and the operations that this platform does not provide.
use vstd::prelude::*;
use vstd::string::*;
use crate::query::{get_interface_index, interface_index_of, wildcard, wildcard_text, Family, NetError};

verus! {

/// A tool to run and the arguments to run it with.
pub struct CommandLine {
    pub program: String,
    pub args: Vec<String>,
}

impl View for CommandLine {
    type V = (Seq<char>, Seq<Seq<char>>);

    open spec fn view(&self) -> (Seq<char>, Seq<Seq<char>>) {
        (self.program@, self.args.deep_view())
    }
}

pub open spec fn command_result(r: Result<CommandLine, NetError>) -> Result<(Seq<char>, Seq<Seq<char>>), NetError> {
    match r {
        Ok(c) => Ok(c@),
        Err(e) => Err(e),
    }
}

/// The interface context of the configuration tool for a family.
pub open spec fn family_word(fam: Family) -> Seq<char> {
    match fam {
        Family::V4 => "ipv4"@,
        Family::V6 => "ipv6"@,
    }
}

/// The family switch of the legacy route tool.
pub open spec fn family_flag(fam: Family) -> Seq<char> {
    match fam {
        Family::V4 => "-4"@,
        Family::V6 => "-6"@,
    }
}

/// Arguments that add a default route through interface `idx` and `gateway`.
/// A route through the tunnel carries a zero metric so that it wins over a
/// default route that is already there.
pub open spec fn add_route_args(fam: Family, idx: Seq<char>, gateway: Seq<char>, tun: bool) -> Seq<Seq<char>> {
    let base = seq![
        "interface"@,
        family_word(fam),
        "add"@,
        "route"@,
        wildcard(fam),
        idx,
        gateway,
    ];
    if tun {
        base + seq!["metric=0"@, "store=active"@]
    } else {
        base.push("store=active"@)
    }
}

/// Arguments that delete the default route through interface `idx`.
pub open spec fn delete_route_args(fam: Family, idx: Seq<char>) -> Seq<Seq<char>> {
    seq![
        "interface"@,
        family_word(fam),
        "delete"@,
        "route"@,
        wildcard(fam),
        "if"@,
        idx,
        "store=active"@,
    ]
}

/// The command that adds a default route: through the tunnel adapter
/// `tun_name` where `is_tun`, else through `interface`, whose index is read
/// from the interface report.
pub open spec fn add_default_route_of(
    fam: Family,
    gateway: Seq<char>,
    interface: Seq<char>,
    is_tun: bool,
    tun_name: Seq<char>,
    iface_out: Seq<char>,
) -> Result<(Seq<char>, Seq<Seq<char>>), NetError> {
    let name = if is_tun { tun_name } else { interface };
    match interface_index_of(iface_out, name) {
        Ok(idx) => Ok(("netsh"@, add_route_args(fam, idx, gateway, is_tun))),
        Err(e) => Err(e),
    }
}

/// The command that deletes a default route: the one through the interface
/// `scope` where one is given, else whatever default route the system has.
pub open spec fn delete_default_route_of(fam: Family, scope: Option<Seq<char>>, iface_out: Seq<char>) -> Result<
    (Seq<char>, Seq<Seq<char>>),
    NetError,
> {
    match scope {
        Some(name) => match interface_index_of(iface_out, name) {
            Ok(idx) => Ok(("netsh"@, delete_route_args(fam, idx))),
            Err(e) => Err(e),
        },
        None => Ok(("route"@, seq![family_flag(fam), "delete"@, wildcard(fam)])),
    }
}

/// The destination prefix that a route command names.
pub open spec fn destination_of(c: (Seq<char>, Seq<Seq<char>>)) -> Seq<char> {
    if c.0 == "route"@ {
        c.1[2]
    } else {
        c.1[4]
    }
}

/// A default route that is added and one that is deleted, of the same
/// family, name the same destination: the family's wildcard prefix,
/// `0.0.0.0/0` or `::/0`.
pub proof fn lemma_add_delete_same_destination(
    fam: Family,
    gateway: Seq<char>,
    interface: Seq<char>,
    is_tun: bool,
    tun_name: Seq<char>,
    scope: Option<Seq<char>>,
    iface_out: Seq<char>,
)
    requires
        add_default_route_of(fam, gateway, interface, is_tun, tun_name, iface_out) is Ok,
        delete_default_route_of(fam, scope, iface_out) is Ok,
    ensures
        destination_of(add_default_route_of(fam, gateway, interface, is_tun, tun_name, iface_out)->Ok_0)
            == wildcard(fam),
        destination_of(delete_default_route_of(fam, scope, iface_out)->Ok_0) == wildcard(fam),
        wildcard(fam) == (if fam == Family::V4 { "0.0.0.0/0"@ } else { "::/0"@ }),
{
    reveal_strlit("route");
    reveal_strlit("netsh");
    assert("route"@[0] != "netsh"@[0]);
}

fn push_text(args: &mut Vec<String>, s: &str)
    ensures
        final(args).deep_view() == old(args).deep_view().push(s@),
{
    let ghost before = args.deep_view();
    args.push(s.to_owned());
    assert(args.deep_view() =~= before.push(s@));
}

fn family_word_text(fam: Family) -> (r: &'static str)
    ensures
        r@ == family_word(fam),
{
    match fam {
        Family::V4 => "ipv4",
        Family::V6 => "ipv6",
    }
}

fn family_flag_text(fam: Family) -> (r: &'static str)
    ensures
        r@ == family_flag(fam),
{
    match fam {
        Family::V4 => "-4",
        Family::V6 => "-6",
    }
}

/// Sets a static IPv4 address, mask and gateway on the interface `name`, in
/// the active store. The three values are handed to the tool as they are.
pub fn add_interface_ipv4_address(name: &str, addr: &str, gw: &str, mask: &str) -> (r: CommandLine)
    ensures
        r@ == ("netsh"@, seq![
            "interface"@,
            "ipv4"@,
            "set"@,
            "address"@,
            name@,
            "static"@,
            addr@,
            mask@,
            gw@,
            "store=active"@,
        ]),
{
    let mut args: Vec<String> = Vec::new();
    push_text(&mut args, "interface");
    push_text(&mut args, "ipv4");
    push_text(&mut args, "set");
    push_text(&mut args, "address");
    push_text(&mut args, name);
    push_text(&mut args, "static");
    push_text(&mut args, addr);
    push_text(&mut args, mask);
    push_text(&mut args, gw);
    push_text(&mut args, "store=active");
    let r = CommandLine { program: "netsh".to_owned(), args };
    assert(r@.1 =~= seq![
        "interface"@,
        "ipv4"@,
        "set"@,
        "address"@,
        name@,
        "static"@,
        addr@,
        mask@,
        gw@,
        "store=active"@,
    ]);
    r
}

/// Sets an IPv6 address on the interface `name`, in the active store. The
/// prefix length is accepted but not yet passed on to the command; this is
/// a known gap, not a property of the tool.
pub fn add_interface_ipv6_address(name: &str, addr: &str, prefixlen: i32) -> (r: CommandLine)
    ensures
        r@ == ("netsh"@, seq![
            "interface"@,
            "ipv6"@,
            "set"@,
            "address"@,
            "interface="@ + name@,
            "address="@ + addr@,
            "store=active"@,
        ]),
{
    let mut args: Vec<String> = Vec::new();
    push_text(&mut args, "interface");
    push_text(&mut args, "ipv6");
    push_text(&mut args, "set");
    push_text(&mut args, "address");
    let mut iface = "interface=".to_owned();
    iface.append(name);
    let mut address = "address=".to_owned();
    address.append(addr);
    let ghost before = args.deep_view();
    args.push(iface);
    args.push(address);
    assert(args.deep_view() =~= before.push("interface="@ + name@).push("address="@ + addr@));
    push_text(&mut args, "store=active");
    let r = CommandLine { program: "netsh".to_owned(), args };
    assert(r@.1 =~= seq![
        "interface"@,
        "ipv6"@,
        "set"@,
        "address"@,
        "interface="@ + name@,
        "address="@ + addr@,
        "store=active"@,
    ]);
    r
}

/// The command that adds a default route of family `fam` through `gateway`.
/// Where `is_tun` the route goes through the tunnel adapter `tun_name` with a
/// zero metric; else through `interface`. The index of the interface is read
/// from the interface report `iface_out`; `NotFound` where it has no row of
/// that name.
///
/// Nothing is checked against the routes that exist: running the same
/// command twice asks the tool for a route that the first run added, which
/// the tool may refuse.
pub fn add_default_route(
    fam: Family,
    gateway: &str,
    interface: &str,
    is_tun: bool,
    tun_name: &str,
    iface_out: &str,
) -> (r: Result<CommandLine, NetError>)
    ensures
        command_result(r) == add_default_route_of(fam, gateway@, interface@, is_tun, tun_name@, iface_out@),
{
    let name = if is_tun { tun_name } else { interface };
    let idx = match get_interface_index(iface_out, name) {
        Ok(idx) => idx,
        Err(e) => {
            return Err(e);
        },
    };
    let mut args: Vec<String> = Vec::new();
    push_text(&mut args, "interface");
    push_text(&mut args, family_word_text(fam));
    push_text(&mut args, "add");
    push_text(&mut args, "route");
    push_text(&mut args, wildcard_text(fam));
    push_text(&mut args, idx.as_str());
    push_text(&mut args, gateway);
    if is_tun {
        push_text(&mut args, "metric=0");
    }
    push_text(&mut args, "store=active");
    let r = CommandLine { program: "netsh".to_owned(), args };
    assert(r@.1 =~= add_route_args(fam, idx@, gateway@, is_tun));
    Ok(r)
}

/// `add_default_route` for IPv4.
pub fn add_default_ipv4_route(
    gateway: &str,
    interface: &str,
    is_tun: bool,
    tun_name: &str,
    iface_out: &str,
) -> (r: Result<CommandLine, NetError>)
    ensures
        command_result(r) == add_default_route_of(
            Family::V4,
            gateway@,
            interface@,
            is_tun,
            tun_name@,
            iface_out@,
        ),
{
    add_default_route(Family::V4, gateway, interface, is_tun, tun_name, iface_out)
}

/// `add_default_route` for IPv6.
pub fn add_default_ipv6_route(
    gateway: &str,
    interface: &str,
    is_tun: bool,
    tun_name: &str,
    iface_out: &str,
) -> (r: Result<CommandLine, NetError>)
    ensures
        command_result(r) == add_default_route_of(
            Family::V6,
            gateway@,
            interface@,
            is_tun,
            tun_name@,
            iface_out@,
        ),
{
    add_default_route(Family::V6, gateway, interface, is_tun, tun_name, iface_out)
}

pub open spec fn scope_view(scope: Option<&str>) -> Option<Seq<char>> {
    match scope {
        Some(s) => Some(s@),
        None => None,
    }
}

/// The command that deletes the default route of family `fam`: where `scope`
/// names an interface, the route through it (its index read from
/// `iface_out`, `NotFound` where it has no row of that name); else, with the
/// legacy route tool, whatever default route the system has.
pub fn delete_default_route(fam: Family, scope: Option<&str>, iface_out: &str) -> (r: Result<
    CommandLine,
    NetError,
>)
    ensures
        command_result(r) == delete_default_route_of(fam, scope_view(scope), iface_out@),
{
    let mut args: Vec<String> = Vec::new();
    match scope {
        Some(name) => {
            let idx = match get_interface_index(iface_out, name) {
                Ok(idx) => idx,
                Err(e) => {
                    return Err(e);
                },
            };
            push_text(&mut args, "interface");
            push_text(&mut args, family_word_text(fam));
            push_text(&mut args, "delete");
            push_text(&mut args, "route");
            push_text(&mut args, wildcard_text(fam));
            push_text(&mut args, "if");
            push_text(&mut args, idx.as_str());
            push_text(&mut args, "store=active");
            let r = CommandLine { program: "netsh".to_owned(), args };
            assert(r@.1 =~= delete_route_args(fam, idx@));
            Ok(r)
        },
        None => {
            push_text(&mut args, family_flag_text(fam));
            push_text(&mut args, "delete");
            push_text(&mut args, wildcard_text(fam));
            let r = CommandLine { program: "route".to_owned(), args };
            assert(r@.1 =~= seq![family_flag(fam), "delete"@, wildcard(fam)]);
            Ok(r)
        },
    }
}

/// `delete_default_route` for IPv4.
pub fn delete_default_ipv4_route(ifscope: Option<&str>, iface_out: &str) -> (r: Result<CommandLine, NetError>)
    ensures
        command_result(r) == delete_default_route_of(Family::V4, scope_view(ifscope), iface_out@),
{
    delete_default_route(Family::V4, ifscope, iface_out)
}

/// `delete_default_route` for IPv6.
pub fn delete_default_ipv6_route(ifscope: Option<&str>, iface_out: &str) -> (r: Result<CommandLine, NetError>)
    ensures
        command_result(r) == delete_default_route_of(Family::V6, scope_view(ifscope), iface_out@),
{
    delete_default_route(Family::V6, ifscope, iface_out)
}

} // verus!
