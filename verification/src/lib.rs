//! Provisioning of an isolated network namespace per host route, and relaying of
//! DHCP traffic into it.
//!
//! The crate holds the decisions of the tool: how a routing table is read and
//! folded into one fact per interface, the subnet arithmetic, the ordered plan
//! of namespace operations and how their outcomes are judged, the parsing of a
//! workload command line, and the admission rule of the DHCP relay. Talking to
//! the kernel, to sockets and to child processes is left to the caller, which
//! performs the operations that the crate hands out and reports back what
//! happened.

pub mod network;
pub mod packet;
pub mod process;
pub mod route;
pub mod socket;
pub mod subnet;
pub mod text;

pub use crate::subnet::derive_peer_address;
pub use crate::subnet::mask_to_prefix;

use crate::network::{ContextView, NamespaceContext, Options, Progress, Provisioner};
use crate::process::{command_words, netns_dir, LaunchError, LaunchPlan, ProcessExecutor};
use crate::route::{entries, parse_table, Route, RouteInfo, RouteInfoMap};
use crate::subnet::{peer_address, prefix_len, Ipv4};
use crate::text::texts;
use vstd::arithmetic::power2::pow2;
use vstd::prelude::*;

verus! {

/// Reads the rows of a route table out of its lines. The first line is a
/// header and is not read; a line that does not hold a row is passed over.
pub fn new_route(lines: &Vec<String>) -> (routes: Vec<Route>)
    ensures
        entries(routes@) == parse_table(texts(lines@)),
{
    Route::new(lines)
}

/// A map that knows of no interface yet.
pub fn init_routeinfo_map() -> (map: RouteInfoMap)
    ensures
        map@ == Map::<Seq<char>, RouteInfo>::empty(),
{
    RouteInfoMap::new()
}

/// Sets out the provisioning of the namespace `ns_name` for one interface:
/// a pair of virtual links `link_name_new` and `link_name_host`, the second of
/// which goes into the namespace and gets the uplink address `ip`, while the
/// first stays outside and gets the peer address. The peer address is the
/// uplink address itself where `ip` is the first address of its block. The
/// operations are then handed out one by one by the `Provisioner`.
pub fn setup_ns(
    link_name_new: &str,
    link_name_host: &str,
    ns_name: &str,
    ip: Ipv4,
    route_info: &RouteInfo,
) -> (provisioner: Provisioner)
    requires
        route_info.is_full_spec(),
    ensures
        provisioner@ == Progress::start(provisioner.context@, Options::standard()),
        provisioner.context@ == (ContextView {
            ns_name: ns_name@,
            host_link: link_name_host@,
            new_link: link_name_new@,
            uplink_address: ip,
            peer_address: provisioner.context.peer_address,
            prefix: prefix_len(route_info.mask) as u8,
            gateway: route_info.gateway,
        }),
        provisioner.context.prefix == prefix_len(route_info.mask),
        provisioner.context.peer_address.bits() == peer_address(
            ip.bits(),
            prefix_len(route_info.mask),
        ),
        (provisioner.context.peer_address == ip) == (ip.bits() % pow2(
            (32 - prefix_len(route_info.mask)) as nat,
        ) == 1),
{
    let context = NamespaceContext::new(link_name_new, link_name_host, ns_name, ip, route_info);
    Provisioner::new(context, Options::default())
}

/// Reads the command line of a workload and says what is needed to start it
/// inside the namespace `netns_name`.
pub fn run_process(cmd: &str, netns_name: &str) -> (plan: Result<LaunchPlan, LaunchError>)
    ensures
        match plan {
            Ok(p) => {
                &&& command_words(cmd@).len() > 0
                &&& p.program@ == command_words(cmd@)[0]
                &&& texts(p.args@) == command_words(cmd@).drop_first()
                &&& p.ns_path@ == netns_dir() + netns_name@
            },
            Err(e) => e == LaunchError::EmptyCommand && command_words(cmd@).len() == 0,
        },
{
    match ProcessExecutor::new(cmd) {
        Ok(executor) => Ok(executor.run(netns_name)),
        Err(e) => Err(e),
    }
}

} // verus!
