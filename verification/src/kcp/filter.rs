//! Which links are established.
use crate::text;
use vstd::prelude::*;

verus! {

/// KCP link filter method.
///
/// Controls which links are established between the local and remote endpoint.
#[derive(Debug, Clone, Copy, PartialEq, Eq, Structural)]
pub enum KcpLinkFilter {
    /// No link filtering: all combinations of local and remote addresses.
    NoFilter,
    /// One link for each pair of local interface and remote IP address, without
    /// link-local addresses. Of remote addresses that differ in the port only the
    /// first counts, and an interface with addresses of both IP versions uses one of
    /// each.
    InterfaceIp,
    /// One link for each pair of local interface name and remote address, without
    /// link-local addresses.
    InterfaceName,
}

impl Default for KcpLinkFilter {
    fn default() -> (filter: Self)
        ensures
            filter == KcpLinkFilter::NoFilter,
    {
        KcpLinkFilter::NoFilter
    }
}

/// The filter that a name on the command line stands for.
pub open spec fn filter_named(name: Seq<char>) -> Option<KcpLinkFilter> {
    if name == "none"@ {
        Some(KcpLinkFilter::NoFilter)
    } else if name == "iface-ip"@ {
        Some(KcpLinkFilter::InterfaceIp)
    } else if name == "iface-name"@ {
        Some(KcpLinkFilter::InterfaceName)
    } else {
        None
    }
}

/// Returns the filter that a name on the command line stands for.
pub fn parse_kcp_link_filter(name: &str) -> (filter: Option<KcpLinkFilter>)
    ensures
        filter == filter_named(name@),
{
    if text::same(name, "none") {
        Some(KcpLinkFilter::NoFilter)
    } else if text::same(name, "iface-ip") {
        Some(KcpLinkFilter::InterfaceIp)
    } else if text::same(name, "iface-name") {
        Some(KcpLinkFilter::InterfaceName)
    } else {
        None
    }
}

} // verus!
