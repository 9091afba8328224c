//! What the proxy is set up with when it starts.

use crate::header::{line, Header, HeaderView};
use vstd::prelude::*;
use vstd::string::StringExecFns;

verus! {

/// The settings of a proxy: where it listens, where it sends requests, and
/// which headers it adds to every request it sends.
#[derive(Clone, Debug, PartialEq, Eq)]
pub struct ProxyConfig {
    /// The TCP port on the loopback address.
    pub listen_port: u16,
    /// Scheme and host of the upstream, with a base path if it has one.
    pub upstream_origin: String,
    /// The headers added to every upstream request, in this order.
    pub injected_headers: Vec<Header>,
}

/// The headers that the standard settings add to every upstream request.
pub open spec fn standard_injected_headers() -> Seq<HeaderView> {
    seq![
        line("x-pm-appversion"@, "web-drive@5.0.0"@),
        line("x-pm-apiversion"@, "3"@),
        line("Origin"@, "https://drive.proton.me"@),
        line("Referer"@, "https://drive.proton.me/"@),
    ]
}

impl ProxyConfig {
    /// The standard settings.
    pub fn standard() -> (config: ProxyConfig)
        ensures
            config.listen_port == 9543,
            config.upstream_origin@ == "https://mail.proton.me"@,
            config.injected_headers.deep_view() == standard_injected_headers(),
    {
        let mut injected: Vec<Header> = Vec::new();
        injected.push(Header::new("x-pm-appversion", "web-drive@5.0.0"));
        injected.push(Header::new("x-pm-apiversion", "3"));
        injected.push(Header::new("Origin", "https://drive.proton.me"));
        injected.push(Header::new("Referer", "https://drive.proton.me/"));
        assert(injected.deep_view() =~= standard_injected_headers());
        ProxyConfig {
            listen_port: 9543,
            upstream_origin: String::from_str("https://mail.proton.me"),
            injected_headers: injected,
        }
    }
}

} // verus!
