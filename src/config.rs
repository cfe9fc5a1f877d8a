//! The gateway's settings, with their defaults.
use vstd::prelude::*;

verus! {

/// The port the gateway listens on when none is configured.
pub fn default_gateway_port() -> (r: u16)
    ensures
        r == 80,
{
    80
}

/// The port the management surface listens on when none is configured.
pub fn default_management_port() -> (r: u16)
    ensures
        r == 8080,
{
    8080
}

/// Settings read once at startup.
pub struct AppConfig {
    /// Allow-list patterns; an empty list allows no host.
    pub allow_domains: Vec<String>,
    /// The key served for the root path.
    pub root_object: Option<String>,
    /// The key appended to directory-like paths.
    pub subdir_root_object: Option<String>,
    /// The key a missing object redirects to, when that key exists.
    pub no_such_key_redirect_object: Option<String>,
    /// Serve buckets owned by other accounts too.
    pub allow_cross_account: bool,
    pub gateway_port: u16,
    pub management_port: u16,
}

impl AppConfig {
    /// Settings from the values that were given; an absent flag is false and
    /// an absent port takes its default.
    pub fn new(
        allow_domains: Vec<String>,
        root_object: Option<String>,
        subdir_root_object: Option<String>,
        no_such_key_redirect_object: Option<String>,
        allow_cross_account: Option<bool>,
        gateway_port: Option<u16>,
        management_port: Option<u16>,
    ) -> (r: AppConfig)
        ensures
            r.allow_domains == allow_domains,
            r.root_object == root_object,
            r.subdir_root_object == subdir_root_object,
            r.no_such_key_redirect_object == no_such_key_redirect_object,
            r.allow_cross_account == (allow_cross_account == Some(true)),
            r.gateway_port == match gateway_port {
                Some(p) => p,
                None => 80,
            },
            r.management_port == match management_port {
                Some(p) => p,
                None => 8080,
            },
    {
        let allow_cross_account = match allow_cross_account {
            Some(flag) => flag,
            None => false,
        };
        let gateway_port = match gateway_port {
            Some(p) => p,
            None => default_gateway_port(),
        };
        let management_port = match management_port {
            Some(p) => p,
            None => default_management_port(),
        };
        AppConfig {
            allow_domains,
            root_object,
            subdir_root_object,
            no_such_key_redirect_object,
            allow_cross_account,
            gateway_port,
            management_port,
        }
    }
}

} // verus!
