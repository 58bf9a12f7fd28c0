//! How the program is set up: its defaults, and where its certificates come from.
use vstd::prelude::*;

use crate::error::SetupError;

verus! {

/// The address that the proxy listens on unless it is told otherwise.
pub const DEFAULT_LISTEN: &'static str = "127.0.0.1:8000";

/// The upstream service unless the proxy is told otherwise.
pub const DEFAULT_UPSTREAM_BASE_URL: &'static str = "https://api.claudecode.store";

/// Where the certificate of the local service comes from.
pub enum TlsSource<P> {
    /// The user gave these files.
    Given { cert: P, key: P },
    /// The program makes its own.
    Local,
}

/// Where the certificate of the local service comes from, given the files that the user named.
/// Nothing comes back if only one of the two files was named: they go together.
pub fn tls_source<P>(cert: Option<P>, key: Option<P>) -> (res: Option<TlsSource<P>>)
    ensures
        match (cert, key) {
            (Some(cert), Some(key)) => res == Some(TlsSource::Given { cert, key }),
            (None, None) => res == Some(TlsSource::<P>::Local),
            _ => res is None,
        },
{
    match (cert, key) {
        (Some(cert), Some(key)) => Some(TlsSource::Given { cert, key }),
        (None, None) => Some(TlsSource::Local),
        _ => None,
    }
}

/// A family of operating systems.
pub enum Platform {
    Windows,
    Unix,
}

/// A directory: a path that the environment gives, and the path of the directory below it.
pub struct Location<P> {
    pub base: P,
    pub below: String,
}

/// Where the certificates are kept, given what the environment says of `LOCALAPPDATA`,
/// `XDG_CONFIG_HOME` and `HOME`.
pub fn default_directory<P>(
    platform: Platform,
    local_app_data: Option<P>,
    xdg_config_home: Option<P>,
    home: Option<P>,
) -> (res: Result<Location<P>, SetupError>)
    ensures
        match platform {
            Platform::Windows => match local_app_data {
                Some(base) => res matches Ok(location) && location.base == base
                    && location.below@ == "ccs-proxy/tls"@,
                None => res == Err::<Location<P>, _>(SetupError::MissingLocalAppData),
            },
            Platform::Unix => match (xdg_config_home, home) {
                (Some(base), _) => res matches Ok(location) && location.base == base
                    && location.below@ == "ccs-proxy/tls"@,
                (None, Some(base)) => res matches Ok(location) && location.base == base
                    && location.below@ == ".config/ccs-proxy/tls"@,
                (None, None) => res == Err::<Location<P>, _>(SetupError::MissingHome),
            },
        },
{
    match platform {
        Platform::Windows => match local_app_data {
            Some(base) => Ok(Location { base, below: "ccs-proxy/tls".to_owned() }),
            None => Err(SetupError::MissingLocalAppData),
        },
        Platform::Unix => match (xdg_config_home, home) {
            (Some(base), _) => Ok(Location { base, below: "ccs-proxy/tls".to_owned() }),
            (None, Some(base)) => Ok(Location { base, below: ".config/ccs-proxy/tls".to_owned() }),
            (None, None) => Err(SetupError::MissingHome),
        },
    }
}

} // verus!
