//! Promises on how the program is set up.
use vstd::prelude::*;

use crate::config::{
    default_directory, tls_source, Location, Platform, TlsSource, DEFAULT_LISTEN,
    DEFAULT_UPSTREAM_BASE_URL,
};
use crate::error::SetupError;

verus! {

/// The two files of a certificate are taken if both are named, in their own roles; without either
/// the program makes its own; one without the other is refused.
pub proof fn certificate_files_go_together<P>(
    cert: Option<P>,
    key: Option<P>,
    res: Option<TlsSource<P>>,
)
    requires
        call_ensures(tls_source::<P>, (cert, key), res),
    ensures
        res is None == (cert is Some != key is Some),
        cert is Some && key is Some ==> (res matches Some(TlsSource::Given { cert: c, key: k }) && c
            == cert->0 && k == key->0),
        cert is None && key is None ==> (res matches Some(source) && source is Local),
{
}

/// On Windows the certificates are kept below `LOCALAPPDATA`, whatever else the environment says,
/// and nowhere else.
pub proof fn windows_keeps_certificates_in_local_app_data<P>(
    local_app_data: Option<P>,
    xdg_config_home: Option<P>,
    home: Option<P>,
    res: Result<Location<P>, SetupError>,
)
    requires
        call_ensures(
            default_directory::<P>,
            (Platform::Windows, local_app_data, xdg_config_home, home),
            res,
        ),
    ensures
        res is Ok == local_app_data is Some,
        local_app_data matches Some(base) ==> (res matches Ok(location) && location.base == base
            && location.below@ == "ccs-proxy/tls"@),
        res matches Err(error) ==> error is MissingLocalAppData,
{
}

/// Elsewhere the certificates are kept below `XDG_CONFIG_HOME`, or below `.config` in the home
/// directory if that is not set.
pub proof fn unix_keeps_certificates_with_the_configuration<P>(
    local_app_data: Option<P>,
    xdg_config_home: Option<P>,
    home: Option<P>,
    res: Result<Location<P>, SetupError>,
)
    requires
        call_ensures(
            default_directory::<P>,
            (Platform::Unix, local_app_data, xdg_config_home, home),
            res,
        ),
    ensures
        res is Ok == (xdg_config_home is Some || home is Some),
        xdg_config_home matches Some(base) ==> (res matches Ok(location) && location.base == base
            && location.below@ == "ccs-proxy/tls"@),
        xdg_config_home is None ==> (home matches Some(base) ==> (res matches Ok(location)
            && location.base == base && location.below@ == ".config/ccs-proxy/tls"@)),
        res matches Err(error) ==> error is MissingHome,
{
}

/// What the program does unless it is told otherwise.
pub proof fn defaults_are_these()
    ensures
        DEFAULT_LISTEN@ == "127.0.0.1:8000"@,
        DEFAULT_UPSTREAM_BASE_URL@ == "https://api.claudecode.store"@,
{
}

} // verus!
