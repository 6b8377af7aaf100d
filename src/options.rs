use vstd::prelude::*;

verus! {

/// Command-line options of the relay.
pub struct Opts {
    /// The JSON configuration file listing the streams.
    pub config: String,
    /// The RTP transport to request, `tcp` or `udp`; the RTSP library's
    /// default when absent.
    pub transport: Option<String>,
    /// The PEM certificate chain for TLS.
    pub cert: Option<String>,
    /// The PEM private key for TLS.
    pub key: Option<String>,
    /// The HTTP port.
    pub port: u16,
}

/// The port served when none is given.
pub const DEFAULT_PORT: u16 = 8080;

impl Opts {
    /// The certificate and key files, when both are given: TLS is on exactly
    /// then.
    pub fn tls_files(&self) -> (r: Option<(&String, &String)>)
        ensures
            match r {
                Some((c, k)) => self.cert == Some(*c) && self.key == Some(*k),
                None => self.cert is None || self.key is None,
            },
    {
        match (&self.cert, &self.key) {
            (Some(c), Some(k)) => Some((c, k)),
            _ => None,
        }
    }
}

} // verus!
