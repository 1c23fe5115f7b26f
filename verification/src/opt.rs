//! The command-line surface: the mode the program runs in and its knobs.
//! Argument parsing itself happens outside the library and hands over a
//! value of this type.

use vstd::prelude::*;

verus! {

/// The selected mode of operation.
#[derive(Debug)]
pub enum Opt {
    /// Run the SSH-tunnel client.
    Client {
        /// Path of the configuration file.
        config: String,
    },
    /// Run the reverse-proxy server.
    Server {
        /// Path of the configuration file.
        config: String,
        /// Port to listen on.
        port: u16,
        /// Whether to terminate TLS on the listening socket.
        tls: bool,
    },
}

impl Opt {
    /// The configuration-file path, common to both modes.
    pub fn config_path(&self) -> (r: &String)
        ensures
            r@ == (match self {
                Opt::Client { config } => config@,
                Opt::Server { config, .. } => config@,
            }),
    {
        match self {
            Opt::Client { config } => config,
            Opt::Server { config, .. } => config,
        }
    }
}

} // verus!
