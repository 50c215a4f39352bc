//! `bmo web`.

use vstd::prelude::*;

use crate::text::{concat, concat3, decimal_text, unsigned_decimal};

verus! {

/// The arguments of `bmo web`: where to serve (7777 on 127.0.0.1 unless
/// given), and whether to leave the browser closed.
#[derive(Debug)]
pub struct WebArgs {
    pub port: u16,
    pub host: String,
    pub no_open: bool,
}

impl WebArgs {
    /// The address served on: `http://HOST:PORT`.
    pub fn url(&self) -> (r: String)
        ensures
            r@ == "http://"@ + self.host@ + ":"@ + decimal_text(self.port as int),
    {
        let p = unsigned_decimal(self.port as u64);
        let head = concat3("http://", self.host.as_str(), ":");
        concat(head.as_str(), p.as_str())
    }
}

} // verus!
