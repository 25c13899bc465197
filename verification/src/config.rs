//! The settings of a session, as their supplier hands them over.

use vstd::prelude::*;
use vstd::string::{StrSliceExecFns, StringExecFns};

verus! {

/// Settings of the program around the session.
#[derive(Debug, Clone)]
pub struct ApplicationConfig {
    pub log_level: String,
}

/// Where the server is and how to reach it.
#[derive(Debug, Clone)]
pub struct SeverConfig {
    pub address: String,
    pub port: i64,
    pub ssl_tls: bool,
    pub ssl_verify_mode: bool,
}

/// Who logs in and which channels are joined.
#[derive(Debug, Clone)]
pub struct UserConfig {
    pub token: String,
    pub nickname: String,
    pub main_channel: String,
    pub channels: Vec<String>,
}

/// All settings of a session.
#[derive(Debug, Clone)]
pub struct Config {
    pub application: ApplicationConfig,
    pub sever: SeverConfig,
    pub user: UserConfig,
}

/// The character that writes the digit `d`.
pub open spec fn digit(d: int) -> char {
    "0123456789"@[d]
}

/// The decimal numeral of `n`, without leading zeros.
pub open spec fn digits(n: nat) -> Seq<char>
    decreases n,
{
    if n < 10 {
        seq![digit(n as int)]
    } else {
        digits(n / 10) + seq![digit((n % 10) as int)]
    }
}

/// The decimal numeral of `n`, with `-` in front of a negative number.
pub open spec fn decimal(n: int) -> Seq<char> {
    if n < 0 {
        seq!['-'] + digits((-n) as nat)
    } else {
        digits(n as nat)
    }
}

/// Writes `n` in decimal.
fn digits_text(n: u64) -> (r: String)
    ensures
        r@ == digits(n as nat),
    decreases n,
{
    proof {
        reveal_strlit("0123456789");
    }
    if n < 10 {
        let d: usize = n as usize;
        let r = "0123456789".substring_char(d, d + 1).to_owned();
        assert(r@ =~= seq![digit(n as int)]);
        r
    } else {
        let mut r = digits_text(n / 10);
        let d: usize = (n % 10) as usize;
        let last = "0123456789".substring_char(d, d + 1);
        assert(last@ =~= seq![digit((n % 10) as int)]);
        r.append(last);
        r
    }
}

/// Writes `n` in decimal, with `-` in front of a negative number.
pub fn decimal_text(n: i64) -> (r: String)
    ensures
        r@ == decimal(n as int),
{
    if n < 0 {
        let magnitude: u64 = if n == i64::MIN {
            9223372036854775808u64
        } else {
            (-n) as u64
        };
        proof {
            reveal_strlit("-");
            assert("-"@ =~= seq!['-']);
        }
        let mut r = String::from_str("-");
        r.append(digits_text(magnitude).as_str());
        r
    } else {
        digits_text(n as u64)
    }
}

/// How the transport of a session is set up.
#[derive(Clone, Copy, Debug, PartialEq, Eq, Structural)]
pub enum TransportMode {
    /// The plain byte stream.
    Clear,
    /// An encrypted session whose peer proves who it is.
    Encrypted,
    /// An encrypted session that accepts any peer: for tests against
    /// endpoints with certificates of their own making.
    EncryptedUnverified,
}

impl SeverConfig {
    /// The transport that these settings ask for. Whether the peer is
    /// verified matters only where the session is encrypted.
    pub open spec fn mode(&self) -> TransportMode {
        if !self.ssl_tls {
            TransportMode::Clear
        } else if self.ssl_verify_mode {
            TransportMode::Encrypted
        } else {
            TransportMode::EncryptedUnverified
        }
    }

    /// The transport that these settings ask for.
    pub fn transport_mode(&self) -> (r: TransportMode)
        ensures
            r == self.mode(),
    {
        if !self.ssl_tls {
            TransportMode::Clear
        } else if self.ssl_verify_mode {
            TransportMode::Encrypted
        } else {
            TransportMode::EncryptedUnverified
        }
    }

    /// The address to connect to: the host, `:`, and the port in decimal.
    pub fn endpoint(&self) -> (r: String)
        ensures
            r@ == self.address@ + ":"@ + decimal(self.port as int),
    {
        let port = decimal_text(self.port);
        let mut r = String::from_str(self.address.as_str());
        r.append(":");
        r.append(port.as_str());
        r
    }
}

/// The host name that the server's certificate is held against.
pub fn tls_host() -> (r: &'static str)
    ensures
        r@ == "irc.chat.twitch.tv"@,
{
    "irc.chat.twitch.tv"
}

} // verus!
