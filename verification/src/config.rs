//! Session configuration: immutable bounds and identity for one
//! notarization session, together with the invariant that the bounds
//! declared to the notary equal the bounds configured into the protocol
//! engine, and the parsing of the notary port from its environment text.

use vstd::prelude::*;
use vstd::string::StringSliceAdditionalSpecFns;

verus! {

/// Maximum number of bytes the prover may send to the server.
pub const MAX_SENT_DATA: usize = 1024;

/// Maximum number of bytes the prover may receive from the server.
pub const MAX_RECV_DATA: usize = 4096;

/// Port of the application server the prover talks to.
pub const SERVER_PORT: u16 = 3000;

/// Notary port used when the environment gives none.
pub const DEFAULT_NOTARY_PORT: u16 = 7047;

/// Number of concurrent workers in the pool.
pub const WORKER_COUNT: usize = 16;

/// Number of iterations each worker runs.
pub const ITERATIONS_PER_WORKER: u16 = 500;

/// TLS name of the application server.
pub fn server_domain() -> (r: &'static str)
    ensures
        r@ == "test-server.io"@,
{
    "test-server.io"
}

/// Host the application server is reached at.
pub fn server_host() -> (r: &'static str)
    ensures
        r@ == "127.0.0.1"@,
{
    "127.0.0.1"
}

/// Notary host used when the environment gives none.
pub fn default_notary_host() -> (r: &'static str)
    ensures
        r@ == "127.0.0.1"@,
{
    "127.0.0.1"
}

/// Path of the one request every iteration sends.
pub fn request_uri() -> (r: &'static str)
    ensures
        r@ == "/formats/json"@,
{
    "/formats/json"
}

/// User agent header value of the fixed request.
pub fn user_agent() -> (r: &'static str)
    ensures
        r@ == "Mozilla/5.0 (X11; Linux x86_64) AppleWebKit/537.36 (KHTML, like Gecko) Chrome/114.0.0.0 Safari/537.36"@,
{
    "Mozilla/5.0 (X11; Linux x86_64) AppleWebKit/537.36 (KHTML, like Gecko) Chrome/114.0.0.0 Safari/537.36"
}

/// Size bounds on one session: how many bytes the prover may send to and
/// receive from the server.
#[derive(Clone, Copy, PartialEq, Eq, Structural, Debug)]
pub struct Bounds {
    pub max_sent: usize,
    pub max_recv: usize,
}

/// Errors that abort startup before any worker is spawned.
#[derive(Clone, Copy, PartialEq, Eq, Structural, Debug)]
pub enum ConfigError {
    /// The notary port text does not parse as an unsigned 16-bit integer.
    InvalidPort,
    /// The bounds declared to the notary differ from the bounds configured
    /// into the protocol engine.
    BoundsMismatch,
}

/// Immutable configuration of one notarization session.
///
/// `request_bounds` is what the notarization request declares to the notary;
/// `protocol_bounds` is what the protocol engine is configured with.  The two
/// must be equal: a session is only ever driven from a configuration for
/// which [`SessionConfig::bounds_consistent`] holds.
#[derive(Clone)]
pub struct SessionConfig {
    pub notary_host: String,
    pub notary_port: u16,
    pub use_tls_to_notary: bool,
    pub server_name: String,
    pub server_host: String,
    pub server_port: u16,
    pub request_bounds: Bounds,
    pub protocol_bounds: Bounds,
}

impl SessionConfig {
    /// The bound invariant: what is declared to the notary is what the
    /// protocol engine enforces.
    pub open spec fn bounds_consistent(self) -> bool {
        self.request_bounds == self.protocol_bounds
    }
}

/// Whether a byte is an ASCII decimal digit.
pub open spec fn is_digit_byte(b: u8) -> bool {
    48 <= b && b <= 57
}

/// Numeric value of an ASCII decimal digit byte.
pub open spec fn digit_val(b: u8) -> int {
    b - 48
}

/// Whether every byte of `s` is an ASCII decimal digit.
pub open spec fn all_digit_bytes(s: Seq<u8>) -> bool {
    forall|i: int| 0 <= i < s.len() ==> is_digit_byte(#[trigger] s[i])
}

/// Value of a sequence of ASCII decimal digit bytes read as a base-10
/// number.
pub open spec fn digits_val(s: Seq<u8>) -> int
    decreases s.len(),
{
    if s.len() == 0 {
        0
    } else {
        10 * digits_val(s.drop_last()) + digit_val(s.last())
    }
}

/// The digit part of a port text: what follows an optional leading `+`.
pub open spec fn port_digits(s: Seq<u8>) -> Seq<u8> {
    if s.len() > 0 && s[0] == 43 {
        s.subrange(1, s.len() as int)
    } else {
        s
    }
}

/// What parsing a port from UTF-8 text yields: an optional leading `+`,
/// then one or more decimal digits whose value fits in 16 bits; anything
/// else is rejected.
pub open spec fn spec_parse_port(s: Seq<u8>) -> Option<u16> {
    let d = port_digits(s);
    if d.len() > 0 && all_digit_bytes(d) && digits_val(d) <= 65535 {
        Some(digits_val(d) as u16)
    } else {
        None
    }
}

proof fn lemma_digits_val_nonneg(s: Seq<u8>)
    requires
        all_digit_bytes(s),
    ensures
        digits_val(s) >= 0,
    decreases s.len(),
{
    if s.len() > 0 {
        assert(all_digit_bytes(s.drop_last()));
        lemma_digits_val_nonneg(s.drop_last());
    }
}

/// The value of a digit string is at least the value of any of its
/// prefixes: once a prefix overflows 16 bits, the whole string does.
proof fn lemma_digits_val_prefix(s: Seq<u8>, k: int)
    requires
        all_digit_bytes(s),
        0 <= k <= s.len(),
    ensures
        digits_val(s) >= digits_val(s.take(k)),
    decreases s.len(),
{
    lemma_digits_val_nonneg(s);
    if k == s.len() {
        assert(s.take(k) =~= s);
    } else {
        assert(all_digit_bytes(s.drop_last()));
        assert(s.drop_last().take(k) =~= s.take(k));
        lemma_digits_val_prefix(s.drop_last(), k);
        lemma_digits_val_nonneg(s.drop_last());
    }
}

/// Parses a port number from the raw bytes of its textual form.
pub fn parse_port_bytes(s: &[u8]) -> (r: Option<u16>)
    ensures
        r == spec_parse_port(s@),
{
    let n = s.len();
    let mut start: usize = 0;
    if n > 0 && s[0] == 43 {
        start = 1;
    }
    let ghost d = port_digits(s@);
    assert(d =~= s@.subrange(start as int, s@.len() as int));
    if start >= n {
        return None;
    }
    let mut acc: u32 = 0;
    let mut i: usize = start;
    while i < n
        invariant
            start <= i <= n,
            n == s@.len(),
            d == port_digits(s@),
            d == s@.subrange(start as int, n as int),
            all_digit_bytes(d.take(i - start)),
            acc == digits_val(d.take(i - start)),
            acc <= 65535,
        decreases n - i,
    {
        let b = s[i];
        assert(d[i - start] == b);
        if b < 48 || b > 57 {
            assert(!is_digit_byte(d[i - start]));
            assert(!all_digit_bytes(d));
            return None;
        }
        assert(d.take(i - start + 1).drop_last() =~= d.take(i - start));
        assert(d.take(i - start + 1).last() == b);
        acc = acc * 10 + (b - 48) as u32;
        i = i + 1;
        assert(all_digit_bytes(d.take(i - start)));
        if acc > 65535 {
            proof {
                if all_digit_bytes(d) {
                    lemma_digits_val_prefix(d, i - start);
                    assert(digits_val(d) > 65535);
                }
                assert(spec_parse_port(s@) is None);
            }
            return None;
        }
    }
    assert(d.take(n - start) =~= d);
    Some(acc as u16)
}

/// Parses the notary port from its environment text.
pub fn parse_port(s: &str) -> (r: Option<u16>)
    ensures
        r == spec_parse_port(s.spec_bytes()),
{
    parse_port_bytes(s.as_bytes())
}

/// Builds the session configuration from the environment values the caller
/// read: `host` is the notary host if the environment names one, and
/// `port_text` the raw notary port text if the environment names one.
///
/// Fails exactly when a port text is present and does not parse; the
/// resulting configuration always satisfies the bound invariant.
pub fn config_from_env(host: Option<String>, port_text: Option<&str>) -> (r: Result<
    SessionConfig,
    ConfigError,
>)
    ensures
        r is Ok <==> (match port_text {
            Some(t) => spec_parse_port(t.spec_bytes()) is Some,
            None => true,
        }),
        r is Err ==> r->Err_0 == ConfigError::InvalidPort,
        r matches Ok(c) ==> {
            &&& c.bounds_consistent()
            &&& c.request_bounds == Bounds { max_sent: MAX_SENT_DATA, max_recv: MAX_RECV_DATA }
            &&& c.notary_port == (match port_text {
                Some(t) => spec_parse_port(t.spec_bytes())->Some_0,
                None => DEFAULT_NOTARY_PORT,
            })
            &&& c.notary_host@ == (match host {
                Some(h) => h@,
                None => "127.0.0.1"@,
            })
            &&& c.server_name@ == "test-server.io"@
            &&& c.server_host@ == "127.0.0.1"@
            &&& c.server_port == SERVER_PORT
            &&& !c.use_tls_to_notary
        },
{
    let notary_port: u16 = match port_text {
        Some(t) => match parse_port(t) {
            Some(p) => p,
            None => {
                return Err(ConfigError::InvalidPort);
            },
        },
        None => DEFAULT_NOTARY_PORT,
    };
    let notary_host: String = match host {
        Some(h) => h,
        None => default_notary_host().to_owned(),
    };
    Ok(
        SessionConfig {
            notary_host,
            notary_port,
            use_tls_to_notary: false,
            server_name: server_domain().to_owned(),
            server_host: server_host().to_owned(),
            server_port: SERVER_PORT,
            request_bounds: Bounds { max_sent: MAX_SENT_DATA, max_recv: MAX_RECV_DATA },
            protocol_bounds: Bounds { max_sent: MAX_SENT_DATA, max_recv: MAX_RECV_DATA },
        },
    )
}

/// Checks the bound invariant of an arbitrary configuration: accepted
/// exactly when the bounds declared to the notary equal the bounds
/// configured into the protocol engine.
pub fn check_bounds(cfg: &SessionConfig) -> (r: Result<(), ConfigError>)
    ensures
        r is Ok <==> cfg.bounds_consistent(),
        r is Err ==> r->Err_0 == ConfigError::BoundsMismatch,
{
    if cfg.request_bounds.max_sent == cfg.protocol_bounds.max_sent
        && cfg.request_bounds.max_recv == cfg.protocol_bounds.max_recv {
        Ok(())
    } else {
        Err(ConfigError::BoundsMismatch)
    }
}

} // verus!
