//! Configuration of a session.
use crate::text;
use crate::time;
use crate::time::Nanos;
use vstd::prelude::*;

verus! {

/// A fraction, as the bits of an IEEE 754 double.
#[derive(Debug, Clone, Copy, PartialEq, Eq, Structural)]
pub struct Ratio {
    pub bits: u64,
}

/// The bits of one.
pub const ONE_BITS: u64 = 0x3ff0_0000_0000_0000;

/// The bits of zero with a minus sign.
pub const MINUS_ZERO_BITS: u64 = 0x8000_0000_0000_0000;

/// The bits of the double nearest to one fifth.
pub const ONE_FIFTH_BITS: u64 = 0x3fc9_9999_9999_999a;

/// The bits of the double nearest to two fifths.
pub const TWO_FIFTHS_BITS: u64 = 0x3fd9_9999_9999_999a;

/// From zero to one. Doubles without a sign are ordered as their bits are, and
/// those with one are negative but for zero.
pub open spec fn in_unit(r: Ratio) -> bool {
    r.bits <= ONE_BITS || r.bits == MINUS_ZERO_BITS
}

/// Orders the fractions from zero to one.
pub open spec fn rank(r: Ratio) -> u64 {
    if r.bits == MINUS_ZERO_BITS {
        0
    } else {
        r.bits
    }
}

impl Ratio {
    /// The fraction lies between zero and one.
    fn is_in_unit(self) -> (b: bool)
        ensures
            b == in_unit(self),
    {
        self.bits <= ONE_BITS || self.bits == MINUS_ZERO_BITS
    }

    /// Orders the fractions from zero to one.
    fn rank_of(self) -> (n: u64)
        ensures
            n == rank(self),
    {
        if self.bits == MINUS_ZERO_BITS {
            0
        } else {
            self.bits
        }
    }
}

/// Configuration of a session.
#[derive(Debug, Clone)]
pub struct ConnectionConfig {
    pub host: String,
    pub port: u16,
    /// First line of the handshake. Empty if not contracted.
    pub software_key: String,
    pub username: String,
    pub password: String,
    /// Size of the kernel's receive buffer in bytes.
    pub so_rcvbuf: usize,
    /// How many frames may wait between the reader and the parsers.
    pub frame_channel_capacity: usize,
    /// How long each step of the handshake may take.
    pub handshake_timeout: Nanos,
    /// Core to pin the reader thread to.
    pub reader_cpu_affinity: Option<usize>,
    /// Core to pin the watchdog thread to.
    pub watchdog_cpu_affinity: Option<usize>,
    /// How often the watchdog looks at the receive buffer.
    pub watchdog_interval: Nanos,
    /// Share of the receive buffer above which the watchdog warns.
    pub backpressure_warn_ratio: Ratio,
    /// Share above which the session should end itself.
    pub backpressure_panic_ratio: Ratio,
}

/// What is wrong with a configuration: the first objection.
pub open spec fn objection(c: ConnectionConfig) -> Option<&'static str> {
    if c.host@.len() == 0 {
        Some("host is empty")
    } else if c.so_rcvbuf < 1024 {
        Some("so_rcvbuf is unreasonably small")
    } else if c.frame_channel_capacity == 0 {
        Some("frame_channel_capacity must be > 0")
    } else if !in_unit(c.backpressure_warn_ratio) {
        Some("backpressure_warn_ratio must be in [0,1]")
    } else if !in_unit(c.backpressure_panic_ratio) {
        Some("backpressure_panic_ratio must be in [0,1]")
    } else if rank(c.backpressure_panic_ratio) <= rank(c.backpressure_warn_ratio) {
        Some("panic ratio must exceed warn ratio")
    } else {
        None
    }
}

impl ConnectionConfig {
    /// The configuration for production, to be adapted field by field.
    pub fn new(host: String, username: String, password: String) -> (r: Self)
        ensures
            r.host == host,
            r.port == 81,
            r.software_key@.len() == 0,
            r.username == username,
            r.password == password,
            r.so_rcvbuf == 128 * 1024 * 1024,
            r.frame_channel_capacity == 2 * 1024 * 1024,
            r.handshake_timeout == 10 * time::SECOND,
            r.reader_cpu_affinity is None,
            r.watchdog_cpu_affinity is None,
            r.watchdog_interval == 100 * time::MILLISECOND,
            r.backpressure_warn_ratio.bits == ONE_FIFTH_BITS,
            r.backpressure_panic_ratio.bits == TWO_FIFTHS_BITS,
    {
        ConnectionConfig {
            host,
            port: 81,
            software_key: String::new(),
            username,
            password,
            so_rcvbuf: 128 * 1024 * 1024,
            frame_channel_capacity: 2 * 1024 * 1024,
            handshake_timeout: 10 * time::SECOND,
            reader_cpu_affinity: None,
            watchdog_cpu_affinity: None,
            watchdog_interval: 100 * time::MILLISECOND,
            backpressure_warn_ratio: Ratio { bits: ONE_FIFTH_BITS },
            backpressure_panic_ratio: Ratio { bits: TWO_FIFTHS_BITS },
        }
    }

    /// Host and port with a colon between them.
    pub fn addr(&self) -> (r: String)
        ensures
            r@ == self.host@ + ":"@ + text::decimal(self.port as nat),
    {
        let mut out: String = self.host.clone();
        out.append(":");
        text::push_decimal(&mut out, self.port as u64);
        out
    }

    /// Whether the configuration makes sense, and the first objection if not.
    pub fn validate(&self) -> (r: Result<(), &'static str>)
        ensures
            match r {
                Ok(_) => objection(*self) is None,
                Err(e) => objection(*self) == Some(e),
            },
    {
        if self.host.as_str().unicode_len() == 0 {
            return Err("host is empty");
        }
        if self.so_rcvbuf < 1024 {
            return Err("so_rcvbuf is unreasonably small");
        }
        if self.frame_channel_capacity == 0 {
            return Err("frame_channel_capacity must be > 0");
        }
        if !self.backpressure_warn_ratio.is_in_unit() {
            return Err("backpressure_warn_ratio must be in [0,1]");
        }
        if !self.backpressure_panic_ratio.is_in_unit() {
            return Err("backpressure_panic_ratio must be in [0,1]");
        }
        if self.backpressure_panic_ratio.rank_of() <= self.backpressure_warn_ratio.rank_of() {
            return Err("panic ratio must exceed warn ratio");
        }
        Ok(())
    }
}

/// The configuration for production is valid for every host that has a name.
pub proof fn law_defaults_validate(c: ConnectionConfig)
    requires
        c.host@.len() > 0,
        c.so_rcvbuf == 128 * 1024 * 1024,
        c.frame_channel_capacity == 2 * 1024 * 1024,
        c.backpressure_warn_ratio.bits == ONE_FIFTH_BITS,
        c.backpressure_panic_ratio.bits == TWO_FIFTHS_BITS,
    ensures
        objection(c) is None,
{
}

/// What a configuration is refused for, in this order: an empty host, a receive
/// buffer below 1024 bytes, no room for frames, a share that is not between zero
/// and one, and a share to end at that is not above the share to warn at.
pub proof fn law_what_is_refused(c: ConnectionConfig)
    requires
        c.backpressure_warn_ratio.bits <= 0x3ff0_0000_0000_0000,
        c.backpressure_panic_ratio.bits <= 0x3ff0_0000_0000_0000,
    ensures
        objection(c) is None <==> c.host@.len() > 0 && c.so_rcvbuf >= 1024
            && c.frame_channel_capacity > 0 && c.backpressure_panic_ratio.bits
            > c.backpressure_warn_ratio.bits,
        c.host@.len() == 0 ==> objection(c) == Some("host is empty"),
        c.host@.len() > 0 && c.so_rcvbuf < 1024 ==> objection(c) == Some(
            "so_rcvbuf is unreasonably small",
        ),
        c.host@.len() > 0 && c.so_rcvbuf >= 1024 && c.frame_channel_capacity == 0 ==> objection(c)
            == Some("frame_channel_capacity must be > 0"),
        c.host@.len() > 0 && c.so_rcvbuf >= 1024 && c.frame_channel_capacity > 0
            && c.backpressure_panic_ratio.bits <= c.backpressure_warn_ratio.bits ==> objection(c)
            == Some("panic ratio must exceed warn ratio"),
{
}

/// A share is refused above one and below zero, and where it is no number.
pub proof fn law_shares_are_between_zero_and_one(c: ConnectionConfig, r: Ratio)
    requires
        c.host@.len() > 0,
        c.so_rcvbuf >= 1024,
        c.frame_channel_capacity > 0,
    ensures
        in_unit(r) <==> r.bits <= 0x3ff0_0000_0000_0000 || r.bits == 0x8000_0000_0000_0000,
        rank(Ratio { bits: 0x8000_0000_0000_0000 }) == 0,
        r.bits < 0x8000_0000_0000_0000 ==> rank(r) == r.bits,
        !in_unit(c.backpressure_warn_ratio) ==> objection(c) == Some(
            "backpressure_warn_ratio must be in [0,1]",
        ),
        in_unit(c.backpressure_warn_ratio) && !in_unit(c.backpressure_panic_ratio) ==> objection(c)
            == Some("backpressure_panic_ratio must be in [0,1]"),
{
}

/// The shares by default: a fifth and two fifths, in double precision.
pub proof fn law_default_shares()
    ensures
        ONE_FIFTH_BITS == 0x3fc9_9999_9999_999a,
        TWO_FIFTHS_BITS == 0x3fd9_9999_9999_999a,
{
}

/// A new configuration keeps host, name and password apart and fills in the
/// rest; the address is host and port with a colon between.
pub proof fn law_new_configuration(
    host: String,
    username: String,
    password: String,
    c: ConnectionConfig,
    address: String,
)
    requires
        call_ensures(ConnectionConfig::new, (host, username, password), c),
        call_ensures(ConnectionConfig::addr, (&c,), address),
    ensures
        c.host == host && c.username == username && c.password == password,
        c.port == 81,
        c.software_key@.len() == 0,
        c.so_rcvbuf == 134217728,
        c.frame_channel_capacity == 2097152,
        c.handshake_timeout == 10_000_000_000,
        c.watchdog_interval == 100_000_000,
        c.reader_cpu_affinity is None && c.watchdog_cpu_affinity is None,
        c.backpressure_warn_ratio.bits == 0x3fc9_9999_9999_999a,
        c.backpressure_panic_ratio.bits == 0x3fd9_9999_9999_999a,
        address@ == host@ + ":81"@,
{
    reveal_strlit(":");
    reveal_strlit(":81");
    text::law_decimal_has_no_leading_zero(8, 1);
    text::law_decimal_has_no_leading_zero(0, 8);
    assert(text::decimal(81) =~= seq!['8', '1']);
    assert(host@ + ":"@ + text::decimal(81) =~= host@ + ":81"@);
}

/// A configuration is in order exactly when nothing is held against it.
pub proof fn law_configurations_are_validated(c: ConnectionConfig, r: Result<(), &'static str>)
    requires
        call_ensures(ConnectionConfig::validate, (&c,), r),
    ensures
        r is Ok <==> objection(c) is None,
        r matches Err(e) ==> objection(c) == Some(e),
{
}

} // verus!
