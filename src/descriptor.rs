//! The textual form of a channel: `stdio`, `udpin:PORT`, `udpout:IP:PORT`,
//! `tcpin:PORT` or `tcpin:ADDR`, and `tcpout:IP:PORT`.

use vstd::prelude::*;

verus! {

/// A channel as its descriptor string names it, before anything is opened.
pub enum ChannelSpec {
    /// The process's standard input and output, as one channel.
    Stdio,
    /// A UDP socket bound to `0.0.0.0` on the given port.
    UdpIn { port: u16 },
    /// A UDP socket on an ephemeral port, associated with the given address.
    UdpOut { target: String },
    /// A TCP listener on the given address, serving any number of peers.
    TcpIn { addr: String },
    /// A TCP listener on `0.0.0.0` at the given port, serving any number of peers.
    TcpInPort { port: u16 },
    /// A TCP connection to the given address.
    TcpOut { target: String },
}

/// The mathematical value of a [`ChannelSpec`]: strings become character sequences.
pub ghost enum ChannelSpecView {
    Stdio,
    UdpIn(u16),
    UdpOut(Seq<char>),
    TcpIn(Seq<char>),
    TcpInPort(u16),
    TcpOut(Seq<char>),
}

impl View for ChannelSpec {
    type V = ChannelSpecView;

    open spec fn view(&self) -> ChannelSpecView {
        match self {
            ChannelSpec::Stdio => ChannelSpecView::Stdio,
            ChannelSpec::UdpIn { port } => ChannelSpecView::UdpIn(*port),
            ChannelSpec::UdpOut { target } => ChannelSpecView::UdpOut(target@),
            ChannelSpec::TcpIn { addr } => ChannelSpecView::TcpIn(addr@),
            ChannelSpec::TcpInPort { port } => ChannelSpecView::TcpInPort(*port),
            ChannelSpec::TcpOut { target } => ChannelSpecView::TcpOut(target@),
        }
    }
}

/// Why a descriptor string names no channel.
#[derive(PartialEq, Eq, Structural, Clone, Copy, Debug)]
pub enum SpecError {
    /// Neither `stdio` nor of the form `kind:params`.
    MissingSeparator,
    /// The part before the first `:` is no known kind.
    UnknownKind,
    /// `udpin` with parameters that are no port number.
    InvalidPort,
}

impl SpecError {
    /// A message for the user.
    pub fn message(&self) -> (r: String)
        ensures
            *self == SpecError::MissingSeparator ==> r@ == "Invalid channel format: Missing ':'"@,
            *self == SpecError::UnknownKind ==> r@ == "Invalid channel type"@,
            *self == SpecError::InvalidPort ==> r@ == "Invalid channel params. Must be PORT"@,
    {
        match self {
            SpecError::MissingSeparator => String::from_str("Invalid channel format: Missing ':'"),
            SpecError::UnknownKind => String::from_str("Invalid channel type"),
            SpecError::InvalidPort => String::from_str("Invalid channel params. Must be PORT"),
        }
    }
}

pub open spec fn is_digit(c: char) -> bool {
    '0' <= c && c <= '9'
}

pub open spec fn digit_value(c: char) -> int {
    c as int - '0' as int
}

/// The number that a sequence of decimal digits writes, most significant first.
pub open spec fn digits_value(d: Seq<char>) -> int
    decreases d.len(),
{
    if d.len() == 0 {
        0
    } else {
        10 * digits_value(d.drop_last()) + digit_value(d.last())
    }
}

pub open spec fn all_digits(d: Seq<char>) -> bool {
    forall|i: int| 0 <= i < d.len() ==> is_digit(#[trigger] d[i])
}

/// The digits of a port number: what follows an optional leading `+`.
pub open spec fn unsigned_digits(p: Seq<char>) -> Seq<char> {
    if p.len() > 0 && p[0] == '+' {
        p.skip(1)
    } else {
        p
    }
}

/// A port written in decimal, as `u16`'s `FromStr` reads it: an optional
/// `+`, then at least one digit, with a value that fits in 16 bits.
pub open spec fn port_of(p: Seq<char>) -> Option<u16> {
    let d = unsigned_digits(p);
    if d.len() > 0 && all_digits(d) && digits_value(d) <= 0xffff {
        Some(digits_value(d) as u16)
    } else {
        None
    }
}

pub open spec fn is_first_colon(s: Seq<char>, i: int) -> bool {
    &&& 0 <= i < s.len()
    &&& s[i] == ':'
    &&& forall|j: int| 0 <= j < i ==> s[j] != ':'
}

pub open spec fn has_colon(s: Seq<char>) -> bool {
    exists|i: int| 0 <= i < s.len() && s[i] == ':'
}

/// The channel that a descriptor string names: `stdio` alone, or a kind and
/// its parameters on either side of the first `:`.
pub open spec fn spec_parse(s: Seq<char>) -> Result<ChannelSpecView, SpecError> {
    if s == "stdio"@ {
        Ok(ChannelSpecView::Stdio)
    } else if !has_colon(s) {
        Err(SpecError::MissingSeparator)
    } else {
        let i = choose|i: int| is_first_colon(s, i);
        let kind = s.take(i);
        let params = s.skip(i + 1);
        if kind == "udpin"@ {
            match port_of(params) {
                Some(port) => Ok(ChannelSpecView::UdpIn(port)),
                None => Err(SpecError::InvalidPort),
            }
        } else if kind == "udpout"@ {
            Ok(ChannelSpecView::UdpOut(params))
        } else if kind == "tcpin"@ {
            match port_of(params) {
                Some(port) => Ok(ChannelSpecView::TcpInPort(port)),
                None => Ok(ChannelSpecView::TcpIn(params)),
            }
        } else if kind == "tcpout"@ {
            Ok(ChannelSpecView::TcpOut(params))
        } else {
            Err(SpecError::UnknownKind)
        }
    }
}

pub open spec fn parse_result_view(r: Result<ChannelSpec, SpecError>) -> Result<ChannelSpecView, SpecError> {
    match r {
        Ok(c) => Ok(c@),
        Err(e) => Err(e),
    }
}

fn same_chars(a: &str, b: &str) -> (r: bool)
    ensures
        r == (a@ == b@),
{
    let n = a.unicode_len();
    if n != b.unicode_len() {
        return false;
    }
    let mut i: usize = 0;
    while i < n
        invariant
            n == a@.len(),
            n == b@.len(),
            i <= n,
            forall|j: int| 0 <= j < i ==> a@[j] == b@[j],
        decreases n - i,
    {
        if a.get_char(i) != b.get_char(i) {
            return false;
        }
        i = i + 1;
    }
    assert(a@ =~= b@);
    true
}

proof fn lemma_digits_value_nonneg(d: Seq<char>)
    requires
        all_digits(d),
    ensures
        digits_value(d) >= 0,
    decreases d.len(),
{
    if d.len() > 0 {
        assert(all_digits(d.drop_last()) && is_digit(d[d.len() - 1]));
        lemma_digits_value_nonneg(d.drop_last());
    }
}

proof fn lemma_digits_value_grows(d: Seq<char>, k: int)
    requires
        0 <= k <= d.len(),
        all_digits(d),
    ensures
        digits_value(d.take(k)) <= digits_value(d),
    decreases d.len() - k,
{
    if k < d.len() {
        lemma_digits_value_grows(d, k + 1);
        assert(d.take(k + 1).drop_last() =~= d.take(k));
        assert(d.take(k + 1).last() == d[k]);
        assert(is_digit(d[k]));
        assert(all_digits(d.take(k)));
        lemma_digits_value_nonneg(d.take(k));
    } else {
        assert(d.take(k) =~= d);
    }
}

/// Reads a port number as `u16`'s `FromStr` does.
pub fn parse_port(p: &str) -> (r: Option<u16>)
    ensures
        r == port_of(p@),
{
    let n = p.unicode_len();
    let mut i: usize = 0;
    if n > 0 && p.get_char(0) == '+' {
        i = 1;
    }
    let ghost d = unsigned_digits(p@);
    assert(d =~= p@.skip(i as int));
    if i == n {
        return None;
    }
    let mut value: u32 = 0;
    while i < n
        invariant
            n == p@.len(),
            d == unsigned_digits(p@),
            d =~= p@.skip((n - d.len()) as int),
            n - d.len() <= i <= n,
            all_digits(d.take(i - (n - d.len()))),
            value == digits_value(d.take(i - (n - d.len()))),
            value <= 0xffff,
        decreases n - i,
    {
        let ghost k: int = i - (n - d.len());
        let c = p.get_char(i);
        assert(c == d[k]);
        if c < '0' || c > '9' {
            assert(!is_digit(d[k]));
            return None;
        }
        let digit = (c as u32) - ('0' as u32);
        assert(d.take(k + 1).drop_last() =~= d.take(k));
        assert(all_digits(d.take(k + 1)));
        if value * 10 + digit > 0xffff {
            proof {
                if all_digits(d) {
                    lemma_digits_value_grows(d, k + 1);
                }
            }
            return None;
        }
        value = value * 10 + digit;
        i = i + 1;
    }
    assert(d.take(d.len() as int) =~= d);
    Some(value as u16)
}

/// Reads a channel descriptor string.
pub fn parse_channel_str(s: &str) -> (r: Result<ChannelSpec, SpecError>)
    ensures
        parse_result_view(r) == spec_parse(s@),
{
    if same_chars(s, "stdio") {
        return Ok(ChannelSpec::Stdio);
    }
    let n = s.unicode_len();
    let mut i: usize = 0;
    while i < n && s.get_char(i) != ':'
        invariant
            n == s@.len(),
            i <= n,
            forall|j: int| 0 <= j < i ==> s@[j] != ':',
        decreases n - i,
    {
        i = i + 1;
    }
    if i == n {
        return Err(SpecError::MissingSeparator);
    }
    assert(is_first_colon(s@, i as int));
    assert(has_colon(s@));
    proof {
        let c = choose|c: int| is_first_colon(s@, c);
        if c < i {
        } else if c > i {
            assert(s@[i as int] != ':');
        }
        assert(c == i);
    }
    let kind = s.substring_char(0, i);
    let params = s.substring_char(i + 1, n);
    assert(kind@ =~= s@.take(i as int));
    assert(params@ =~= s@.skip(i + 1));
    if same_chars(kind, "udpin") {
        match parse_port(params) {
            Some(port) => Ok(ChannelSpec::UdpIn { port }),
            None => Err(SpecError::InvalidPort),
        }
    } else if same_chars(kind, "udpout") {
        Ok(ChannelSpec::UdpOut { target: params.to_owned() })
    } else if same_chars(kind, "tcpin") {
        match parse_port(params) {
            Some(port) => Ok(ChannelSpec::TcpInPort { port }),
            None => Ok(ChannelSpec::TcpIn { addr: params.to_owned() }),
        }
    } else if same_chars(kind, "tcpout") {
        Ok(ChannelSpec::TcpOut { target: params.to_owned() })
    } else {
        Err(SpecError::UnknownKind)
    }
}

} // verus!
