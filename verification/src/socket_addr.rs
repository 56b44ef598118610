//! Network addresses written as `scheme://body`: the scheme selects the
//! protocol (`tcp`, `tcp4`, `tcp6`, `udp`, `udp4`, `udp6` or `unix`) and the
//! body names the endpoint.

use vstd::prelude::*;

verus! {

/// The transport protocol of an address.
#[derive(Debug, Clone, Copy, PartialEq, Eq, Structural)]
pub enum Protocol {
    Tcp,
    Udp,
    Unix,
}

/// The endpoint an address names, as text: for TCP and UDP a `host:port`
/// string in the form a socket address is parsed from, for Unix sockets a path.
#[derive(Debug, Clone, PartialEq, Eq)]
pub enum AddressSpec {
    Tcp(String),
    Udp(String),
    Unix(String),
}

/// An endpoint whose IP socket address has been parsed into an `A`.
#[derive(Debug, Clone, PartialEq, Eq)]
pub enum NetworkAddress<A> {
    Tcp(A),
    Udp(A),
    Unix(String),
}

/// Why an address was refused.
#[derive(Debug, Clone, PartialEq, Eq)]
pub enum AddressError {
    /// There is no `://` in the address.
    MissingSeparator,
    /// Nothing follows the first `://`.
    EmptyBody,
    /// The scheme names no supported protocol.
    UnsupportedProtocol(String),
    /// The body of a TCP or UDP address is no socket address; the text says why.
    InvalidAddress(Protocol, String),
}

/// `://` starts at position `i` of `s`.
pub open spec fn is_separator_at(s: Seq<char>, i: int) -> bool {
    &&& 0 <= i
    &&& i + 3 <= s.len()
    &&& s[i] == ':'
    &&& s[i + 1] == '/'
    &&& s[i + 2] == '/'
}

/// The first position at or after `i` where `://` starts.
pub open spec fn separator_from(s: Seq<char>, i: nat) -> Option<int>
    decreases s.len() - i,
{
    if i + 3 > s.len() {
        None
    } else if is_separator_at(s, i as int) {
        Some(i as int)
    } else {
        separator_from(s, i + 1)
    }
}

/// The position of the first `://` in `s`.
pub open spec fn first_separator(s: Seq<char>) -> Option<int> {
    separator_from(s, 0)
}

/// The schemes that select TCP.
pub open spec fn is_tcp_scheme(p: Seq<char>) -> bool {
    ||| p == seq!['t', 'c', 'p']
    ||| p == seq!['t', 'c', 'p', '4']
    ||| p == seq!['t', 'c', 'p', '6']
}

/// The schemes that select UDP.
pub open spec fn is_udp_scheme(p: Seq<char>) -> bool {
    ||| p == seq!['u', 'd', 'p']
    ||| p == seq!['u', 'd', 'p', '4']
    ||| p == seq!['u', 'd', 'p', '6']
}

/// The scheme that selects Unix domain sockets.
pub open spec fn is_unix_scheme(p: Seq<char>) -> bool {
    p == seq!['u', 'n', 'i', 'x']
}

/// The host put in front of a TCP body that starts with `:` (only a port).
pub open spec fn wildcard_host() -> Seq<char> {
    seq!['0', '.', '0', '.', '0', '.', '0']
}

/// The socket address text for a TCP or UDP body: a body that gives only a
/// port is bound to all IPv4 interfaces.
pub open spec fn inet_target(body: Seq<char>) -> Seq<char> {
    if body.len() > 0 && body[0] == ':' {
        wildcard_host() + body
    } else {
        body
    }
}

/// `r` is what parsing `s` gives.
pub open spec fn parsed_as(s: Seq<char>, r: Result<AddressSpec, AddressError>) -> bool {
    match first_separator(s) {
        None => r == Err::<AddressSpec, AddressError>(AddressError::MissingSeparator),
        Some(i) => {
            let scheme = s.take(i);
            let body = s.skip(i + 3);
            if body.len() == 0 {
                r == Err::<AddressSpec, AddressError>(AddressError::EmptyBody)
            } else if is_tcp_scheme(scheme) {
                r matches Ok(AddressSpec::Tcp(a)) && a@ == inet_target(body)
            } else if is_udp_scheme(scheme) {
                r matches Ok(AddressSpec::Udp(a)) && a@ == inet_target(body)
            } else if is_unix_scheme(scheme) {
                r matches Ok(AddressSpec::Unix(a)) && a@ == body
            } else {
                r matches Err(AddressError::UnsupportedProtocol(p)) && p@ == scheme
            }
        },
    }
}

impl AddressSpec {
    /// The protocol of the endpoint.
    pub fn protocol(&self) -> (p: Protocol)
        ensures
            p == (match self {
                AddressSpec::Tcp(_) => Protocol::Tcp,
                AddressSpec::Udp(_) => Protocol::Udp,
                AddressSpec::Unix(_) => Protocol::Unix,
            }),
    {
        match self {
            AddressSpec::Tcp(_) => Protocol::Tcp,
            AddressSpec::Udp(_) => Protocol::Udp,
            AddressSpec::Unix(_) => Protocol::Unix,
        }
    }
}

/// The protocol of an endpoint.
pub open spec fn protocol_of<A>(a: NetworkAddress<A>) -> Protocol {
    match a {
        NetworkAddress::Tcp(_) => Protocol::Tcp,
        NetworkAddress::Udp(_) => Protocol::Udp,
        NetworkAddress::Unix(_) => Protocol::Unix,
    }
}

impl<A> NetworkAddress<A> {
    /// The protocol of the endpoint.
    pub fn protocol(&self) -> (p: Protocol)
        ensures
            p == protocol_of(*self),
    {
        match self {
            NetworkAddress::Tcp(_) => Protocol::Tcp,
            NetworkAddress::Udp(_) => Protocol::Udp,
            NetworkAddress::Unix(_) => Protocol::Unix,
        }
    }
}

impl AddressError {
    /// The message that describes the error.
    pub fn message(&self) -> (m: String)
        ensures
            m@ == (match self {
                AddressError::MissingSeparator => "missing '://' separator"@,
                AddressError::EmptyBody => "address body cannot be empty"@,
                AddressError::UnsupportedProtocol(p) => "unsupported protocol: "@ + p@,
                AddressError::InvalidAddress(Protocol::Tcp, d) => "invalid tcp address: "@ + d@,
                AddressError::InvalidAddress(Protocol::Udp, d) => "invalid udp address: "@ + d@,
                AddressError::InvalidAddress(Protocol::Unix, d) => "invalid unix address: "@ + d@,
            }),
    {
        match self {
            AddressError::MissingSeparator => String::from_str("missing '://' separator"),
            AddressError::EmptyBody => String::from_str("address body cannot be empty"),
            AddressError::UnsupportedProtocol(p) => {
                let mut m = String::from_str("unsupported protocol: ");
                m.append(p.as_str());
                m
            },
            AddressError::InvalidAddress(proto, d) => {
                let mut m = match proto {
                    Protocol::Tcp => String::from_str("invalid tcp address: "),
                    Protocol::Udp => String::from_str("invalid udp address: "),
                    Protocol::Unix => String::from_str("invalid unix address: "),
                };
                m.append(d.as_str());
                m
            },
        }
    }
}

/// Whether the `len` characters of `s` from position 0 spell `word`.
fn starts_with_word(s: &str, len: usize, word: &str) -> (r: bool)
    requires
        len <= s@.len(),
    ensures
        r == (s@.take(len as int) == word@),
{
    let wlen = word.unicode_len();
    if wlen != len {
        assert(s@.take(len as int).len() != word@.len());
        return false;
    }
    let mut i: usize = 0;
    while i < len
        invariant
            len <= s@.len(),
            wlen == len,
            word@.len() == len,
            i <= len,
            forall|j: int| 0 <= j < i ==> s@[j] == word@[j],
        decreases len - i,
    {
        if s.get_char(i) != word.get_char(i) {
            assert(s@.take(len as int)[i as int] != word@[i as int]);
            return false;
        }
        i = i + 1;
    }
    assert(s@.take(len as int) =~= word@);
    true
}

/// The socket address text for a non-empty TCP or UDP body.
fn inet_text(body: &str) -> (r: String)
    requires
        body@.len() > 0,
    ensures
        r@ == inet_target(body@),
{
    proof {
        reveal_strlit("0.0.0.0");
        assert("0.0.0.0"@ =~= wildcard_host());
    }
    if body.get_char(0) == ':' {
        let mut target = String::from_str("0.0.0.0");
        target.append(body);
        target
    } else {
        String::from_str(body)
    }
}

/// Splits `s` at its first `://` into a scheme and a body and turns them into
/// an endpoint.
pub fn parse_address(s: &str) -> (r: Result<AddressSpec, AddressError>)
    ensures
        parsed_as(s@, r),
{
    let n = s.unicode_len();
    let mut i: usize = 0;
    let mut found = false;
    while i < n && n - i >= 3
        invariant_except_break
            !found,
        invariant
            n == s@.len(),
            i <= n,
            separator_from(s@, 0) == separator_from(s@, i as nat),
        ensures
            found ==> is_separator_at(s@, i as int) && i + 3 <= n,
            found ==> separator_from(s@, 0) == Some(i as int),
            !found ==> separator_from(s@, 0) == None::<int>,
        decreases n - i,
    {
        if s.get_char(i) == ':' && s.get_char(i + 1) == '/' && s.get_char(i + 2) == '/' {
            found = true;
            break;
        }
        i = i + 1;
    }
    if !found {
        return Err(AddressError::MissingSeparator);
    }
    let body = s.substring_char(i + 3, n);
    let scheme = s.substring_char(0, i);
    assert(scheme@ == s@.take(i as int));
    assert(body@ == s@.skip(i + 3));
    if i + 3 == n {
        return Err(AddressError::EmptyBody);
    }
    proof {
        reveal_strlit("tcp");
        reveal_strlit("tcp4");
        reveal_strlit("tcp6");
        reveal_strlit("udp");
        reveal_strlit("udp4");
        reveal_strlit("udp6");
        reveal_strlit("unix");
        reveal_strlit("0.0.0.0");
        assert("tcp"@ =~= seq!['t', 'c', 'p']);
        assert("tcp4"@ =~= seq!['t', 'c', 'p', '4']);
        assert("tcp6"@ =~= seq!['t', 'c', 'p', '6']);
        assert("udp"@ =~= seq!['u', 'd', 'p']);
        assert("udp4"@ =~= seq!['u', 'd', 'p', '4']);
        assert("udp6"@ =~= seq!['u', 'd', 'p', '6']);
        assert("unix"@ =~= seq!['u', 'n', 'i', 'x']);
        assert("0.0.0.0"@ =~= wildcard_host());
    }
    if starts_with_word(s, i, "tcp") || starts_with_word(s, i, "tcp4") || starts_with_word(s, i, "tcp6") {
        Ok(AddressSpec::Tcp(inet_text(body)))
    } else if starts_with_word(s, i, "udp") || starts_with_word(s, i, "udp4") || starts_with_word(s, i, "udp6") {
        Ok(AddressSpec::Udp(inet_text(body)))
    } else if starts_with_word(s, i, "unix") {
        Ok(AddressSpec::Unix(String::from_str(body)))
    } else {
        Err(AddressError::UnsupportedProtocol(String::from_str(scheme)))
    }
}

/// `r` is what turning the socket address text `text` of a `protocol`
/// address into an endpoint gives, when `parse_inet` parses the text.
pub open spec fn inet_resolved<A, F: Fn(&str) -> Result<A, String>>(
    protocol: Protocol,
    text: Seq<char>,
    parse_inet: F,
    r: Result<NetworkAddress<A>, AddressError>,
) -> bool {
    exists|t: &str, res: Result<A, String>|
        #![trigger parse_inet.ensures((t,), res)]
        {
            &&& t@ == text
            &&& parse_inet.ensures((t,), res)
            &&& match res {
                Ok(a) => r == Ok::<NetworkAddress<A>, AddressError>(
                    if protocol == Protocol::Tcp { NetworkAddress::Tcp(a) } else { NetworkAddress::Udp(a) },
                ),
                Err(d) => r matches Err(AddressError::InvalidAddress(p, m)) && p == protocol && m@ == d@,
            }
        }
}

/// `r` is what parsing `s` into an endpoint gives, when the socket address
/// text of a TCP or UDP address is parsed by `parse_inet`.
pub open spec fn resolved_as<A, F: Fn(&str) -> Result<A, String>>(
    s: Seq<char>,
    parse_inet: F,
    r: Result<NetworkAddress<A>, AddressError>,
) -> bool {
    match first_separator(s) {
        None => r == Err::<NetworkAddress<A>, AddressError>(AddressError::MissingSeparator),
        Some(i) => {
            let scheme = s.take(i);
            let body = s.skip(i + 3);
            if body.len() == 0 {
                r == Err::<NetworkAddress<A>, AddressError>(AddressError::EmptyBody)
            } else if is_tcp_scheme(scheme) {
                inet_resolved(Protocol::Tcp, inet_target(body), parse_inet, r)
            } else if is_udp_scheme(scheme) {
                inet_resolved(Protocol::Udp, inet_target(body), parse_inet, r)
            } else if is_unix_scheme(scheme) {
                r matches Ok(NetworkAddress::Unix(a)) && a@ == body
            } else {
                r matches Err(AddressError::UnsupportedProtocol(p)) && p@ == scheme
            }
        },
    }
}

/// Parses `s` into an endpoint: the scheme and body as `parse_address` splits
/// them, and the socket address of a TCP or UDP body by `parse_inet`, whose
/// refusal is reported as an invalid address of that protocol.
pub fn parse_network_address<A, F: Fn(&str) -> Result<A, String>>(s: &str, parse_inet: &F) -> (r: Result<
    NetworkAddress<A>,
    AddressError,
>)
    requires
        forall|t: &str| parse_inet.requires((t,)),
    ensures
        resolved_as(s@, *parse_inet, r),
{
    match parse_address(s) {
        Err(e) => Err(e),
        Ok(AddressSpec::Tcp(text)) => match parse_inet(text.as_str()) {
            Ok(a) => Ok(NetworkAddress::Tcp(a)),
            Err(d) => Err(AddressError::InvalidAddress(Protocol::Tcp, d)),
        },
        Ok(AddressSpec::Udp(text)) => match parse_inet(text.as_str()) {
            Ok(a) => Ok(NetworkAddress::Udp(a)),
            Err(d) => Err(AddressError::InvalidAddress(Protocol::Udp, d)),
        },
        Ok(AddressSpec::Unix(path)) => Ok(NetworkAddress::Unix(path)),
    }
}

} // verus!
