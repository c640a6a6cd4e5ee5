//! Addresses: of sockets, and of names that are yet to be resolved.
use crate::text::{eq_ignore_case, push_decimal};
use vstd::prelude::*;
use vstd::string::StringExecFns;

verus! {

/// An IP address, by its canonical text.
#[derive(Debug, PartialEq, Eq, Hash)]
pub enum IpAddr {
    V4(String),
    V6(String),
}

/// An IP address and a port.
#[derive(Debug, PartialEq, Eq, Hash)]
pub struct SocketAddr {
    pub ip: IpAddr,
    pub port: u16,
}

/// A DNS name and a port.
#[derive(Debug, PartialEq, Eq, Hash)]
pub struct NameAddr {
    pub name: String,
    pub port: u16,
}

/// A destination: a name, or the address of a socket.
#[derive(Debug, PartialEq, Eq, Hash)]
pub enum Addr {
    Name(NameAddr),
    Socket(SocketAddr),
}

/// The host part of an authority.
#[derive(Debug, PartialEq, Eq, Hash)]
pub enum Host {
    DnsName(String),
    Ip(IpAddr),
}

/// A host and a port.
#[derive(Debug, PartialEq, Eq, Hash)]
pub struct HostAndPort {
    pub host: Host,
    pub port: u16,
}

impl IpAddr {
    /// The text of the address.
    pub open spec fn text(self) -> Seq<char> {
        match self {
            IpAddr::V4(s) => s@,
            IpAddr::V6(s) => s@,
        }
    }

    /// Two addresses are the same if they are of one family and read the same.
    pub open spec fn same(self, other: IpAddr) -> bool {
        (self is V4 <==> other is V4) && self.text() == other.text()
    }

    /// Compares two addresses.
    pub fn is_same(&self, other: &IpAddr) -> (r: bool)
        ensures
            r == self.same(*other),
    {
        match (self, other) {
            (IpAddr::V4(a), IpAddr::V4(b)) => *a == *b,
            (IpAddr::V6(a), IpAddr::V6(b)) => *a == *b,
            _ => false,
        }
    }
}

impl Clone for IpAddr {
    fn clone(&self) -> (r: Self)
        ensures
            r == *self,
    {
        match self {
            IpAddr::V4(s) => IpAddr::V4(s.clone()),
            IpAddr::V6(s) => IpAddr::V6(s.clone()),
        }
    }
}

impl SocketAddr {
    /// How the address is written: an IPv6 address stands in brackets before the port.
    pub open spec fn text(self) -> Seq<char> {
        match self.ip {
            IpAddr::V4(s) => s@ + ":"@ + crate::text::decimal(self.port as nat),
            IpAddr::V6(s) => "["@ + s@ + "]:"@ + crate::text::decimal(self.port as nat),
        }
    }

    /// Two socket addresses are the same if address and port are.
    pub open spec fn same(self, other: SocketAddr) -> bool {
        self.ip.same(other.ip) && self.port == other.port
    }

    /// Compares two socket addresses.
    pub fn is_same(&self, other: &SocketAddr) -> (r: bool)
        ensures
            r == self.same(*other),
    {
        self.ip.is_same(&other.ip) && self.port == other.port
    }

    /// Writes the address.
    pub fn to_text(&self) -> (s: String)
        ensures
            s@ == self.text(),
    {
        let mut s: String = match &self.ip {
            IpAddr::V4(ip) => ip.clone().concat(":"),
            IpAddr::V6(ip) => String::from_str("[").concat(ip.as_str()).concat("]:"),
        };
        push_decimal(&mut s, self.port as u64);
        s
    }
}

impl Clone for SocketAddr {
    fn clone(&self) -> (r: Self)
        ensures
            r == *self,
    {
        SocketAddr { ip: self.ip.clone(), port: self.port }
    }
}

impl NameAddr {
    /// How the name is written, with its port.
    pub open spec fn text(self) -> Seq<char> {
        self.name@ + ":"@ + crate::text::decimal(self.port as nat)
    }

    /// Two name addresses are the same if name and port are.
    pub open spec fn same(self, other: NameAddr) -> bool {
        self.name@ == other.name@ && self.port == other.port
    }

    /// Compares two name addresses.
    pub fn is_same(&self, other: &NameAddr) -> (r: bool)
        ensures
            r == self.same(*other),
    {
        self.name == other.name && self.port == other.port
    }

    /// Writes the name and port.
    pub fn to_text(&self) -> (s: String)
        ensures
            s@ == self.text(),
    {
        let mut s: String = self.name.clone().concat(":");
        push_decimal(&mut s, self.port as u64);
        s
    }
}

impl Clone for NameAddr {
    fn clone(&self) -> (r: Self)
        ensures
            r == *self,
    {
        NameAddr { name: self.name.clone(), port: self.port }
    }
}

impl Addr {
    /// How the destination is written.
    pub open spec fn text(self) -> Seq<char> {
        match self {
            Addr::Name(name) => name.text(),
            Addr::Socket(addr) => addr.text(),
        }
    }

    /// Two destinations are the same if they are of one kind and their addresses are the same.
    pub open spec fn same(self, other: Addr) -> bool {
        match (self, other) {
            (Addr::Name(a), Addr::Name(b)) => a.same(b),
            (Addr::Socket(a), Addr::Socket(b)) => a.same(b),
            _ => false,
        }
    }

    /// Compares two destinations.
    pub fn is_same(&self, other: &Addr) -> (r: bool)
        ensures
            r == self.same(*other),
    {
        match (self, other) {
            (Addr::Name(a), Addr::Name(b)) => a.is_same(b),
            (Addr::Socket(a), Addr::Socket(b)) => a.is_same(b),
            _ => false,
        }
    }

    /// Writes the destination.
    pub fn to_text(&self) -> (s: String)
        ensures
            s@ == self.text(),
    {
        match self {
            Addr::Name(name) => name.to_text(),
            Addr::Socket(addr) => addr.to_text(),
        }
    }
}

impl Clone for Addr {
    fn clone(&self) -> (r: Self)
        ensures
            r == *self,
    {
        match self {
            Addr::Name(name) => Addr::Name(name.clone()),
            Addr::Socket(addr) => Addr::Socket(addr.clone()),
        }
    }
}

/// The authority component of a URI, which names a host and possibly a port.
#[derive(Debug)]
pub struct Authority {
    pub text: String,
}

impl PartialEq for Authority {
    /// Two authorities are the same if they differ in the case of letters at most.
    fn eq(&self, other: &Self) -> (r: bool) {
        eq_ignore_case(self.text.as_str().as_bytes(), other.text.as_str().as_bytes())
    }
}

impl vstd::std_specs::cmp::PartialEqSpecImpl for Authority {
    open spec fn obeys_eq_spec() -> bool {
        true
    }

    open spec fn eq_spec(&self, other: &Self) -> bool {
        crate::text::same_but_for_case(
            vstd::utf8::encode_utf8(self.text@),
            vstd::utf8::encode_utf8(other.text@),
        )
    }
}

impl Eq for Authority {

}

impl Clone for Authority {
    fn clone(&self) -> (r: Self)
        ensures
            r == *self,
    {
        Authority { text: self.text.clone() }
    }
}

/// Whether `s` is an authority, and nothing else.
pub uninterp spec fn parses_as_authority(s: Seq<char>) -> bool;

/// Calls the parser behind `str::parse::<http::uri::Authority>()`, which accepts a string
/// exactly if the whole of it is a non-empty authority. The text of the authority is the
/// string itself.
#[verifier::external_body]
pub(crate) fn is_authority(s: &str) -> (r: bool)
    ensures
        r == parses_as_authority(s@),
{
    s.parse::<http::uri::Authority>().is_ok()
}

/// Reads an authority.
pub fn parse_authority(s: String) -> (r: Option<Authority>)
    ensures
        r == (if parses_as_authority(s@) {
            Some(Authority { text: s })
        } else {
            None
        }),
{
    if is_authority(s.as_str()) {
        Some(Authority { text: s })
    } else {
        None
    }
}

/// Two IP addresses are found to be the same exactly if both are of version 4 or both of version
/// 6, and their texts are equal.
pub proof fn same_ips_read_the_same(a: IpAddr, b: IpAddr, r: bool)
    requires
        call_ensures(IpAddr::is_same, (&a, &b), r),
    ensures
        r == match (a, b) {
            (IpAddr::V4(s), IpAddr::V4(t)) => s@ == t@,
            (IpAddr::V6(s), IpAddr::V6(t)) => s@ == t@,
            _ => false,
        },
{
}

/// Two sockets at one IP address are found to be the same exactly if their ports are equal, and
/// two with one port exactly if their IP addresses are.
pub proof fn same_sockets_have_the_same_port(
    a: SocketAddr,
    b: SocketAddr,
    same_ip: bool,
    r: bool,
)
    requires
        call_ensures(IpAddr::is_same, (&a.ip, &b.ip), same_ip),
        call_ensures(SocketAddr::is_same, (&a, &b), r),
    ensures
        same_ip ==> (r <==> a.port == b.port),
        a.port == b.port ==> r == same_ip,
        !same_ip || a.port != b.port ==> !r,
{
}

/// Two names are found to be the same exactly if their texts and their ports are equal.
pub proof fn same_names_read_the_same(a: NameAddr, b: NameAddr, r: bool)
    requires
        call_ensures(NameAddr::is_same, (&a, &b), r),
    ensures
        r ==> a.name@ == b.name@ && a.port == b.port,
        !r ==> a.name@ != b.name@ || a.port != b.port,
{
}

/// A name is never the same as a socket. Two names are the same as destinations if they are the
/// same by themselves, and so are two sockets.
pub proof fn same_destinations_are_of_one_kind(a: Addr, b: Addr, r: bool)
    requires
        call_ensures(Addr::is_same, (&a, &b), r),
    ensures
        a is Name && b is Socket ==> !r,
        a is Socket && b is Name ==> !r,
        a matches Addr::Name(m) ==> b matches Addr::Name(n) ==> (r <==> m.name@ == n.name@
            && m.port == n.port),
        a matches Addr::Socket(m) ==> b matches Addr::Socket(n) ==> (r <==> m.port == n.port && (
        m.ip is V4 <==> n.ip is V4) && m.ip.text() == n.ip.text()),
{
}

/// A destination is written as its host, a colon and its port in decimal. The address of an IPv6
/// socket stands in brackets, so that the port can be told from it.
pub proof fn destinations_are_written_with_their_port(addr: Addr, s: String)
    requires
        call_ensures(Addr::to_text, (&addr,), s),
    ensures
        addr matches Addr::Name(n) ==> s@ == n.name@ + seq![':'] + crate::text::decimal(
            n.port as nat,
        ),
        addr matches Addr::Socket(SocketAddr { ip: IpAddr::V4(ip), port }) ==> s@ == ip@ + seq![':']
            + crate::text::decimal(port as nat),
        addr matches Addr::Socket(SocketAddr { ip: IpAddr::V6(ip), port }) ==> s@ == seq!['['] + ip@
            + seq![']', ':'] + crate::text::decimal(port as nat),
{
    reveal_strlit(":");
    reveal_strlit("[");
    reveal_strlit("]:");
    assert(":"@ =~= seq![':']);
    assert("["@ =~= seq!['[']);
    assert("]:"@ =~= seq![']', ':']);
}

/// Authorities that differ in more than the case of letters are different, and those that do
/// not are the same: comparing is symmetric, and an authority is the same as itself.
pub proof fn authorities_are_compared_without_case(a: Authority, b: Authority, r: bool)
    requires
        call_ensures(<Authority as PartialEq>::eq, (&a, &b), r),
    ensures
        a.text@ == b.text@ ==> r,
        vstd::utf8::encode_utf8(a.text@).len() != vstd::utf8::encode_utf8(b.text@).len() ==> !r,
        forall|i: int|
            r && 0 <= i < vstd::utf8::encode_utf8(a.text@).len() ==> {
                let x = #[trigger] vstd::utf8::encode_utf8(a.text@)[i];
                let y = vstd::utf8::encode_utf8(b.text@)[i];
                x == y || (65 <= x <= 90 && y == x + 32) || (65 <= y <= 90 && x == y + 32)
            },
{
}

/// A text is read as an authority exactly if it is one, and then it is the authority's text.
pub proof fn authorities_keep_their_text(s: String, r: Option<Authority>)
    requires
        call_ensures(parse_authority, (s,), r),
    ensures
        r is Some <==> parses_as_authority(s@),
        r matches Some(a) ==> a.text@ == s@,
{
}

} // verus!
