//! IPv4 socket addresses and the form in which a URI holds them.
use vstd::prelude::*;
use vstd::string::StringExecFns;

use crate::text::append_decimal;
use crate::text::decimal;
use crate::text::is_decimal_of;
use crate::text::is_digit;
use crate::text::law_decimal_denotes;
use crate::text::law_decimal_is_the_only;

verus! {

/// An IPv4 address with a TCP port. The server listens on the loopback
/// interface, so every address that it can have is one of these.
#[derive(Debug, Clone, Copy, PartialEq, Eq)]
pub struct SocketAddr {
    /// The four bytes of the address, in the order in which they are written.
    pub octets: [u8; 4],
    /// The TCP port.
    pub port: u16,
}

/// An IPv4 address in dotted decimal notation.
pub open spec fn ip_text(octets: [u8; 4]) -> Seq<char> {
    decimal(octets[0] as nat) + "."@ + decimal(octets[1] as nat) + "."@ + decimal(octets[2] as nat)
        + "."@ + decimal(octets[3] as nat)
}

/// Whether `s` is written with digits and dots alone.
pub open spec fn is_dotted_digits(s: Seq<char>) -> bool {
    forall|i: int| 0 <= i < s.len() ==> is_digit(#[trigger] s[i]) || s[i] == '.'
}

/// Whether `s` is a numeric host, a colon and a numeric port.
pub open spec fn is_host_port(s: Seq<char>) -> bool {
    exists|host: Seq<char>, port: Seq<char>|
        {
            &&& #[trigger] (host + ":"@ + port) == s
            &&& is_dotted_digits(host)
            &&& forall|i: int| 0 <= i < port.len() ==> is_digit(#[trigger] port[i])
        }
}

impl SocketAddr {
    /// The address in the usual notation: the IP address, a colon, the port.
    pub open spec fn text(self) -> Seq<char> {
        ip_text(self.octets) + ":"@ + decimal(self.port as nat)
    }

    /// The address that the server asks for: the loopback interface, with the
    /// port left to the operating system.
    pub fn loopback() -> (addr: SocketAddr)
        ensures
            addr.octets@ == seq![127u8, 0, 0, 1],
            addr.port == 0,
    {
        SocketAddr { octets: [127, 0, 0, 1], port: 0 }
    }

    /// The address in the usual notation, such as `127.0.0.1:8080`.
    pub fn to_text(&self) -> (text: String)
        ensures
            text@ == self.text(),
            denotes_addr(text@, *self),
    {
        proof {
            law_addr_text_denotes(*self);
        }
        let mut out = String::new();
        append_decimal(&mut out, self.octets[0] as u64);
        out.append(".");
        append_decimal(&mut out, self.octets[1] as u64);
        out.append(".");
        append_decimal(&mut out, self.octets[2] as u64);
        out.append(".");
        append_decimal(&mut out, self.octets[3] as u64);
        out.append(":");
        append_decimal(&mut out, self.port as u64);
        assert(out@ =~= self.text());
        out
    }
}

proof fn lemma_ip_text_is_dotted(octets: [u8; 4])
    ensures
        is_dotted_digits(ip_text(octets)),
{
    reveal_strlit(".");
    law_decimal_denotes(octets[0] as nat);
    law_decimal_denotes(octets[1] as nat);
    law_decimal_denotes(octets[2] as nat);
    law_decimal_denotes(octets[3] as nat);
}

/// The notation of every address is a numeric host, a colon and a numeric
/// port.
pub proof fn law_addr_is_host_port(addr: SocketAddr)
    ensures
        is_host_port(addr.text()),
{
    lemma_ip_text_is_dotted(addr.octets);
    law_decimal_denotes(addr.port as nat);
    assert(ip_text(addr.octets) + ":"@ + decimal(addr.port as nat) == addr.text());
}

/// Two texts that agree as a whole agree on both sides of the first mark.
proof fn lemma_split(a: Seq<char>, b: Seq<char>, c: Seq<char>, d: Seq<char>, mark: Seq<char>)
    requires
        mark.len() == 1,
        forall|i: int| 0 <= i < a.len() ==> #[trigger] a[i] != mark[0],
        forall|i: int| 0 <= i < c.len() ==> #[trigger] c[i] != mark[0],
        a + mark + b == c + mark + d,
    ensures
        a == c,
        b == d,
{
    let whole = a + mark + b;
    assert(whole[a.len() as int] == mark[0]);
    assert(whole[c.len() as int] == mark[0]) by {
        assert((c + mark + d)[c.len() as int] == mark[0]);
    }
    assert(a.len() == c.len()) by {
        if a.len() < c.len() {
            assert((c + mark + d)[a.len() as int] == c[a.len() as int]);
        } else if c.len() < a.len() {
            assert(whole[c.len() as int] == a[c.len() as int]);
        }
    }
    assert(whole.take(a.len() as int) =~= a);
    assert((c + mark + d).take(a.len() as int) =~= c);
    assert(whole.skip((a.len() + 1) as int) =~= b);
    assert((c + mark + d).skip((a.len() + 1) as int) =~= d);
}

/// Texts that begin with a number and a dot agree on the number and on the rest.
proof fn lemma_split_number(m: nat, rest: Seq<char>, n: nat, other: Seq<char>)
    requires
        decimal(m) + "."@ + rest == decimal(n) + "."@ + other,
    ensures
        m == n,
        rest == other,
{
    reveal_strlit(".");
    law_decimal_denotes(m);
    law_decimal_denotes(n);
    lemma_split(decimal(m), rest, decimal(n), other, "."@);
}

/// Dotted decimal notation, grouped from the right.
proof fn lemma_ip_text_grouped(octets: [u8; 4])
    ensures
        ip_text(octets) == decimal(octets[0] as nat) + "."@ + (decimal(octets[1] as nat) + "."@ + (
        decimal(octets[2] as nat) + "."@ + decimal(octets[3] as nat))),
{
}

/// IP addresses that differ are written differently.
proof fn lemma_ip_text_is_unique(first: [u8; 4], second: [u8; 4])
    requires
        ip_text(first) == ip_text(second),
    ensures
        first@ == second@,
{
    lemma_ip_text_grouped(first);
    lemma_ip_text_grouped(second);
    let (a, b) = (decimal(first[3] as nat), decimal(second[3] as nat));
    let (c, d) = (decimal(first[2] as nat) + "."@ + a, decimal(second[2] as nat) + "."@ + b);
    let (e, f) = (decimal(first[1] as nat) + "."@ + c, decimal(second[1] as nat) + "."@ + d);
    lemma_split_number(first[0] as nat, e, second[0] as nat, f);
    lemma_split_number(first[1] as nat, c, second[1] as nat, d);
    lemma_split_number(first[2] as nat, a, second[2] as nat, b);
    law_decimal_denotes(first[3] as nat);
    law_decimal_denotes(second[3] as nat);
    assert(first@ =~= second@);
}

/// Addresses that differ are written differently.
pub proof fn law_addr_text_is_unique(first: SocketAddr, second: SocketAddr)
    requires
        first.text() == second.text(),
    ensures
        first.port == second.port,
        first.octets@ == second.octets@,
{
    reveal_strlit(":");
    lemma_ip_text_is_dotted(first.octets);
    lemma_ip_text_is_dotted(second.octets);
    law_decimal_denotes(first.port as nat);
    law_decimal_denotes(second.port as nat);
    lemma_split(
        ip_text(first.octets),
        decimal(first.port as nat),
        ip_text(second.octets),
        decimal(second.port as nat),
        ":"@,
    );
    lemma_ip_text_is_unique(first.octets, second.octets);
}

/// Whether `text` is made of four numbers between dots, a colon and a number,
/// each in decimal notation: the bytes of the address in their order, and the
/// port.
pub open spec fn denotes_addr(text: Seq<char>, addr: SocketAddr) -> bool {
    exists|a: Seq<char>, b: Seq<char>, c: Seq<char>, d: Seq<char>, port: Seq<char>|
        {
            &&& #[trigger] (a + "."@ + b + "."@ + c + "."@ + d + ":"@ + port) == text
            &&& is_decimal_of(a, addr.octets[0] as nat)
            &&& is_decimal_of(b, addr.octets[1] as nat)
            &&& is_decimal_of(c, addr.octets[2] as nat)
            &&& is_decimal_of(d, addr.octets[3] as nat)
            &&& is_decimal_of(port, addr.port as nat)
        }
}

/// The notation of an address denotes that address.
pub proof fn law_addr_text_denotes(addr: SocketAddr)
    ensures
        denotes_addr(addr.text(), addr),
{
    law_decimal_denotes(addr.octets[0] as nat);
    law_decimal_denotes(addr.octets[1] as nat);
    law_decimal_denotes(addr.octets[2] as nat);
    law_decimal_denotes(addr.octets[3] as nat);
    law_decimal_denotes(addr.port as nat);
    assert((decimal(addr.octets[0] as nat) + "."@ + decimal(addr.octets[1] as nat) + "."@
        + decimal(addr.octets[2] as nat) + "."@ + decimal(addr.octets[3] as nat) + ":"@ + decimal(
        addr.port as nat,
    )) == addr.text());
}

/// What an address is written as denotes that address, digit by digit: the four
/// numbers are its bytes, and the number behind the colon is its port.
pub proof fn law_to_text_denotes(addr: SocketAddr, text: String)
    requires
        call_ensures(SocketAddr::to_text, (&addr,), text),
    ensures
        denotes_addr(text@, addr),
{
}

/// The address that the server asks for is the one of the loopback interface,
/// with a port that the operating system replaces.
pub proof fn law_loopback(addr: SocketAddr)
    requires
        call_ensures(SocketAddr::loopback, (), addr),
    ensures
        addr.octets[0] == 127,
        addr.octets[1] == 0,
        addr.octets[2] == 0,
        addr.octets[3] == 1,
        addr.port == 0,
{
}

/// A text denotes one address only, and an address has one text only.
pub proof fn law_denoted_addr_is_the_only(
    first: Seq<char>,
    second: Seq<char>,
    addr: SocketAddr,
    other: SocketAddr,
)
    requires
        denotes_addr(first, addr),
        denotes_addr(second, other),
    ensures
        first == second <==> addr.port == other.port && addr.octets@ == other.octets@,
{
    lemma_denotes_text(first, addr);
    lemma_denotes_text(second, other);
    if first == second {
        law_addr_text_is_unique(addr, other);
    }
    if addr.port == other.port && addr.octets@ == other.octets@ {
        assert(addr.octets[0] == other.octets[0]);
        assert(addr.octets[1] == other.octets[1]);
        assert(addr.octets[2] == other.octets[2]);
        assert(addr.octets[3] == other.octets[3]);
    }
}

/// What denotes an address is its notation.
proof fn lemma_denotes_text(text: Seq<char>, addr: SocketAddr)
    requires
        denotes_addr(text, addr),
    ensures
        text == addr.text(),
{
    let (a, b, c, d, port) = choose|
        a: Seq<char>,
        b: Seq<char>,
        c: Seq<char>,
        d: Seq<char>,
        port: Seq<char>,
    |
        {
            &&& #[trigger] (a + "."@ + b + "."@ + c + "."@ + d + ":"@ + port) == text
            &&& is_decimal_of(a, addr.octets[0] as nat)
            &&& is_decimal_of(b, addr.octets[1] as nat)
            &&& is_decimal_of(c, addr.octets[2] as nat)
            &&& is_decimal_of(d, addr.octets[3] as nat)
            &&& is_decimal_of(port, addr.port as nat)
        };
    law_decimal_is_the_only(a, addr.octets[0] as nat);
    law_decimal_is_the_only(b, addr.octets[1] as nat);
    law_decimal_is_the_only(c, addr.octets[2] as nat);
    law_decimal_is_the_only(d, addr.octets[3] as nat);
    law_decimal_is_the_only(port, addr.port as nat);
}

} // verus!
