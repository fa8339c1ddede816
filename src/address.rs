//! Socket addresses, the address a transport asks for, and their text form.
use vstd::prelude::*;

verus! {

/// The character of a digit below sixteen: `0` to `9`, then `a` to `f`.
pub open spec fn digit_char(d: nat) -> char {
    if d == 0 { '0' }
    else if d == 1 { '1' }
    else if d == 2 { '2' }
    else if d == 3 { '3' }
    else if d == 4 { '4' }
    else if d == 5 { '5' }
    else if d == 6 { '6' }
    else if d == 7 { '7' }
    else if d == 8 { '8' }
    else if d == 9 { '9' }
    else if d == 10 { 'a' }
    else if d == 11 { 'b' }
    else if d == 12 { 'c' }
    else if d == 13 { 'd' }
    else if d == 14 { 'e' }
    else { 'f' }
}

/// The decimal text of a natural number, without leading zeros.
pub open spec fn decimal(n: nat) -> Seq<char>
    decreases n,
{
    if n < 10 {
        seq![digit_char(n)]
    } else {
        decimal(n / 10).push(digit_char(n % 10))
    }
}

/// The lowercase hexadecimal text of a natural number, without leading zeros.
pub open spec fn hex(n: nat) -> Seq<char>
    decreases n,
{
    if n < 16 {
        seq![digit_char(n)]
    } else {
        hex(n / 16).push(digit_char(n % 16))
    }
}

/// An IPv4 address, octet by octet, most significant first.
#[derive(Clone, Copy, Debug, PartialEq, Eq, Structural)]
pub struct Ipv4Address {
    pub a: u8,
    pub b: u8,
    pub c: u8,
    pub d: u8,
}

/// An IPv6 address, by its eight 16-bit segments, most significant first.
#[derive(Clone, Copy, Debug, PartialEq, Eq, Structural)]
pub struct Ipv6Address {
    pub s0: u16,
    pub s1: u16,
    pub s2: u16,
    pub s3: u16,
    pub s4: u16,
    pub s5: u16,
    pub s6: u16,
    pub s7: u16,
}

/// An IP address of either family.
#[derive(Clone, Copy, Debug, PartialEq, Eq, Structural)]
pub enum IpAddress {
    V4(Ipv4Address),
    V6(Ipv6Address),
}

/// A socket address: an IP and a port.
#[derive(Clone, Copy, Debug, PartialEq, Eq, Structural)]
pub struct SocketAddress {
    pub ip: IpAddress,
    pub port: u16,
}

/// `head`, then `sep`, then `tail`.
pub open spec fn joined(head: Seq<char>, sep: char, tail: Seq<char>) -> Seq<char> {
    head + seq![sep] + tail
}

/// `a.b.c.d:port` for IPv4; for IPv6 `[s0:s1:s2:s3:s4:s5:s6:s7]:port`, each
/// segment in hexadecimal.
pub open spec fn socket_address_text(a: SocketAddress) -> Seq<char> {
    let port = decimal(a.port as nat);
    match a.ip {
        IpAddress::V4(v) => joined(
            decimal(v.a as nat),
            '.',
            joined(
                decimal(v.b as nat),
                '.',
                joined(decimal(v.c as nat), '.', joined(decimal(v.d as nat), ':', port)),
            ),
        ),
        IpAddress::V6(v) => seq!['['] + v6_text_from(v, 0, seq![':'] + port),
    }
}

/// The segments of `v` from the `i`-th on, separated by `:`, then `]` and
/// `tail`.
pub open spec fn v6_text_from(v: Ipv6Address, i: nat, tail: Seq<char>) -> Seq<char>
    decreases 8 - i,
{
    if i >= 7 {
        joined(hex(segment(v, 7) as nat), ']', tail)
    } else {
        joined(hex(segment(v, i) as nat), ':', v6_text_from(v, i + 1, tail))
    }
}

/// The `i`-th segment of `v`.
pub open spec fn segment(v: Ipv6Address, i: nat) -> u16 {
    if i == 0 { v.s0 }
    else if i == 1 { v.s1 }
    else if i == 2 { v.s2 }
    else if i == 3 { v.s3 }
    else if i == 4 { v.s4 }
    else if i == 5 { v.s5 }
    else if i == 6 { v.s6 }
    else { v.s7 }
}

/// Whether every character is a lowercase hexadecimal digit.
pub open spec fn all_hex_digits(s: Seq<char>) -> bool {
    forall|i: int|
        0 <= i < s.len() ==> ('0' <= #[trigger] s[i] && s[i] <= '9') || ('a' <= s[i] && s[i]
            <= 'f')
}

/// Whether `c` does not occur in `s`.
pub open spec fn free_of(s: Seq<char>, c: char) -> bool {
    forall|i: int| 0 <= i < s.len() ==> #[trigger] s[i] != c
}

proof fn lemma_digit_char(d: nat)
    ensures
        d < 10 ==> '0' <= digit_char(d) && digit_char(d) <= '9',
        d < 16 ==> ('0' <= digit_char(d) && digit_char(d) <= '9') || ('a' <= digit_char(d)
            && digit_char(d) <= 'f'),
{
}

proof fn lemma_digit_char_injective(d: nat, e: nat)
    requires
        d < 16,
        e < 16,
        digit_char(d) == digit_char(e),
    ensures
        d == e,
{
}

proof fn lemma_separators_absent(s: Seq<char>)
    requires
        all_hex_digits(s),
    ensures
        free_of(s, '.'),
        free_of(s, ':'),
        free_of(s, ']'),
        s.len() > 0 ==> s[0] != '[',
{
}

proof fn lemma_decimal_digits(n: nat)
    ensures
        all_hex_digits(decimal(n)),
        decimal(n).len() >= 1,
        n >= 10 ==> decimal(n).len() >= 2,
    decreases n,
{
    lemma_digit_char(n % 10);
    if n >= 10 {
        lemma_decimal_digits(n / 10);
    }
}

proof fn lemma_hex_digits(n: nat)
    ensures
        all_hex_digits(hex(n)),
        hex(n).len() >= 1,
        n >= 16 ==> hex(n).len() >= 2,
    decreases n,
{
    lemma_digit_char(n % 16);
    if n >= 16 {
        lemma_hex_digits(n / 16);
    }
}

proof fn lemma_decimal_injective(n: nat, m: nat)
    requires
        decimal(n) == decimal(m),
    ensures
        n == m,
    decreases n,
{
    lemma_decimal_digits(n);
    lemma_decimal_digits(m);
    if n >= 10 && m >= 10 {
        assert(decimal(n).last() == digit_char(n % 10));
        assert(decimal(m).last() == digit_char(m % 10));
        lemma_digit_char_injective(n % 10, m % 10);
        assert(decimal(n).drop_last() =~= decimal(n / 10));
        assert(decimal(m).drop_last() =~= decimal(m / 10));
        lemma_decimal_injective(n / 10, m / 10);
    } else if n < 10 && m < 10 {
        assert(decimal(n)[0] == digit_char(n));
        assert(decimal(m)[0] == digit_char(m));
        lemma_digit_char_injective(n, m);
    }
}

proof fn lemma_hex_injective(n: nat, m: nat)
    requires
        hex(n) == hex(m),
    ensures
        n == m,
    decreases n,
{
    lemma_hex_digits(n);
    lemma_hex_digits(m);
    if n >= 16 && m >= 16 {
        assert(hex(n).last() == digit_char(n % 16));
        assert(hex(m).last() == digit_char(m % 16));
        lemma_digit_char_injective(n % 16, m % 16);
        assert(hex(n).drop_last() =~= hex(n / 16));
        assert(hex(m).drop_last() =~= hex(m / 16));
        lemma_hex_injective(n / 16, m / 16);
    } else if n < 16 && m < 16 {
        assert(hex(n)[0] == digit_char(n));
        assert(hex(m)[0] == digit_char(m));
        lemma_digit_char_injective(n, m);
    }
}

proof fn lemma_joined_split(h1: Seq<char>, t1: Seq<char>, h2: Seq<char>, t2: Seq<char>, sep: char)
    requires
        joined(h1, sep, t1) == joined(h2, sep, t2),
        free_of(h1, sep),
        free_of(h2, sep),
    ensures
        h1 == h2,
        t1 == t2,
{
    let s = joined(h1, sep, t1);
    if h1.len() < h2.len() {
        assert(s[h1.len() as int] == sep);
        assert(joined(h2, sep, t2)[h1.len() as int] == h2[h1.len() as int]);
    } else if h2.len() < h1.len() {
        assert(s[h2.len() as int] == h1[h2.len() as int]);
        assert(joined(h2, sep, t2)[h2.len() as int] == sep);
    }
    assert(h1 =~= s.subrange(0, h1.len() as int));
    assert(h2 =~= joined(h2, sep, t2).subrange(0, h2.len() as int));
    assert(t1 =~= s.subrange(h1.len() as int + 1, s.len() as int));
    assert(t2 =~= joined(h2, sep, t2).subrange(h2.len() as int + 1, s.len() as int));
}

proof fn lemma_v6_text_injective(x: Ipv6Address, y: Ipv6Address, i: nat, tx: Seq<char>, ty: Seq<char>)
    requires
        i <= 7,
        v6_text_from(x, i, tx) == v6_text_from(y, i, ty),
    ensures
        forall|j: nat| i <= j <= 7 ==> segment(x, j) == segment(y, j),
        tx == ty,
    decreases 8 - i,
{
    lemma_hex_digits(segment(x, i) as nat);
    lemma_hex_digits(segment(y, i) as nat);
    lemma_separators_absent(hex(segment(x, i) as nat));
    lemma_separators_absent(hex(segment(y, i) as nat));
    if i >= 7 {
        lemma_joined_split(hex(segment(x, 7) as nat), tx, hex(segment(y, 7) as nat), ty, ']');
        lemma_hex_injective(segment(x, 7) as nat, segment(y, 7) as nat);
    } else {
        lemma_joined_split(
            hex(segment(x, i) as nat),
            v6_text_from(x, i + 1, tx),
            hex(segment(y, i) as nat),
            v6_text_from(y, i + 1, ty),
            ':',
        );
        lemma_hex_injective(segment(x, i) as nat, segment(y, i) as nat);
        lemma_v6_text_injective(x, y, i + 1, tx, ty);
    }
}

/// Different socket addresses are written differently: the text of an
/// address names that address alone.
pub proof fn lemma_socket_address_text_injective(x: SocketAddress, y: SocketAddress)
    requires
        socket_address_text(x) == socket_address_text(y),
    ensures
        x == y,
{
    let px = decimal(x.port as nat);
    let py = decimal(y.port as nat);
    match (x.ip, y.ip) {
        (IpAddress::V4(a), IpAddress::V4(b)) => {
            lemma_decimal_digits(a.a as nat);
            lemma_decimal_digits(a.b as nat);
            lemma_decimal_digits(a.c as nat);
            lemma_decimal_digits(a.d as nat);
            lemma_decimal_digits(b.a as nat);
            lemma_decimal_digits(b.b as nat);
            lemma_decimal_digits(b.c as nat);
            lemma_decimal_digits(b.d as nat);
            lemma_separators_absent(decimal(a.a as nat));
            lemma_separators_absent(decimal(a.b as nat));
            lemma_separators_absent(decimal(a.c as nat));
            lemma_separators_absent(decimal(a.d as nat));
            lemma_separators_absent(decimal(b.a as nat));
            lemma_separators_absent(decimal(b.b as nat));
            lemma_separators_absent(decimal(b.c as nat));
            lemma_separators_absent(decimal(b.d as nat));
            let xt3 = joined(decimal(a.d as nat), ':', px);
            let yt3 = joined(decimal(b.d as nat), ':', py);
            let xt2 = joined(decimal(a.c as nat), '.', xt3);
            let yt2 = joined(decimal(b.c as nat), '.', yt3);
            let xt1 = joined(decimal(a.b as nat), '.', xt2);
            let yt1 = joined(decimal(b.b as nat), '.', yt2);
            lemma_joined_split(decimal(a.a as nat), xt1, decimal(b.a as nat), yt1, '.');
            lemma_joined_split(decimal(a.b as nat), xt2, decimal(b.b as nat), yt2, '.');
            lemma_joined_split(decimal(a.c as nat), xt3, decimal(b.c as nat), yt3, '.');
            lemma_joined_split(decimal(a.d as nat), px, decimal(b.d as nat), py, ':');
            lemma_decimal_injective(a.a as nat, b.a as nat);
            lemma_decimal_injective(a.b as nat, b.b as nat);
            lemma_decimal_injective(a.c as nat, b.c as nat);
            lemma_decimal_injective(a.d as nat, b.d as nat);
        },
        (IpAddress::V6(a), IpAddress::V6(b)) => {
            let tx = seq![':'] + px;
            let ty = seq![':'] + py;
            assert(v6_text_from(a, 0, tx) =~= socket_address_text(x).drop_first());
            assert(v6_text_from(b, 0, ty) =~= socket_address_text(y).drop_first());
            lemma_v6_text_injective(a, b, 0, tx, ty);
            assert(px =~= tx.drop_first());
            assert(py =~= ty.drop_first());
            assert(segment(a, 0) == segment(b, 0));
            assert(segment(a, 1) == segment(b, 1));
            assert(segment(a, 2) == segment(b, 2));
            assert(segment(a, 3) == segment(b, 3));
            assert(segment(a, 4) == segment(b, 4));
            assert(segment(a, 5) == segment(b, 5));
            assert(segment(a, 6) == segment(b, 6));
            assert(segment(a, 7) == segment(b, 7));
        },
        (IpAddress::V4(a), IpAddress::V6(_)) => {
            lemma_decimal_digits(a.a as nat);
            assert(socket_address_text(x)[0] == decimal(a.a as nat)[0]);
        },
        (IpAddress::V6(_), IpAddress::V4(b)) => {
            lemma_decimal_digits(b.a as nat);
            assert(socket_address_text(y)[0] == decimal(b.a as nat)[0]);
        },
    }
    lemma_decimal_injective(x.port as nat, y.port as nat);
}

/// Relies on String::push: the character is appended at the end.
#[verifier::external_body]
pub(crate) fn push_char(s: &mut String, c: char)
    ensures
        final(s)@ == old(s)@.push(c),
{
    s.push(c)
}

fn digit(d: u32) -> (c: char)
    requires
        d < 16,
    ensures
        c == digit_char(d as nat),
{
    match d {
        0 => '0',
        1 => '1',
        2 => '2',
        3 => '3',
        4 => '4',
        5 => '5',
        6 => '6',
        7 => '7',
        8 => '8',
        9 => '9',
        10 => 'a',
        11 => 'b',
        12 => 'c',
        13 => 'd',
        14 => 'e',
        _ => 'f',
    }
}

/// Appends the decimal text of `n`.
pub fn push_decimal(s: &mut String, n: u32)
    ensures
        final(s)@ == old(s)@ + decimal(n as nat),
    decreases n,
{
    if n >= 10 {
        push_decimal(s, n / 10);
    }
    push_char(s, digit(n % 10));
    assert(final(s)@ == old(s)@ + decimal(n as nat));
}

/// Appends the lowercase hexadecimal text of `n`.
pub fn push_hex(s: &mut String, n: u32)
    ensures
        final(s)@ == old(s)@ + hex(n as nat),
    decreases n,
{
    if n >= 16 {
        push_hex(s, n / 16);
    }
    push_char(s, digit(n % 16));
    assert(final(s)@ == old(s)@ + hex(n as nat));
}

fn push_segment(s: &mut String, v: &Ipv6Address, i: u32, sep: char)
    requires
        i <= 7,
    ensures
        final(s)@ == old(s)@ + hex(segment(*v, i as nat) as nat) + seq![sep],
{
    let x = match i {
        0 => v.s0,
        1 => v.s1,
        2 => v.s2,
        3 => v.s3,
        4 => v.s4,
        5 => v.s5,
        6 => v.s6,
        _ => v.s7,
    };
    push_hex(s, x as u32);
    push_char(s, sep);
    assert(final(s)@ =~= old(s)@ + hex(segment(*v, i as nat) as nat) + seq![sep]);
}

/// Writes a socket address: `a.b.c.d:port`, or `[s0:...:s7]:port`.
pub fn render_socket_address(a: &SocketAddress) -> (r: String)
    ensures
        r@ == socket_address_text(*a),
{
    let mut s = String::new();
    match &a.ip {
        IpAddress::V4(v) => {
            push_decimal(&mut s, v.a as u32);
            push_char(&mut s, '.');
            push_decimal(&mut s, v.b as u32);
            push_char(&mut s, '.');
            push_decimal(&mut s, v.c as u32);
            push_char(&mut s, '.');
            push_decimal(&mut s, v.d as u32);
            push_char(&mut s, ':');
        },
        IpAddress::V6(v) => {
            let ghost tail = seq![':'] + decimal(a.port as nat);
            push_char(&mut s, '[');
            let mut i: u32 = 0;
            while i < 7
                invariant
                    i <= 7,
                    s@ + v6_text_from(*v, i as nat, tail) == seq!['['] + v6_text_from(*v, 0, tail),
                decreases 7 - i,
            {
                let ghost before = s@;
                push_segment(&mut s, v, i, ':');
                assert(s@ + v6_text_from(*v, (i + 1) as nat, tail) =~= before + v6_text_from(
                    *v,
                    i as nat,
                    tail,
                ));
                i = i + 1;
            }
            push_segment(&mut s, v, 7, ']');
            push_char(&mut s, ':');
            push_decimal(&mut s, a.port as u32);
            assert(s@ =~= socket_address_text(*a));
            return s;
        },
    }
    push_decimal(&mut s, a.port as u32);
    assert(s@ =~= socket_address_text(*a));
    s
}

/// The address that a real socket binds when the caller names none: 127.0.0.1.
pub open spec fn loopback() -> IpAddress {
    IpAddress::V4(Ipv4Address { a: 127, b: 0, c: 0, d: 1 })
}

/// Where a real socket is to listen: a fixed IP, a fixed port, either or
/// neither. An absent port is chosen by the operating system when binding.
#[derive(Clone, Copy, Debug, PartialEq, Eq, Structural)]
pub struct AddressRequest {
    pub ip: Option<IpAddress>,
    pub port: Option<u16>,
}

/// The IP that a request binds.
pub open spec fn requested_ip(r: AddressRequest) -> IpAddress {
    match r.ip {
        Some(ip) => ip,
        None => loopback(),
    }
}

/// Whether a bound address is one that the request allows: its IP, and its
/// fixed port or else a concrete one chosen by the system.
pub open spec fn bound_fits(r: AddressRequest, a: SocketAddress) -> bool {
    &&& a.ip == requested_ip(r)
    &&& match r.port {
        Some(p) => a.port == p,
        None => a.port != 0,
    }
}

impl AddressRequest {
    /// A request for any free port on 127.0.0.1.
    pub fn ephemeral() -> (r: AddressRequest)
        ensures
            r.ip is None,
            r.port is None,
    {
        AddressRequest { ip: None, port: None }
    }

    /// The address handed to the system when binding; port 0 asks it for a
    /// free one.
    pub fn bind_address(&self) -> (r: SocketAddress)
        ensures
            r.ip == requested_ip(*self),
            r.port == match self.port {
                Some(p) => p,
                None => 0u16,
            },
    {
        let ip = match self.ip {
            Some(ip) => ip,
            None => IpAddress::V4(Ipv4Address { a: 127, b: 0, c: 0, d: 1 }),
        };
        let port = match self.port {
            Some(p) => p,
            None => 0,
        };
        SocketAddress { ip, port }
    }

    /// Whether the system chooses the port.
    pub fn is_ephemeral(&self) -> (r: bool)
        ensures
            r == self.port is None,
    {
        self.port.is_none()
    }

    /// Whether `bound` is an address that this request allows.
    pub fn accepts(&self, bound: &SocketAddress) -> (r: bool)
        ensures
            r == bound_fits(*self, *bound),
    {
        let ip = match self.ip {
            Some(ip) => ip,
            None => IpAddress::V4(Ipv4Address { a: 127, b: 0, c: 0, d: 1 }),
        };
        let port_ok = match self.port {
            Some(p) => bound.port == p,
            None => bound.port != 0,
        };
        bound.ip == ip && port_ok
    }
}

} // verus!
