//! Links to vehicles: how one is typed in, what it is built into, and the ids of
//! those that stand.

use crate::ident::{text_against, text_rank};
use crate::sorted::{
    before, law_before_irreflexive, law_before_transitive, lemma_before_one, Key, Rank,
};
use crate::text::{
    chars_of, decimal, decimal_text, is_digit, law_unsigned_read_back, lemma_canonical_numeral,
    lemma_decimal, lemma_position_is, lemma_position_of, parse_unsigned, position_of, push_decimal,
    split_at_first, split_once, unsigned_reading,
};
use vstd::arithmetic::div_mod::{
    lemma_add_mod_noop, lemma_mod_equivalence, lemma_mod_self_0, lemma_mod_twice, lemma_small_mod,
};
use vstd::prelude::*;

verus! {

// ---------------------------------------------------------------------------
// Ids
// ---------------------------------------------------------------------------

/// The id of a link.
#[derive(Debug, Clone, Copy, PartialEq, Eq, PartialOrd, Ord, Hash, Structural)]
pub struct LinkId(pub usize);

impl Key for LinkId {
    open spec fn rank(&self) -> Seq<int> {
        seq![self.0 as int]
    }

    fn against(&self, other: &Self) -> (r: Rank) {
        proof {
            lemma_before_one(self.0 as int, other.0 as int);
        }
        if self.0 < other.0 {
            Rank::Before
        } else if self.0 == other.0 {
            Rank::Same
        } else {
            Rank::Behind
        }
    }
}

/// The source that link ids are drawn from. It counts, and starts over behind the
/// largest number.
#[derive(Debug)]
pub struct LinkIdSource {
    pub next: usize,
}

impl LinkIdSource {
    pub fn new() -> (r: Self)
        ensures
            r.next == 0,
    {
        LinkIdSource { next: 0 }
    }
}

/// The id that is drawn `n` draws behind `first`.
pub open spec fn drawn(first: int, n: int) -> int {
    (first + n) % (usize::MAX + 1)
}

impl LinkId {
    /// Draws the next id.
    pub fn new_unique(source: &mut LinkIdSource) -> (r: LinkId)
        ensures
            r.0 == old(source).next,
            final(source).next == drawn(old(source).next as int, 1),
    {
        let id = source.next;
        proof {
            if id == usize::MAX {
                lemma_mod_self_0(usize::MAX + 1);
            } else {
                lemma_small_mod((id + 1) as nat, (usize::MAX + 1) as nat);
            }
        }
        source.next = if id == usize::MAX {
            0
        } else {
            id + 1
        };
        LinkId(id)
    }
}

/// Drawing twice from where the first draws left the source is drawing on.
pub proof fn law_draws_add_up(first: int, n: int, m: int)
    requires
        0 <= first <= usize::MAX,
        0 <= n,
        0 <= m,
    ensures
        drawn(drawn(first, n), m) == drawn(first, n + m),
{
    lemma_add_mod_noop(first + n, m, usize::MAX + 1);
    lemma_mod_twice(first + n, usize::MAX + 1);
    lemma_add_mod_noop(drawn(first, n), m, usize::MAX + 1);
}

/// Ids are unique: two draws that are less than a full count apart differ.
pub proof fn law_ids_differ(first: int, n: int, m: int)
    requires
        0 <= first <= usize::MAX,
        0 <= n < m,
        m - n <= usize::MAX,
    ensures
        drawn(first, n) != drawn(first, m),
{
    let size = usize::MAX + 1;
    if drawn(first, n) == drawn(first, m) {
        lemma_mod_equivalence(first + m, first + n, size);
        lemma_small_mod((m - n) as nat, size as nat);
    }
}

// ---------------------------------------------------------------------------
// Addresses
// ---------------------------------------------------------------------------

/// An IPv4 address.
#[derive(Debug, Clone, Copy, PartialEq, Eq, Structural)]
pub struct Ipv4Addr {
    pub a: u8,
    pub b: u8,
    pub c: u8,
    pub d: u8,
}

/// An IPv4 address and a port.
#[derive(Debug, Clone, Copy, PartialEq, Eq, Structural)]
pub struct SocketAddrV4 {
    pub ip: Ipv4Addr,
    pub port: u16,
}

/// The text of an address: four decimal numerals with dots between them.
pub open spec fn dotted(ip: Ipv4Addr) -> Seq<char> {
    decimal(ip.a as nat) + seq!['.'] + (decimal(ip.b as nat) + seq!['.'] + (decimal(ip.c as nat)
        + seq!['.'] + decimal(ip.d as nat)))
}

/// The address that a text stands for: that with this text.
pub open spec fn address_reading(s: Seq<char>) -> Option<Ipv4Addr> {
    if exists|ip: Ipv4Addr| #[trigger] dotted(ip) == s {
        Some(choose|ip: Ipv4Addr| #[trigger] dotted(ip) == s)
    } else {
        None
    }
}

/// What stands before and behind the first dot of a text, where a numeral stands
/// before it.
proof fn lemma_split_numeral(n: nat, rest: Seq<char>)
    ensures
        split_at_first(decimal(n) + seq!['.'] + rest, '.') == Some((decimal(n), rest)),
{
    lemma_decimal(n);
    let d = decimal(n);
    let s = d + seq!['.'] + rest;
    assert forall|i: int| 0 <= i < d.len() implies #[trigger] s[i] != '.' by {
        assert(s[i] == d[i]);
        assert(is_digit(d[i]));
    }
    lemma_position_is(s, '.', d.len() as int);
    assert(s.take(d.len() as int) =~= d);
    assert(s.skip(d.len() as int + 1) =~= rest);
}

/// Numerals of different numbers differ.
proof fn lemma_decimal_injective(n: nat, m: nat)
    requires
        decimal(n) == decimal(m),
    ensures
        n == m,
{
    lemma_decimal(n);
    lemma_decimal(m);
}

/// Different addresses have different texts.
pub proof fn law_dotted_injective(x: Ipv4Addr, y: Ipv4Addr)
    requires
        dotted(x) == dotted(y),
    ensures
        x == y,
{
    let x2 = decimal(x.c as nat) + seq!['.'] + decimal(x.d as nat);
    let y2 = decimal(y.c as nat) + seq!['.'] + decimal(y.d as nat);
    let x1 = decimal(x.b as nat) + seq!['.'] + x2;
    let y1 = decimal(y.b as nat) + seq!['.'] + y2;
    lemma_split_numeral(x.a as nat, x1);
    lemma_split_numeral(y.a as nat, y1);
    lemma_split_numeral(x.b as nat, x2);
    lemma_split_numeral(y.b as nat, y2);
    lemma_split_numeral(x.c as nat, decimal(x.d as nat));
    lemma_split_numeral(y.c as nat, decimal(y.d as nat));
    lemma_decimal_injective(x.a as nat, y.a as nat);
    lemma_decimal_injective(x.b as nat, y.b as nat);
    lemma_decimal_injective(x.c as nat, y.c as nat);
    lemma_decimal_injective(x.d as nat, y.d as nat);
}

/// Reading back the text of an address gives the address.
pub proof fn law_address_read_back(ip: Ipv4Addr)
    ensures
        address_reading(dotted(ip)) == Some(ip),
{
    law_dotted_injective(ip, address_reading(dotted(ip))->0);
}

/// Writes an address.
pub fn address_text(ip: Ipv4Addr) -> (s: String)
    ensures
        s@ == dotted(ip),
{
    let mut s = decimal_text(ip.a as u64);
    s.push('.');
    push_decimal(&mut s, ip.b as u64);
    s.push('.');
    push_decimal(&mut s, ip.c as u64);
    s.push('.');
    push_decimal(&mut s, ip.d as u64);
    assert(s@ =~= dotted(ip));
    s
}

/// Reads a decimal numeral of at most 255, without a sign and without a needless
/// leading zero.
fn read_octet(s: &str) -> (r: Option<u8>)
    ensures
        match r {
            Some(n) => s@ == decimal(n as nat),
            None => forall|n: u8| s@ != #[trigger] decimal(n as nat),
        },
{
    let chars = chars_of(s);
    if chars.len() == 0 || chars[0] == '+' || (chars[0] == '0' && chars.len() > 1) {
        assert forall|n: u8| s@ != #[trigger] decimal(n as nat) by {
            lemma_decimal(n as nat);
            if s@ == decimal(n as nat) {
                assert(is_digit(decimal(n as nat)[0]));
            }
        }
        return None;
    }
    match parse_unsigned(s, 0xff) {
        Some(n) => {
            proof {
                lemma_canonical_numeral(s@);
            }
            Some(n as u8)
        },
        None => {
            assert forall|n: u8| s@ != #[trigger] decimal(n as nat) by {
                law_unsigned_read_back(n as nat, 0xff);
            }
            None
        },
    }
}

/// Reads the last two numbers of an address.
fn read_pair(s: &str) -> (r: Option<(u8, u8)>)
    ensures
        match r {
            Some((c, d)) => s@ == decimal(c as nat) + seq!['.'] + decimal(d as nat),
            None => forall|c: u8, d: u8|
                s@ != #[trigger] decimal(c as nat) + seq!['.'] + #[trigger] decimal(d as nat),
        },
{
    let parts = split_once(s, '.');
    let r = match &parts {
        None => None,
        Some((x, y)) => match (read_octet(x.as_str()), read_octet(y.as_str())) {
            (Some(c), Some(d)) => Some((c, d)),
            _ => None,
        },
    };
    proof {
        match r {
            Some((c, d)) => lemma_split_whole(s@),
            None => {
                assert forall|c: u8, d: u8|
                    s@ != #[trigger] decimal(c as nat) + seq!['.'] + #[trigger] decimal(
                        d as nat,
                    ) by {
                    lemma_split_numeral(c as nat, decimal(d as nat));
                }
            },
        }
    }
    r
}

/// A text that splits is its two parts with the separator between them.
proof fn lemma_split_whole(s: Seq<char>)
    ensures
        split_at_first(s, '.') matches Some((x, y)) ==> s == x + seq!['.'] + y,
{
    lemma_position_of(s, '.');
    let p = position_of(s, '.');
    if p < s.len() {
        assert(s.take(p) + seq!['.'] + s.skip(p + 1) =~= s);
    }
}

/// Reads an address.
pub fn parse_address(s: &str) -> (r: Option<Ipv4Addr>)
    ensures
        r == address_reading(s@),
{
    let mut r: Option<Ipv4Addr> = None;
    let first = split_once(s, '.');
    match &first {
        None => {},
        Some((x, rest)) => {
            let second = split_once(rest.as_str(), '.');
            match &second {
                None => {},
                Some((y, tail)) => {
                    match (read_octet(x.as_str()), read_octet(y.as_str()), read_pair(tail.as_str())) {
                        (Some(a), Some(b), Some((c, d))) => {
                            let ip = Ipv4Addr { a, b, c, d };
                            proof {
                                lemma_split_whole(s@);
                                lemma_split_whole(rest@);
                                assert(s@ == dotted(ip));
                                law_address_read_back(ip);
                            }
                            r = Some(ip);
                        },
                        _ => {},
                    }
                },
            }
        },
    }
    proof {
        if r is None && address_reading(s@) is Some {
            let ip = address_reading(s@)->0;
            let tail = decimal(ip.c as nat) + seq!['.'] + decimal(ip.d as nat);
            let rest = decimal(ip.b as nat) + seq!['.'] + tail;
            assert(dotted(ip) == s@);
            lemma_split_numeral(ip.a as nat, rest);
            lemma_split_numeral(ip.b as nat, tail);
        }
    }
    r
}

// ---------------------------------------------------------------------------
// Links as they are typed in, and as they are built
// ---------------------------------------------------------------------------

/// The baud rates that a serial link is offered with.
pub const BAUDRATES: [u32; 13] = [
    2_400,
    4_800,
    9_600,
    19_200,
    38_400,
    57_600,
    115_200,
    230_400,
    460_800,
    500_000,
    576_000,
    921_600,
    1_000_000,
];

/// A link that can be opened.
#[derive(Debug)]
pub enum LinkConfig {
    Tcp { sock_addr: SocketAddrV4 },
    Udp { sock_addr: SocketAddrV4 },
    Serial { port: String, baud: u32 },
}

/// A link as it is typed in.
#[derive(Debug)]
#[allow(inconsistent_fields)]
pub enum LinkBuilder {
    Tcp { addr: String, port: String },
    Udp { addr: String, port: String },
    Serial { port: Option<String>, baud: u32, available_ports: Vec<String> },
}

/// The kinds of links.
#[derive(Debug, Clone, Copy, PartialEq, Eq, Structural)]
pub enum LinkVariant {
    Tcp,
    Udp,
    Serial,
}

/// What a link that can be opened holds.
#[verifier::ext_equal]
pub ghost enum Config {
    Tcp { sock_addr: SocketAddrV4 },
    Udp { sock_addr: SocketAddrV4 },
    Serial { port: Seq<char>, baud: u32 },
}

/// What a link holds as it is typed in.
#[verifier::ext_equal]
#[allow(inconsistent_fields)]
pub ghost enum Builder {
    Tcp { addr: Seq<char>, port: Seq<char> },
    Udp { addr: Seq<char>, port: Seq<char> },
    Serial { port: Option<Seq<char>>, baud: u32, available_ports: Seq<Seq<char>> },
}

/// The characters of some texts.
pub open spec fn texts(all: Seq<String>) -> Seq<Seq<char>> {
    Seq::new(all.len(), |i: int| all[i]@)
}

/// The characters of a text that may be missing.
pub open spec fn maybe_text(s: Option<String>) -> Option<Seq<char>> {
    match s {
        Some(t) => Some(t@),
        None => None,
    }
}

impl View for LinkConfig {
    type V = Config;

    open spec fn view(&self) -> Config {
        match *self {
            LinkConfig::Tcp { sock_addr } => Config::Tcp { sock_addr },
            LinkConfig::Udp { sock_addr } => Config::Udp { sock_addr },
            LinkConfig::Serial { port, baud } => Config::Serial { port: port@, baud },
        }
    }
}

impl View for LinkBuilder {
    type V = Builder;

    open spec fn view(&self) -> Builder {
        match *self {
            LinkBuilder::Tcp { addr, port } => Builder::Tcp { addr: addr@, port: port@ },
            LinkBuilder::Udp { addr, port } => Builder::Udp { addr: addr@, port: port@ },
            LinkBuilder::Serial { port, baud, available_ports } => Builder::Serial {
                port: maybe_text(port),
                baud,
                available_ports: texts(available_ports@),
            },
        }
    }
}

/// The address and the port that two texts stand for.
pub open spec fn socket_reading(addr: Seq<char>, port: Seq<char>) -> Option<SocketAddrV4> {
    match (address_reading(addr), unsigned_reading(port, 0xffff)) {
        (Some(ip), Some(n)) => Some(SocketAddrV4 { ip, port: n as u16 }),
        _ => None,
    }
}

/// What a link that is typed in is built into.
pub open spec fn built(builder: Builder) -> Option<Config> {
    match builder {
        Builder::Tcp { addr, port } => match socket_reading(addr, port) {
            Some(sock_addr) => Some(Config::Tcp { sock_addr }),
            None => None,
        },
        Builder::Udp { addr, port } => match socket_reading(addr, port) {
            Some(sock_addr) => Some(Config::Udp { sock_addr }),
            None => None,
        },
        Builder::Serial { port, baud, available_ports } => match port {
            Some(port) => Some(Config::Serial { port, baud }),
            None => None,
        },
    }
}

/// How a link that can be opened is typed in.
pub open spec fn typed(config: Config) -> Builder {
    match config {
        Config::Tcp { sock_addr } => Builder::Tcp {
            addr: dotted(sock_addr.ip),
            port: decimal(sock_addr.port as nat),
        },
        Config::Udp { sock_addr } => Builder::Udp {
            addr: dotted(sock_addr.ip),
            port: decimal(sock_addr.port as nat),
        },
        Config::Serial { port, baud } => Builder::Serial {
            port: Some(port),
            baud,
            available_ports: Seq::empty(),
        },
    }
}

/// The kind of a link.
pub open spec fn variant_of(builder: Builder) -> LinkVariant {
    match builder {
        Builder::Tcp { .. } => LinkVariant::Tcp,
        Builder::Udp { .. } => LinkVariant::Udp,
        Builder::Serial { .. } => LinkVariant::Serial,
    }
}

/// What a new link of a kind holds.
pub open spec fn default_of(variant: LinkVariant) -> Builder {
    match variant {
        LinkVariant::Tcp => Builder::Tcp { addr: "0.0.0.0"@, port: "5760"@ },
        LinkVariant::Udp => Builder::Udp { addr: "0.0.0.0"@, port: "14550"@ },
        LinkVariant::Serial => Builder::Serial {
            port: None,
            baud: 115_200,
            available_ports: Seq::empty(),
        },
    }
}

/// A link that is typed in as one that can be opened builds into that one.
pub proof fn law_builds_what_was_built(config: Config)
    ensures
        built(typed(config)) == Some(config),
{
    match config {
        Config::Tcp { sock_addr } => {
            law_address_read_back(sock_addr.ip);
            law_unsigned_read_back(sock_addr.port as nat, 0xffff);
        },
        Config::Udp { sock_addr } => {
            law_address_read_back(sock_addr.ip);
            law_unsigned_read_back(sock_addr.port as nat, 0xffff);
        },
        Config::Serial { port, baud } => {},
    }
}

/// What is built is of the kind that was typed in.
pub proof fn law_building_keeps_variant(builder: Builder)
    ensures
        built(builder) matches Some(config) ==> variant_of(typed(config)) == variant_of(builder),
{
}

/// A new link is of its kind. Over the network it can be opened as it stands, on all
/// addresses of this machine; a serial one lacks its port.
pub proof fn law_defaults(variant: LinkVariant)
    ensures
        variant_of(default_of(variant)) == variant,
        built(default_of(variant)) == match variant {
            LinkVariant::Tcp => Some(
                Config::Tcp {
                    sock_addr: SocketAddrV4 { ip: Ipv4Addr { a: 0, b: 0, c: 0, d: 0 }, port: 5760 },
                },
            ),
            LinkVariant::Udp => Some(
                Config::Udp {
                    sock_addr: SocketAddrV4 { ip: Ipv4Addr { a: 0, b: 0, c: 0, d: 0 }, port: 14550 },
                },
            ),
            LinkVariant::Serial => None,
        },
{
    reveal_strlit("0.0.0.0");
    reveal_strlit("5760");
    reveal_strlit("14550");
    let ip = Ipv4Addr { a: 0, b: 0, c: 0, d: 0 };
    assert(decimal(0) =~= seq!['0']);
    assert(dotted(ip) =~= "0.0.0.0"@);
    law_address_read_back(ip);
    reveal_with_fuel(decimal, 6);
    assert(decimal(5760) =~= seq!['5', '7', '6', '0']);
    assert("5760"@ =~= seq!['5', '7', '6', '0']);
    law_unsigned_read_back(5760, 0xffff);
    assert(decimal(14550) =~= seq!['1', '4', '5', '5', '0']);
    assert("14550"@ =~= seq!['1', '4', '5', '5', '0']);
    law_unsigned_read_back(14550, 0xffff);
}

/// Copies texts.
pub fn copied(all: &Vec<String>) -> (r: Vec<String>)
    ensures
        r@ == all@,
{
    let mut r: Vec<String> = Vec::new();
    let mut i: usize = 0;
    while i < all.len()
        invariant
            i <= all@.len(),
            r@ == all@.take(i as int),
        decreases all@.len() - i,
    {
        r.push(all[i].clone());
        assert(r@ =~= all@.take(i as int + 1));
        i += 1;
    }
    assert(r@ =~= all@);
    r
}

impl Clone for LinkConfig {
    fn clone(&self) -> (r: Self)
        ensures
            r@ == self@,
    {
        match self {
            LinkConfig::Tcp { sock_addr } => LinkConfig::Tcp { sock_addr: *sock_addr },
            LinkConfig::Udp { sock_addr } => LinkConfig::Udp { sock_addr: *sock_addr },
            LinkConfig::Serial { port, baud } => LinkConfig::Serial {
                port: port.clone(),
                baud: *baud,
            },
        }
    }
}

impl Clone for LinkBuilder {
    fn clone(&self) -> (r: Self)
        ensures
            r@ == self@,
    {
        match self {
            LinkBuilder::Tcp { addr, port } => LinkBuilder::Tcp {
                addr: addr.clone(),
                port: port.clone(),
            },
            LinkBuilder::Udp { addr, port } => LinkBuilder::Udp {
                addr: addr.clone(),
                port: port.clone(),
            },
            LinkBuilder::Serial { port, baud, available_ports } => {
                let port = match port {
                    Some(name) => Some(name.clone()),
                    None => None,
                };
                LinkBuilder::Serial { port, baud: *baud, available_ports: copied(available_ports) }
            },
        }
    }
}

impl LinkConfig {
    /// The link as it is typed in.
    pub fn to_builder(&self) -> (r: LinkBuilder)
        ensures
            r@ == typed(self@),
    {
        match self {
            LinkConfig::Tcp { sock_addr } => LinkBuilder::Tcp {
                addr: address_text(sock_addr.ip),
                port: decimal_text(sock_addr.port as u64),
            },
            LinkConfig::Udp { sock_addr } => LinkBuilder::Udp {
                addr: address_text(sock_addr.ip),
                port: decimal_text(sock_addr.port as u64),
            },
            LinkConfig::Serial { port, baud } => {
                let r = LinkBuilder::Serial {
                    port: Some(port.clone()),
                    baud: *baud,
                    available_ports: Vec::new(),
                };
                assert(r@ =~= typed(self@));
                r
            },
        }
    }
}

fn parse_socket(addr: &str, port: &str) -> (r: Option<SocketAddrV4>)
    ensures
        r == socket_reading(addr@, port@),
{
    match (parse_address(addr), parse_unsigned(port, 0xffff)) {
        (Some(ip), Some(n)) => Some(SocketAddrV4 { ip, port: n as u16 }),
        _ => None,
    }
}

impl LinkBuilder {
    /// A new link over TCP.
    pub fn default_tcp() -> (r: LinkBuilder)
        ensures
            r@ == default_of(LinkVariant::Tcp),
    {
        LinkBuilder::Tcp { addr: "0.0.0.0".to_owned(), port: "5760".to_owned() }
    }

    /// A new link over UDP.
    pub fn default_udp() -> (r: LinkBuilder)
        ensures
            r@ == default_of(LinkVariant::Udp),
    {
        LinkBuilder::Udp { addr: "0.0.0.0".to_owned(), port: "14550".to_owned() }
    }

    /// A new serial link.
    pub fn default_serial() -> (r: LinkBuilder)
        ensures
            r@ == default_of(LinkVariant::Serial),
    {
        let r = LinkBuilder::Serial { port: None, baud: 115_200, available_ports: Vec::new() };
        assert(r@ =~= default_of(LinkVariant::Serial));
        r
    }

    /// The kind of the link.
    pub fn to_variant(&self) -> (r: LinkVariant)
        ensures
            r == variant_of(self@),
    {
        match self {
            LinkBuilder::Tcp { .. } => LinkVariant::Tcp,
            LinkBuilder::Udp { .. } => LinkVariant::Udp,
            LinkBuilder::Serial { .. } => LinkVariant::Serial,
        }
    }

    /// Builds the link; `None` where an address or a port does not read, or a serial
    /// port is not chosen.
    pub fn try_build(&self) -> (r: Option<LinkConfig>)
        ensures
            match r {
                Some(config) => built(self@) == Some(config@),
                None => built(self@) is None,
            },
    {
        match self {
            LinkBuilder::Tcp { addr, port } => match parse_socket(addr.as_str(), port.as_str()) {
                Some(sock_addr) => Some(LinkConfig::Tcp { sock_addr }),
                None => None,
            },
            LinkBuilder::Udp { addr, port } => match parse_socket(addr.as_str(), port.as_str()) {
                Some(sock_addr) => Some(LinkConfig::Udp { sock_addr }),
                None => None,
            },
            LinkBuilder::Serial { port, baud, .. } => match port {
                Some(name) => Some(LinkConfig::Serial { port: name.clone(), baud: *baud }),
                None => None,
            },
        }
    }
}

/// A link with another address typed in; a serial one has none.
pub open spec fn with_address_text(builder: Builder, addr: Seq<char>) -> Builder {
    match builder {
        Builder::Tcp { port, .. } => Builder::Tcp { addr, port },
        Builder::Udp { port, .. } => Builder::Udp { addr, port },
        serial => serial,
    }
}

/// A link with another port typed in or chosen.
pub open spec fn with_port_text(builder: Builder, port: Seq<char>) -> Builder {
    match builder {
        Builder::Tcp { addr, .. } => Builder::Tcp { addr, port },
        Builder::Udp { addr, .. } => Builder::Udp { addr, port },
        Builder::Serial { baud, available_ports, .. } => Builder::Serial {
            port: Some(port),
            baud,
            available_ports,
        },
    }
}

/// A link with another baud rate; only a serial one has one.
pub open spec fn with_baud_rate(builder: Builder, baud: u32) -> Builder {
    match builder {
        Builder::Serial { port, available_ports, .. } => Builder::Serial {
            port,
            baud,
            available_ports,
        },
        network => network,
    }
}

impl LinkBuilder {
    /// The link with another address typed in; a serial one has none.
    pub fn with_addr(&self, addr: String) -> (r: LinkBuilder)
        ensures
            r@ == with_address_text(self@, addr@),
    {
        match self {
            LinkBuilder::Tcp { port, .. } => LinkBuilder::Tcp { addr, port: port.clone() },
            LinkBuilder::Udp { port, .. } => LinkBuilder::Udp { addr, port: port.clone() },
            LinkBuilder::Serial { .. } => self.clone(),
        }
    }

    /// The link with another port typed in or chosen.
    pub fn with_port(&self, port: String) -> (r: LinkBuilder)
        ensures
            r@ == with_port_text(self@, port@),
    {
        match self {
            LinkBuilder::Tcp { addr, .. } => LinkBuilder::Tcp { addr: addr.clone(), port },
            LinkBuilder::Udp { addr, .. } => LinkBuilder::Udp { addr: addr.clone(), port },
            LinkBuilder::Serial { baud, available_ports, .. } => LinkBuilder::Serial {
                port: Some(port),
                baud: *baud,
                available_ports: copied(available_ports),
            },
        }
    }

    /// The link with another baud rate; only a serial one has one.
    pub fn with_baud(&self, baud: u32) -> (r: LinkBuilder)
        ensures
            r@ == with_baud_rate(self@, baud),
    {
        match self {
            LinkBuilder::Serial { port, available_ports, .. } => {
                let port = match port {
                    Some(name) => Some(name.clone()),
                    None => None,
                };
                LinkBuilder::Serial { port, baud, available_ports: copied(available_ports) }
            },
            _ => self.clone(),
        }
    }
}

impl LinkVariant {
    /// A new link of the kind.
    pub fn to_default_builder(self) -> (r: LinkBuilder)
        ensures
            r@ == default_of(self),
    {
        match self {
            LinkVariant::Tcp => LinkBuilder::default_tcp(),
            LinkVariant::Udp => LinkBuilder::default_udp(),
            LinkVariant::Serial => LinkBuilder::default_serial(),
        }
    }

    /// All kinds, in the order in which they are offered.
    pub fn list() -> (r: &'static [LinkVariant])
        ensures
            r@ == seq![LinkVariant::Tcp, LinkVariant::Udp, LinkVariant::Serial],
    {
        &[LinkVariant::Tcp, LinkVariant::Udp, LinkVariant::Serial]
    }

    /// The name of the kind.
    pub fn name(&self) -> (r: &'static str)
        ensures
            r@ == match *self {
                LinkVariant::Tcp => "TCP"@,
                LinkVariant::Udp => "UDP"@,
                LinkVariant::Serial => "Serial"@,
            },
    {
        match self {
            LinkVariant::Tcp => "TCP",
            LinkVariant::Udp => "UDP",
            LinkVariant::Serial => "Serial",
        }
    }
}

// ---------------------------------------------------------------------------
// Serial ports
// ---------------------------------------------------------------------------

/// A serial port of this machine.
#[derive(Debug)]
pub struct SerialPort {
    pub name: String,
    pub usb: bool,
}

impl Clone for SerialPort {
    fn clone(&self) -> (r: Self)
        ensures
            r == *self,
    {
        SerialPort { name: self.name.clone(), usb: self.usb }
    }
}

/// The names of the ports on USB, in their order.
pub open spec fn usb_names(ports: Seq<SerialPort>) -> Seq<Seq<char>>
    decreases ports.len(),
{
    if ports.len() == 0 {
        Seq::empty()
    } else if ports.last().usb {
        usb_names(ports.drop_last()).push(ports.last().name@)
    } else {
        usb_names(ports.drop_last())
    }
}

/// Where a text belongs among texts in order: behind those that it is not before.
pub open spec fn text_slot(all: Seq<Seq<char>>, text: Seq<char>) -> int
    decreases all.len(),
{
    if all.len() == 0 || before(text_rank(text), text_rank(all[0])) {
        0
    } else {
        1 + text_slot(all.skip(1), text)
    }
}

/// Texts put in order, one by one.
pub open spec fn ordered(all: Seq<Seq<char>>) -> Seq<Seq<char>>
    decreases all.len(),
{
    if all.len() == 0 {
        all
    } else {
        let rest = ordered(all.drop_last());
        rest.insert(text_slot(rest, all.last()), all.last())
    }
}

/// No text stands behind one that belongs behind it.
pub open spec fn in_order(all: Seq<Seq<char>>) -> bool {
    forall|i: int, j: int|
        0 <= i < j < all.len() ==> !before(text_rank(#[trigger] all[j]), text_rank(#[trigger] all[i]))
}

proof fn lemma_text_slot(all: Seq<Seq<char>>, text: Seq<char>)
    ensures
        0 <= text_slot(all, text) <= all.len(),
        forall|k: int|
            0 <= k < text_slot(all, text) ==> !before(text_rank(text), text_rank(#[trigger] all[k])),
        text_slot(all, text) < all.len() ==> before(
            text_rank(text),
            text_rank(all[text_slot(all, text)]),
        ),
    decreases all.len(),
{
    if all.len() > 0 && !before(text_rank(text), text_rank(all[0])) {
        let rest = all.skip(1);
        lemma_text_slot(rest, text);
        assert forall|k: int| 0 <= k < text_slot(all, text) implies !before(
            text_rank(text),
            text_rank(#[trigger] all[k]),
        ) by {
            if k > 0 {
                assert(rest[k - 1] == all[k]);
            }
        }
        if text_slot(all, text) < all.len() {
            assert(rest[text_slot(rest, text)] == all[text_slot(all, text)]);
        }
    }
}

proof fn lemma_text_slot_is(all: Seq<Seq<char>>, text: Seq<char>, i: int)
    requires
        0 <= i <= all.len(),
        forall|k: int| 0 <= k < i ==> !before(text_rank(text), text_rank(#[trigger] all[k])),
        i < all.len() ==> before(text_rank(text), text_rank(all[i])),
    ensures
        text_slot(all, text) == i,
    decreases i,
{
    if i > 0 {
        let rest = all.skip(1);
        assert(!before(text_rank(text), text_rank(all[0])));
        assert forall|k: int| 0 <= k < i - 1 implies !before(
            text_rank(text),
            text_rank(#[trigger] rest[k]),
        ) by {
            assert(rest[k] == all[k + 1]);
        }
        lemma_text_slot_is(rest, text, i - 1);
    }
}

/// Putting texts in order puts them in order, and neither loses nor adds one.
pub proof fn law_ordered(all: Seq<Seq<char>>)
    ensures
        in_order(ordered(all)),
        ordered(all).to_multiset() == all.to_multiset(),
    decreases all.len(),
{
    broadcast use vstd::seq_lib::group_to_multiset_ensures;

    if all.len() > 0 {
        let rest = ordered(all.drop_last());
        let text = all.last();
        let at = text_slot(rest, text);
        let after = rest.insert(at, text);
        law_ordered(all.drop_last());
        lemma_text_slot(rest, text);
        assert(all.drop_last().push(text) =~= all);
        assert forall|i: int, j: int| 0 <= i < j < after.len() implies !before(
            text_rank(#[trigger] after[j]),
            text_rank(#[trigger] after[i]),
        ) by {
            let a = if i < at {
                i
            } else {
                i - 1
            };
            let b = if j < at {
                j
            } else {
                j - 1
            };
            if i != at {
                assert(after[i] == rest[a]);
            }
            if j != at {
                assert(after[j] == rest[b]);
            }
            if i != at && j != at {
                assert(!before(text_rank(rest[b]), text_rank(rest[a])));
            } else if i == at {
                // The text that was put in stands before `rest[at]`, which is not behind `rest[b]`.
                if before(text_rank(rest[b]), text_rank(text)) {
                    law_before_transitive(
                        text_rank(rest[b]),
                        text_rank(text),
                        text_rank(rest[at]),
                    );
                    if b == at {
                        law_before_irreflexive(text_rank(rest[at]));
                    } else {
                        assert(!before(text_rank(rest[b]), text_rank(rest[at])));
                    }
                }
            }
        }
    }
}

/// Puts texts in order.
pub fn sort_texts(all: Vec<String>) -> (r: Vec<String>)
    ensures
        texts(r@) == ordered(texts(all@)),
{
    let mut r: Vec<String> = Vec::new();
    let mut i: usize = 0;
    assert(texts(all@).take(0) =~= Seq::empty());
    assert(texts(r@) =~= Seq::empty());
    while i < all.len()
        invariant
            i <= all@.len(),
            texts(r@) == ordered(texts(all@).take(i as int)),
        decreases all@.len() - i,
    {
        let ghost now = texts(all@).take(i as int + 1);
        assert(now.drop_last() =~= texts(all@).take(i as int));
        let text = all[i].clone();
        let mut at: usize = 0;
        while at < r.len()
            invariant_except_break
                at <= r@.len(),
                forall|k: int|
                    0 <= k < at ==> !before(
                        text_rank(text@),
                        text_rank(#[trigger] texts(r@)[k]),
                    ),
            ensures
                at <= r@.len(),
                forall|k: int|
                    0 <= k < at ==> !before(
                        text_rank(text@),
                        text_rank(#[trigger] texts(r@)[k]),
                    ),
                at < r@.len() ==> before(text_rank(text@), text_rank(texts(r@)[at as int])),
            decreases r@.len() - at,
        {
            match text_against(text.as_str(), r[at].as_str()) {
                Rank::Before => {
                    break;
                },
                _ => {},
            }
            at += 1;
        }
        proof {
            lemma_text_slot_is(texts(r@), text@, at as int);
        }
        let ghost former = r@;
        r.insert(at, text);
        assert(texts(r@) =~= texts(former).insert(at as int, text@));
        i += 1;
    }
    assert(texts(all@).take(all@.len() as int) =~= texts(all@));
    r
}

/// The names of the ports on USB, put in order.
pub fn usb_ports(ports: &Vec<SerialPort>) -> (r: Vec<String>)
    ensures
        texts(r@) == ordered(usb_names(ports@)),
{
    let mut names: Vec<String> = Vec::new();
    let mut i: usize = 0;
    assert(ports@.take(0) =~= Seq::empty());
    assert(texts(names@) =~= Seq::empty());
    while i < ports.len()
        invariant
            i <= ports@.len(),
            texts(names@) == usb_names(ports@.take(i as int)),
        decreases ports@.len() - i,
    {
        assert(ports@.take(i as int + 1).drop_last() =~= ports@.take(i as int));
        let ghost former = names@;
        if ports[i].usb {
            let name = ports[i].name.clone();
            names.push(name);
            assert(texts(names@) =~= texts(former).push(name@));
        }
        i += 1;
    }
    assert(ports@.take(ports@.len() as int) =~= ports@);
    sort_texts(names)
}

} // verus!
