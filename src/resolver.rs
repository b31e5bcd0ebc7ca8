use vstd::prelude::*;

use crate::addr::{ExchangeError, ResolveError, SockAddr};
use crate::codec::{is_valid_query_name, valid_query_name};

verus! {

/// The value of a decimal digit character.
pub open spec fn digit_value(c: char) -> nat {
    (c as u32 - '0' as u32) as nat
}

pub open spec fn is_digit(c: char) -> bool {
    '0' <= c && c <= '9'
}

/// The number that a string of decimal digits denotes.
pub open spec fn decimal_value(s: Seq<char>) -> nat
    decreases s.len(),
{
    if s.len() == 0 {
        0
    } else {
        decimal_value(s.drop_last()) * 10 + digit_value(s.last())
    }
}

/// The digits of a port number: the text after an optional leading '+'.
pub open spec fn port_digits(s: Seq<char>) -> Seq<char> {
    if s.len() > 0 && s[0] == '+' {
        s.drop_first()
    } else {
        s
    }
}

/// A port number in decimal: an optional '+', then at least one digit, the
/// value at most 65535.
pub open spec fn port_of(s: Seq<char>) -> Option<u16> {
    let d = port_digits(s);
    if d.len() > 0 && (forall|i: int| 0 <= i < d.len() ==> is_digit(#[trigger] d[i]))
        && decimal_value(d) <= 65535 {
        Some(decimal_value(d) as u16)
    } else {
        None
    }
}

proof fn lemma_decimal_prefix_le(s: Seq<char>, n: int)
    requires
        0 <= n <= s.len(),
    ensures
        decimal_value(s.subrange(0, n)) <= decimal_value(s),
    decreases s.len() - n,
{
    if n < s.len() {
        assert(s.subrange(0, n + 1).drop_last() == s.subrange(0, n));
        lemma_decimal_prefix_le(s, n + 1);
    } else {
        assert(s.subrange(0, n) == s);
    }
}

/// Reads a port number from `s`.
pub fn parse_port(s: &str) -> (r: Option<u16>)
    ensures
        r == port_of(s@),
{
    let n = s.unicode_len();
    let mut start: usize = 0;
    if n > 0 && s.get_char(0) == '+' {
        start = 1;
    }
    let ghost d = port_digits(s@);
    assert(d == s@.subrange(start as int, n as int));
    if start >= n {
        return None;
    }
    let mut i: usize = start;
    let mut acc: u32 = 0;
    while i < n
        invariant
            start <= i <= n,
            n == s@.len(),
            d == s@.subrange(start as int, n as int),
            d == port_digits(s@),
            forall|k: int| 0 <= k < i - start ==> is_digit(#[trigger] d[k]),
            acc as nat == decimal_value(d.subrange(0, i - start)),
            acc <= 65535,
        decreases n - i,
    {
        let c = s.get_char(i);
        assert(c == d[i - start]);
        let ghost k = i - start;
        if c < '0' || c > '9' {
            assert(!is_digit(d[k]));
            return None;
        }
        assert(d.subrange(0, k + 1).drop_last() == d.subrange(0, k));
        let next: u32 = acc * 10 + (c as u32 - '0' as u32);
        assert(decimal_value(d.subrange(0, k + 1)) == next);
        if next > 65535 {
            proof {
                lemma_decimal_prefix_le(d, k + 1);
            }
            return None;
        }
        acc = next;
        i = i + 1;
    }
    assert(d.subrange(0, i - start) == d);
    Some(acc as u16)
}

/// The position of the last ':' in `s`.
pub open spec fn last_colon(s: Seq<char>) -> Option<int>
    decreases s.len(),
{
    if s.len() == 0 {
        None
    } else if s.last() == ':' {
        Some(s.len() - 1)
    } else {
        last_colon(s.drop_last())
    }
}

/// A "host:port" input split at its last ':' into the host and the port.
pub open spec fn host_port_of(s: Seq<char>) -> Option<(Seq<char>, u16)> {
    match last_colon(s) {
        None => None,
        Some(i) => match port_of(s.subrange(i + 1, s.len() as int)) {
            None => None,
            Some(p) => Some((s.subrange(0, i), p)),
        },
    }
}

/// Whether `s` begins with "txt:", in any letter case.
pub open spec fn has_txt_prefix(s: Seq<char>) -> bool {
    &&& s.len() >= 4
    &&& (s[0] == 't' || s[0] == 'T')
    &&& (s[1] == 'x' || s[1] == 'X')
    &&& (s[2] == 't' || s[2] == 'T')
    &&& s[3] == ':'
}

/// What an input asks for, decided once at entry.
#[derive(Clone, Debug)]
pub enum Target {
    /// The input is itself a socket address.
    Literal(SockAddr),
    /// A TXT query for `name`, sent to the first name server.
    Txt { name: String, server: SockAddr },
    /// A/AAAA queries for `host`, tried against each server in turn.
    HostPort { host: String, port: u16, servers: Vec<SockAddr> },
}

pub ghost enum TargetView {
    Literal(SockAddr),
    Txt { name: Seq<char>, server: SockAddr },
    HostPort { host: Seq<char>, port: u16, servers: Seq<SockAddr> },
}

impl View for Target {
    type V = TargetView;

    open spec fn view(&self) -> TargetView {
        match self {
            Target::Literal(a) => TargetView::Literal(*a),
            Target::Txt { name, server } => TargetView::Txt { name: name@, server: *server },
            Target::HostPort { host, port, servers } => TargetView::HostPort {
                host: host@,
                port: *port,
                servers: servers@,
            },
        }
    }
}

pub open spec fn target_result_view(r: Result<Target, ResolveError>) -> Result<TargetView, ResolveError> {
    match r {
        Ok(t) => Ok(t@),
        Err(e) => Err(e),
    }
}

/// Whether every name-server address parsed.
pub open spec fn all_parsed(s: Seq<Option<SockAddr>>) -> bool {
    forall|i: int| 0 <= i < s.len() ==> (#[trigger] s[i]) is Some
}

pub open spec fn unwrap_all(s: Seq<Option<SockAddr>>) -> Seq<SockAddr> {
    s.map_values(|o: Option<SockAddr>| o->Some_0)
}

/// How an input is classified. `literal` is the input read as a socket
/// address, where it is one; `servers` holds each name server's address,
/// `None` where its text is malformed.
pub open spec fn classification(
    input: Seq<char>,
    literal: Option<SockAddr>,
    servers: Seq<Option<SockAddr>>,
) -> Result<TargetView, ResolveError> {
    if literal is Some {
        Ok(TargetView::Literal(literal->Some_0))
    } else if servers.len() == 0 {
        Err(ResolveError::NoNameServers)
    } else if !all_parsed(servers) {
        Err(ResolveError::Format)
    } else if has_txt_prefix(input) {
        if valid_query_name(input.skip(4)) {
            Ok(TargetView::Txt { name: input.skip(4), server: servers[0]->Some_0 })
        } else {
            Err(ResolveError::Format)
        }
    } else {
        match host_port_of(input) {
            Some((h, p)) => if valid_query_name(h) {
                Ok(TargetView::HostPort { host: h, port: p, servers: unwrap_all(servers) })
            } else {
                Err(ResolveError::Format)
            },
            None => Err(ResolveError::Format),
        }
    }
}

/// Finds the last ':' of `s`.
fn find_last_colon(s: &str) -> (r: Option<usize>)
    ensures
        match r {
            Some(i) => last_colon(s@) == Some(i as int) && i < s@.len(),
            None => last_colon(s@) is None,
        },
{
    let mut i: usize = s.unicode_len();
    assert(s@.subrange(0, i as int) == s@);
    while i > 0
        invariant
            i <= s@.len(),
            last_colon(s@) == last_colon(s@.subrange(0, i as int)),
        decreases i,
    {
        assert(s@.subrange(0, i as int).drop_last() == s@.subrange(0, i - 1));
        if s.get_char(i - 1) == ':' {
            return Some(i - 1);
        }
        i = i - 1;
    }
    None
}

/// Splits "host:port" at its last ':'.
pub fn split_host_port(input: &str) -> (r: Option<(String, u16)>)
    ensures
        match r {
            Some((h, p)) => host_port_of(input@) == Some((h@, p)),
            None => host_port_of(input@) is None,
        },
{
    proof {
        assert(input@.subrange(0, input@.len() as int) == input@);
    }
    let n = input.unicode_len();
    match find_last_colon(input) {
        None => None,
        Some(i) => {
            let port_text = input.substring_char(i + 1, n);
            match parse_port(port_text) {
                None => None,
                Some(p) => {
                    let host = input.substring_char(0, i);
                    Some((String::from_str(host), p))
                },
            }
        },
    }
}

/// Classifies an input once: a literal socket address is taken as it is;
/// otherwise a name server is needed, every name-server address must be
/// well formed, and the input is a TXT query or a "host:port" query whose
/// name can be sent in a query.
pub fn classify(input: &str, literal: Option<SockAddr>, servers: &Vec<Option<SockAddr>>) -> (r: Result<Target, ResolveError>)
    ensures
        target_result_view(r) == classification(input@, literal, servers@),
{
    if let Some(a) = literal {
        return Ok(Target::Literal(a));
    }
    if servers.len() == 0 {
        return Err(ResolveError::NoNameServers);
    }
    let mut parsed: Vec<SockAddr> = Vec::new();
    let mut i: usize = 0;
    while i < servers.len()
        invariant
            i <= servers.len(),
            literal is None,
            servers.len() > 0,
            all_parsed(servers@.subrange(0, i as int)),
            parsed@ == unwrap_all(servers@.subrange(0, i as int)),
        decreases servers.len() - i,
    {
        match servers[i] {
            None => {
                assert(!((servers@[i as int]) is Some));
                assert(!all_parsed(servers@));
                return Err(ResolveError::Format);
            },
            Some(a) => {
                parsed.push(a);
            },
        }
        i = i + 1;
        assert(parsed@ =~= unwrap_all(servers@.subrange(0, i as int)));
        assert(forall|k: int| 0 <= k < i ==> servers@.subrange(0, i as int)[k] == #[trigger] servers@[k]);
    }
    assert(servers@.subrange(0, i as int) == servers@);
    let n = input.unicode_len();
    if n >= 4 {
        let c0 = input.get_char(0);
        let c1 = input.get_char(1);
        let c2 = input.get_char(2);
        let c3 = input.get_char(3);
        if (c0 == 't' || c0 == 'T') && (c1 == 'x' || c1 == 'X') && (c2 == 't' || c2 == 'T') && c3 == ':' {
            let name = input.substring_char(4, n);
            if !is_valid_query_name(name) {
                return Err(ResolveError::Format);
            }
            return Ok(Target::Txt { name: String::from_str(name), server: parsed[0] });
        }
    }
    match split_host_port(input) {
        None => Err(ResolveError::Format),
        Some((host, port)) => {
            if !is_valid_query_name(host.as_str()) {
                return Err(ResolveError::Format);
            }
            Ok(Target::HostPort { host, port, servers: parsed })
        },
    }
}

/// The addresses of TXT strings that were each read as a socket address
/// (`None` where one was not one): all of them, in order, or a protocol
/// failure where any string is not an address or there is none.
pub fn txt_addresses(parsed: &Vec<Option<SockAddr>>) -> (r: Result<Vec<SockAddr>, ExchangeError>)
    ensures
        all_parsed(parsed@) && parsed@.len() > 0 ==> r is Ok && r->Ok_0@ == unwrap_all(parsed@),
        !(all_parsed(parsed@) && parsed@.len() > 0) ==> r == Err::<Vec<SockAddr>, ExchangeError>(ExchangeError::Protocol),
{
    if parsed.len() == 0 {
        return Err(ExchangeError::Protocol);
    }
    let mut out: Vec<SockAddr> = Vec::new();
    let mut i: usize = 0;
    while i < parsed.len()
        invariant
            i <= parsed.len(),
            all_parsed(parsed@.subrange(0, i as int)),
            out@ == unwrap_all(parsed@.subrange(0, i as int)),
        decreases parsed.len() - i,
    {
        match parsed[i] {
            None => {
                assert(!((parsed@[i as int]) is Some));
                return Err(ExchangeError::Protocol);
            },
            Some(a) => {
                out.push(a);
            },
        }
        i = i + 1;
        assert(out@ =~= unwrap_all(parsed@.subrange(0, i as int)));
        assert(forall|k: int| 0 <= k < i ==> parsed@.subrange(0, i as int)[k] == #[trigger] parsed@[k]);
    }
    assert(parsed@.subrange(0, i as int) == parsed@);
    Ok(out)
}

pub open spec fn v4_addrs(ips: Seq<u32>, port: u16) -> Seq<SockAddr> {
    ips.map_values(|ip: u32| SockAddr::V4 { ip, port })
}

pub open spec fn v6_addrs(ips: Seq<u128>, port: u16) -> Seq<SockAddr> {
    ips.map_values(|ip: u128| SockAddr::V6 { ip, port, flowinfo: 0, scope_id: 0 })
}

/// The candidates that one server's two exchanges give: the IPv6 ones
/// first, then the IPv4 ones, each with the query's port.
pub open spec fn merged(
    a: Result<Seq<u32>, ExchangeError>,
    aaaa: Result<Seq<u128>, ExchangeError>,
    port: u16,
) -> Seq<SockAddr> {
    let v6 = match aaaa {
        Ok(ips) => v6_addrs(ips, port),
        Err(_) => Seq::empty(),
    };
    let v4 = match a {
        Ok(ips) => v4_addrs(ips, port),
        Err(_) => Seq::empty(),
    };
    v6 + v4
}

/// The failures of one server's two exchanges, the A one first.
pub open spec fn failures(a: Result<Seq<u32>, ExchangeError>, aaaa: Result<Seq<u128>, ExchangeError>) -> Seq<ExchangeError> {
    let fa = match a {
        Ok(_) => Seq::empty(),
        Err(e) => seq![e],
    };
    let f6 = match aaaa {
        Ok(_) => Seq::empty(),
        Err(e) => seq![e],
    };
    fa + f6
}

/// Merges the outcomes of one server's A and AAAA exchanges.
pub fn merge_families(
    a: &Result<Vec<u32>, ExchangeError>,
    aaaa: &Result<Vec<u128>, ExchangeError>,
    port: u16,
) -> (r: Vec<SockAddr>)
    ensures
        r@ == merged(crate::codec::u32s_view(*a), crate::codec::u128s_view(*aaaa), port),
{
    let mut out: Vec<SockAddr> = Vec::new();
    if let Ok(ips) = aaaa {
        let mut i: usize = 0;
        while i < ips.len()
            invariant
                i <= ips.len(),
                out@ == v6_addrs(ips@.subrange(0, i as int), port),
            decreases ips.len() - i,
        {
            out.push(SockAddr::V6 { ip: ips[i], port, flowinfo: 0, scope_id: 0 });
            i = i + 1;
            assert(out@ =~= v6_addrs(ips@.subrange(0, i as int), port));
        }
        assert(ips@.subrange(0, i as int) == ips@);
    }
    let ghost v6 = out@;
    if let Ok(ips) = a {
        let mut i: usize = 0;
        while i < ips.len()
            invariant
                i <= ips.len(),
                out@ == v6 + v4_addrs(ips@.subrange(0, i as int), port),
            decreases ips.len() - i,
        {
            out.push(SockAddr::V4 { ip: ips[i], port });
            i = i + 1;
            assert(out@ =~= v6 + v4_addrs(ips@.subrange(0, i as int), port));
        }
        assert(ips@.subrange(0, i as int) == ips@);
    }
    assert(out@ =~= merged(crate::codec::u32s_view(*a), crate::codec::u128s_view(*aaaa), port));
    out
}

/// What the caller of a host resolution does next.
#[derive(Clone, Debug)]
pub enum ResolveAction {
    /// Run the A and AAAA exchanges against this server, then `record` both.
    Query(SockAddr),
    /// Resolution succeeded with these candidates.
    Done(Vec<SockAddr>),
    /// No server is left to try: the call fails with `failure()`.
    Stop,
}

pub ghost enum ActionView {
    Query(SockAddr),
    Done(Seq<SockAddr>),
    Stop,
}

impl View for ResolveAction {
    type V = ActionView;

    open spec fn view(&self) -> ActionView {
        match self {
            ResolveAction::Query(a) => ActionView::Query(*a),
            ResolveAction::Done(v) => ActionView::Done(v@),
            ResolveAction::Stop => ActionView::Stop,
        }
    }
}

/// A "host:port" resolution in progress: the servers in order of priority,
/// the next one to try, and the exchange failures folded in so far.
#[derive(Clone, Debug)]
pub struct HostResolver {
    pub host: String,
    pub port: u16,
    pub servers: Vec<SockAddr>,
    pub next: usize,
    pub errors: Vec<ExchangeError>,
}

impl HostResolver {
    pub open spec fn wf(&self) -> bool {
        self.next <= self.servers.len()
    }

    /// The action that the state asks for before the next server answers.
    pub open spec fn pending(&self) -> ActionView {
        if self.next < self.servers.len() {
            ActionView::Query(self.servers@[self.next as int])
        } else {
            ActionView::Stop
        }
    }

    /// Starts a resolution of `host`, nothing tried yet.
    pub fn new(host: String, port: u16, servers: Vec<SockAddr>) -> (r: HostResolver)
        ensures
            r.host == host,
            r.port == port,
            r.servers == servers,
            r.next == 0,
            r.errors@.len() == 0,
            r.wf(),
    {
        HostResolver { host, port, servers, next: 0, errors: Vec::new() }
    }

    /// The first action: query the first server, or stop where there is none.
    pub fn begin(&self) -> (r: ResolveAction)
        requires
            self.wf(),
        ensures
            r@ == self.pending(),
    {
        if self.next < self.servers.len() {
            ResolveAction::Query(self.servers[self.next])
        } else {
            ResolveAction::Stop
        }
    }

    /// Takes in the outcomes of the current server's A and AAAA exchanges.
    /// Where they give any address the resolution is done with them and no
    /// other server is asked; otherwise their failures are folded in and the
    /// next server, if any, is asked.
    pub fn record(
        &mut self,
        a: Result<Vec<u32>, ExchangeError>,
        aaaa: Result<Vec<u128>, ExchangeError>,
    ) -> (r: ResolveAction)
        requires
            old(self).wf(),
            old(self).next < old(self).servers.len(),
        ensures
            final(self).wf(),
            final(self).host == old(self).host,
            final(self).port == old(self).port,
            final(self).servers == old(self).servers,
            ({
                let m = merged(crate::codec::u32s_view(a), crate::codec::u128s_view(aaaa), old(self).port);
                if m.len() > 0 {
                    &&& r@ == ActionView::Done(m)
                    &&& final(self).next == old(self).next
                    &&& final(self).errors@ == old(self).errors@
                } else {
                    &&& final(self).next == old(self).next + 1
                    &&& final(self).errors@ == old(self).errors@ + failures(
                        crate::codec::u32s_view(a),
                        crate::codec::u128s_view(aaaa),
                    )
                    &&& r@ == final(self).pending()
                }
            }),
    {
        let found = merge_families(&a, &aaaa, self.port);
        if found.len() > 0 {
            return ResolveAction::Done(found);
        }
        let ghost before = self.errors@;
        if let Err(e) = a {
            self.errors.push(e);
        }
        if let Err(e) = aaaa {
            self.errors.push(e);
        }
        assert(self.errors@ =~= before + failures(crate::codec::u32s_view(a), crate::codec::u128s_view(aaaa)));
        self.next = self.next + 1;
        self.begin()
    }

    /// The failure of a resolution that stopped: no name server at all, or
    /// every one tried, with the failures met on the way.
    pub fn failure(self) -> (r: ResolveError)
        ensures
            self.servers@.len() == 0 ==> r == ResolveError::NoNameServers,
            self.servers@.len() > 0 ==> r is Exhausted && r->Exhausted_0@ == self.errors@,
    {
        if self.servers.len() == 0 {
            ResolveError::NoNameServers
        } else {
            ResolveError::Exhausted(self.errors)
        }
    }
}

} // verus!
