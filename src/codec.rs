use vstd::prelude::*;

use crate::addr::ExchangeError;

verus! {

/// The record types that this library asks for.
#[derive(Clone, Copy, Debug, PartialEq, Eq, Structural)]
pub enum RecordType {
    A,
    Aaaa,
    Txt,
}

/// The type code that a question carries on the wire.
pub open spec fn type_code(t: RecordType) -> u16 {
    match t {
        RecordType::A => 1,
        RecordType::Aaaa => 28,
        RecordType::Txt => 16,
    }
}

/// The bytes of a recursive query, id 1, with one question of class IN.
pub uninterp spec fn query_bytes_of(name: Seq<char>, qtype: u16) -> Seq<u8>;

/// Whether every label of `s`, from position `i` on, stays shorter than 63
/// characters, given that `run` characters of the current label precede `i`.
pub open spec fn labels_short_from(s: Seq<char>, i: int, run: nat) -> bool
    decreases s.len() - i,
{
    if i < 0 || i >= s.len() {
        true
    } else if s[i] == '.' {
        labels_short_from(s, i + 1, 0)
    } else {
        run + 1 < 63 && labels_short_from(s, i + 1, run + 1)
    }
}

/// A name that fits one unsigned query message: ASCII, every dot-separated
/// label under 63 characters, the whole message within 512 bytes.
pub open spec fn valid_query_name(s: Seq<char>) -> bool {
    &&& s.len() <= 494
    &&& forall|i: int| 0 <= i < s.len() ==> (s[i] as u32) < 128
    &&& labels_short_from(s, 0, 0)
}

/// Relies on dns_parser's Builder (new_query, add_question, build): the query
/// message for `name` and `rtype`. On a valid name no label reaches 63 bytes,
/// so add_question does not panic, and the message is not truncated.
#[verifier::external_body]
fn build_query_message(name: &str, rtype: RecordType) -> (r: Vec<u8>)
    requires
        valid_query_name(name@),
    ensures
        r@ == query_bytes_of(name@, type_code(rtype)),
{
    let qtype = match rtype {
        RecordType::A => dns_parser::QueryType::A,
        RecordType::Aaaa => dns_parser::QueryType::AAAA,
        RecordType::Txt => dns_parser::QueryType::TXT,
    };
    let mut builder = dns_parser::Builder::new_query(1, true);
    builder.add_question(name, false, qtype, dns_parser::QueryClass::IN);
    match builder.build() {
        Ok(p) => p,
        Err(p) => p,
    }
}

/// Checks that `name` can be sent as the question of a query.
pub fn is_valid_query_name(name: &str) -> (r: bool)
    ensures
        r == valid_query_name(name@),
{
    let n = name.unicode_len();
    if n > 494 {
        return false;
    }
    let mut i: usize = 0;
    let mut run: usize = 0;
    while i < n
        invariant
            n == name@.len(),
            i <= n,
            run < 63,
            forall|k: int| 0 <= k < i ==> (name@[k] as u32) < 128,
            labels_short_from(name@, 0, 0) == labels_short_from(name@, i as int, run as nat),
        decreases n - i,
    {
        let c = name.get_char(i);
        if (c as u32) >= 128 {
            return false;
        }
        if c == '.' {
            run = 0;
        } else {
            if run + 1 >= 63 {
                return false;
            }
            run = run + 1;
        }
        i = i + 1;
    }
    true
}

/// Builds the query for `name` and `rtype`: recursion desired, one question.
pub fn query_packet(name: &str, rtype: RecordType) -> (r: Vec<u8>)
    requires
        valid_query_name(name@),
    ensures
        r@ == query_bytes_of(name@, type_code(rtype)),
{
    build_query_message(name, rtype)
}

/// One answer record of a reply, as far as this library reads it.
#[derive(Clone, Debug)]
pub enum Answer {
    A(u32),
    Aaaa(u128),
    /// The character strings of a TXT record, in order.
    Txt(Vec<Vec<u8>>),
    /// A record of any other type.
    Other,
}

pub ghost enum AnswerView {
    A(u32),
    Aaaa(u128),
    Txt(Seq<Seq<u8>>),
    Other,
}

impl View for Answer {
    type V = AnswerView;

    open spec fn view(&self) -> AnswerView {
        match self {
            Answer::A(ip) => AnswerView::A(*ip),
            Answer::Aaaa(ip) => AnswerView::Aaaa(*ip),
            Answer::Txt(chunks) => AnswerView::Txt(bytes_views(chunks@)),
            Answer::Other => AnswerView::Other,
        }
    }
}

/// A parsed reply: its response code and its answer records.
#[derive(Clone, Debug)]
pub struct DnsResponse {
    pub rcode: u8,
    pub answers: Vec<Answer>,
}

/// The byte strings that a sequence of buffers holds.
pub open spec fn bytes_views(s: Seq<Vec<u8>>) -> Seq<Seq<u8>> {
    s.map_values(|c: Vec<u8>| c@)
}

pub ghost struct ResponseView {
    pub rcode: u8,
    pub answers: Seq<AnswerView>,
}

impl View for DnsResponse {
    type V = ResponseView;

    open spec fn view(&self) -> ResponseView {
        ResponseView { rcode: self.rcode, answers: self.answers@.map_values(|a: Answer| a@) }
    }
}

/// What a reply's bytes parse to, or `None` where they are not a message.
pub uninterp spec fn parsed_of(bytes: Seq<u8>) -> Option<ResponseView>;

pub open spec fn parsed_view(r: Option<DnsResponse>) -> Option<ResponseView> {
    match r {
        Some(p) => Some(p@),
        None => None,
    }
}

/// Relies on dns_parser::Packet::parse: the response code and the answer
/// records of a reply, the A, AAAA and TXT data read out of each.
#[verifier::external_body]
fn parse_message(buf: &[u8]) -> (r: Option<DnsResponse>)
    ensures
        parsed_view(r) == parsed_of(buf@),
{
    let p = dns_parser::Packet::parse(buf).ok()?;
    let answers = p.answers.iter().map(|rec| match &rec.data {
        dns_parser::RData::A(a) => Answer::A(u32::from(a.0)),
        dns_parser::RData::AAAA(a) => Answer::Aaaa(u128::from(a.0)),
        dns_parser::RData::TXT(t) => Answer::Txt(t.iter().map(|c| c.to_vec()).collect()),
        _ => Answer::Other,
    }).collect();
    Some(DnsResponse { rcode: p.header.response_code.into(), answers })
}

/// Parses a reply's bytes.
pub fn parse_response(buf: &[u8]) -> (r: Option<DnsResponse>)
    ensures
        parsed_view(r) == parsed_of(buf@),
{
    parse_message(buf)
}

/// A reply counts as an answer only with a success code and at least one
/// answer record; any other reply is a failed exchange.
pub open spec fn accepted(r: ResponseView) -> bool {
    r.rcode == 0 && r.answers.len() > 0
}

/// The IPv4 addresses of the A records, in order.
pub open spec fn a_addrs(ans: Seq<AnswerView>) -> Seq<u32>
    decreases ans.len(),
{
    if ans.len() == 0 {
        Seq::empty()
    } else {
        match ans.last() {
            AnswerView::A(ip) => a_addrs(ans.drop_last()).push(ip),
            _ => a_addrs(ans.drop_last()),
        }
    }
}

/// The IPv6 addresses of the AAAA records, in order.
pub open spec fn aaaa_addrs(ans: Seq<AnswerView>) -> Seq<u128>
    decreases ans.len(),
{
    if ans.len() == 0 {
        Seq::empty()
    } else {
        match ans.last() {
            AnswerView::Aaaa(ip) => aaaa_addrs(ans.drop_last()).push(ip),
            _ => aaaa_addrs(ans.drop_last()),
        }
    }
}

/// The character strings of all TXT records, record after record.
pub open spec fn txt_strings(ans: Seq<AnswerView>) -> Seq<Seq<u8>>
    decreases ans.len(),
{
    if ans.len() == 0 {
        Seq::empty()
    } else {
        match ans.last() {
            AnswerView::Txt(chunks) => txt_strings(ans.drop_last()) + chunks,
            _ => txt_strings(ans.drop_last()),
        }
    }
}

/// The outcome of an A exchange whose reply parsed to `r`.
pub open spec fn a_outcome(r: ResponseView) -> Result<Seq<u32>, ExchangeError> {
    if accepted(r) {
        Ok(a_addrs(r.answers))
    } else {
        Err(ExchangeError::Protocol)
    }
}

/// The outcome of an AAAA exchange whose reply parsed to `r`.
pub open spec fn aaaa_outcome(r: ResponseView) -> Result<Seq<u128>, ExchangeError> {
    if accepted(r) {
        Ok(aaaa_addrs(r.answers))
    } else {
        Err(ExchangeError::Protocol)
    }
}

/// The outcome of a TXT exchange whose reply parsed to `r`: its strings,
/// of which there must be at least one.
pub open spec fn txt_outcome(r: ResponseView) -> Result<Seq<Seq<u8>>, ExchangeError> {
    if accepted(r) && txt_strings(r.answers).len() > 0 {
        Ok(txt_strings(r.answers))
    } else {
        Err(ExchangeError::Protocol)
    }
}

pub open spec fn u32s_view(r: Result<Vec<u32>, ExchangeError>) -> Result<Seq<u32>, ExchangeError> {
    match r {
        Ok(v) => Ok(v@),
        Err(e) => Err(e),
    }
}

pub open spec fn u128s_view(r: Result<Vec<u128>, ExchangeError>) -> Result<Seq<u128>, ExchangeError> {
    match r {
        Ok(v) => Ok(v@),
        Err(e) => Err(e),
    }
}

pub open spec fn strings_view(r: Result<Vec<Vec<u8>>, ExchangeError>) -> Result<Seq<Seq<u8>>, ExchangeError> {
    match r {
        Ok(v) => Ok(bytes_views(v@)),
        Err(e) => Err(e),
    }
}

/// The IPv4 addresses that an accepted reply carries.
pub fn a_records(resp: &DnsResponse) -> (r: Result<Vec<u32>, ExchangeError>)
    ensures
        u32s_view(r) == a_outcome(resp@),
{
    if resp.rcode != 0 || resp.answers.len() == 0 {
        return Err(ExchangeError::Protocol);
    }
    let mut out: Vec<u32> = Vec::new();
    let mut i: usize = 0;
    while i < resp.answers.len()
        invariant
            i <= resp.answers.len(),
            out@ == a_addrs(resp@.answers.subrange(0, i as int)),
        decreases resp.answers.len() - i,
    {
        proof {
            assert(resp@.answers.subrange(0, i + 1).drop_last() == resp@.answers.subrange(0, i as int));
        }
        match &resp.answers[i] {
            Answer::A(ip) => out.push(*ip),
            _ => {},
        }
        i = i + 1;
    }
    proof {
        assert(resp@.answers.subrange(0, i as int) == resp@.answers);
    }
    Ok(out)
}

/// The IPv6 addresses that an accepted reply carries.
pub fn aaaa_records(resp: &DnsResponse) -> (r: Result<Vec<u128>, ExchangeError>)
    ensures
        u128s_view(r) == aaaa_outcome(resp@),
{
    if resp.rcode != 0 || resp.answers.len() == 0 {
        return Err(ExchangeError::Protocol);
    }
    let mut out: Vec<u128> = Vec::new();
    let mut i: usize = 0;
    while i < resp.answers.len()
        invariant
            i <= resp.answers.len(),
            out@ == aaaa_addrs(resp@.answers.subrange(0, i as int)),
        decreases resp.answers.len() - i,
    {
        proof {
            assert(resp@.answers.subrange(0, i + 1).drop_last() == resp@.answers.subrange(0, i as int));
        }
        match &resp.answers[i] {
            Answer::Aaaa(ip) => out.push(*ip),
            _ => {},
        }
        i = i + 1;
    }
    proof {
        assert(resp@.answers.subrange(0, i as int) == resp@.answers);
    }
    Ok(out)
}

/// The TXT strings that an accepted reply carries, of which there must be
/// at least one.
pub fn txt_records(resp: &DnsResponse) -> (r: Result<Vec<Vec<u8>>, ExchangeError>)
    ensures
        strings_view(r) == txt_outcome(resp@),
{
    if resp.rcode != 0 || resp.answers.len() == 0 {
        return Err(ExchangeError::Protocol);
    }
    let mut out: Vec<Vec<u8>> = Vec::new();
    let mut i: usize = 0;
    while i < resp.answers.len()
        invariant
            i <= resp.answers.len(),
            bytes_views(out@) == txt_strings(resp@.answers.subrange(0, i as int)),
        decreases resp.answers.len() - i,
    {
        proof {
            assert(resp@.answers.subrange(0, i + 1).drop_last() == resp@.answers.subrange(0, i as int));
        }
        match &resp.answers[i] {
            Answer::Txt(chunks) => {
                let ghost before = bytes_views(out@);
                let mut j: usize = 0;
                while j < chunks.len()
                    invariant
                        j <= chunks.len(),
                        bytes_views(out@) == before + bytes_views(chunks@).subrange(0, j as int),
                    decreases chunks.len() - j,
                {
                    let c = chunks[j].clone();
                    let ghost prev = out@;
                    proof {
                        assert(c@ =~= chunks@[j as int]@);
                    }
                    out.push(c);
                    proof {
                        assert(bytes_views(out@) =~= bytes_views(prev).push(c@));
                        assert(bytes_views(chunks@).subrange(0, j + 1) =~= bytes_views(chunks@).subrange(0, j as int).push(c@));
                    }
                    j = j + 1;
                }
                proof {
                    assert(bytes_views(chunks@).subrange(0, j as int) =~= bytes_views(chunks@));
                }
            },
            _ => {},
        }
        i = i + 1;
    }
    proof {
        assert(resp@.answers.subrange(0, i as int) == resp@.answers);
    }
    if out.len() == 0 {
        return Err(ExchangeError::Protocol);
    }
    Ok(out)
}

/// The outcome of an A exchange, read from the reply's bytes.
pub fn a_dns(reply: &[u8]) -> (r: Result<Vec<u32>, ExchangeError>)
    ensures
        u32s_view(r) == match parsed_of(reply@) {
            Some(v) => a_outcome(v),
            None => Err(ExchangeError::Protocol),
        },
{
    match parse_message(reply) {
        Some(resp) => a_records(&resp),
        None => Err(ExchangeError::Protocol),
    }
}

/// The outcome of an AAAA exchange, read from the reply's bytes.
pub fn aaaa_dns(reply: &[u8]) -> (r: Result<Vec<u128>, ExchangeError>)
    ensures
        u128s_view(r) == match parsed_of(reply@) {
            Some(v) => aaaa_outcome(v),
            None => Err(ExchangeError::Protocol),
        },
{
    match parse_message(reply) {
        Some(resp) => aaaa_records(&resp),
        None => Err(ExchangeError::Protocol),
    }
}

/// The TXT strings of a TXT exchange, read from the reply's bytes.
pub fn txt_dns(reply: &[u8]) -> (r: Result<Vec<Vec<u8>>, ExchangeError>)
    ensures
        strings_view(r) == match parsed_of(reply@) {
            Some(v) => txt_outcome(v),
            None => Err(ExchangeError::Protocol),
        },
{
    match parse_message(reply) {
        Some(resp) => txt_records(&resp),
        None => Err(ExchangeError::Protocol),
    }
}

/// A reply with a failure code and a reply with no answer records are both
/// a failed exchange, whatever record type was asked for; neither is an
/// empty list of results.
pub proof fn lemma_rejected_reply_fails(r: ResponseView)
    requires
        r.rcode != 0 || r.answers.len() == 0,
    ensures
        a_outcome(r) == Err::<Seq<u32>, ExchangeError>(ExchangeError::Protocol),
        aaaa_outcome(r) == Err::<Seq<u128>, ExchangeError>(ExchangeError::Protocol),
        txt_outcome(r) == Err::<Seq<Seq<u8>>, ExchangeError>(ExchangeError::Protocol),
{
}

} // verus!
