//! What is answered to a query.
//!
//! Answering an AAAA query takes up to four steps outside: finding the domain in the
//! database, resolving it upstream, taking a new domain id, and storing the new mapping. The
//! functions here say what each step is given and what its outcome leads to.

use vstd::prelude::*;

use crate::address::law_synthetic_addr_by_bytes;
use crate::address::law_synthetic_addr_carries_domain_id;
use crate::address::synthetic_addr;
use crate::address::synthetic_ipv6;
use crate::dataplane::packet::dst_addr_of;
use crate::dataplane::packet::tcp_or_udp;
use crate::dataplane::plan::TcStep;
use crate::dataplane::tc_ingress::ingress_step;
use crate::dns::message::encode_response;
use crate::dns::message::encoded_response;
use crate::dns::message::header_of;
use crate::dns::message::labels_view;
use crate::dns::message::law_header_bit_by_bit;
use crate::dns::message::parse_request;
use crate::dns::message::parsed_request;
use crate::dns::message::response_has_header;
use crate::dns::message::Answer;
use crate::dns::message::AnswerView;
use crate::dns::message::DnsRequest;
use crate::dns::message::DnsResponse;
use crate::dns::message::HeaderView;
use crate::dns::message::RequestView;
use crate::dns::message::ResponseView;
use crate::dns::message::HEADER_LEN;
use crate::dns::message::MAX_SECTION_LEN;
use crate::dns::message::RCODE_FORM_ERR;
use crate::dns::message::RCODE_NO_ERROR;
use crate::dns::message::RCODE_NX_DOMAIN;
use crate::dns::message::RCODE_SERV_FAIL;
use crate::dns::message::TYPE_AAAA;
use crate::numbers::as_unsigned;
use crate::numbers::same_bits;
use crate::text::law_lowered_by_code_point;
use crate::text::law_only_trailing_dots_go;
use crate::text::lower;
use crate::text::lowered;
use crate::text::to_lower;
use crate::text::trim_trailing_dots;
use crate::text::without_trailing_dots;

verus! {

/// How long an answer is valid if nothing else is known, in seconds.
pub const DEFAULT_TTL: u32 = 300;

/// Why a query is not answered by the handler.
#[derive(Clone, Copy, PartialEq, Eq, Structural, Debug)]
pub enum QueryError {
    /// The query is no message.
    Malformed,
    /// The stored synthetic address is no address.
    InvalidSynthetic,
    /// The response does not fit in a message, or holds labels that form no name.
    Encoding,
}

/// A domain as the database stores it.
pub struct DomainRow {
    pub domain_id: i32,
    pub domain: String,
    pub origin_ipv6: String,
    pub synthetic_ipv6: String,
    pub ttl_seconds: Option<i32>,
}

/// A query for the address of a domain that is not answered yet.
pub struct Pending {
    pub domain: String,
    /// The response without an answer.
    pub response: DnsResponse,
}

/// A [`Pending`] over views.
pub struct PendingView {
    pub domain: Seq<char>,
    pub response: ResponseView,
}

impl View for Pending {
    type V = PendingView;

    open spec fn view(&self) -> PendingView {
        PendingView { domain: self.domain@, response: self.response@ }
    }
}

impl Pending {
    /// There is a question, and no more than a section can hold.
    pub open spec fn wf(self) -> bool {
        0 < self.response.questions@.len() <= MAX_SECTION_LEN
    }
}

/// What a query leads to.
pub enum QueryStart {
    /// This response, with nothing to be found out.
    Respond(DnsResponse),
    /// The domain has to be found in the database.
    FindDomain(Pending),
}

/// A [`QueryStart`] over views.
pub enum QueryStartView {
    Respond(ResponseView),
    FindDomain(PendingView),
}

impl View for QueryStart {
    type V = QueryStartView;

    open spec fn view(&self) -> QueryStartView {
        match self {
            QueryStart::Respond(response) => QueryStartView::Respond(response@),
            QueryStart::FindDomain(pending) => QueryStartView::FindDomain(pending@),
        }
    }
}

/// What a lookup of AAAA records came back with.
pub enum LookupOutcome {
    /// These addresses, in the order of the records.
    Records(Vec<[u8; 16]>),
    /// A failure that says that there are no such records.
    NoRecordsFound,
    /// Another failure.
    Failed,
}

/// What upstream resolution came to.
#[derive(Clone, Copy)]
pub enum Upstream {
    /// The first AAAA record.
    Found([u8; 16]),
    /// There is no AAAA record.
    NoRecord,
    /// The lookup failed.
    Failed,
}

/// What the outcome of a database search leads to.
pub enum RowStep {
    /// This response.
    Respond(DnsResponse),
    /// The domain has to be resolved upstream.
    Resolve(Pending),
    /// An error.
    Fail(QueryError),
}

/// What an upstream outcome leads to.
pub enum UpstreamStep {
    /// This response.
    Respond(DnsResponse),
    /// The domain needs a new id and leads to this origin.
    Allocate { pending: Pending, origin: [u8; 16] },
}

/// A mapping to store.
pub struct NewMapping {
    pub domain_id: i32,
    pub domain: String,
    pub origin: [u8; 16],
    pub synthetic: [u8; 16],
    pub ttl_seconds: i32,
}

// ---------------------------------------------------------------------------
// Responses
// ---------------------------------------------------------------------------

/// The response to a request with a given code and no answer: the id, the operation code,
/// the recursion flag and the questions are the request's.
pub open spec fn response_to(request: RequestView, rcode: u8) -> ResponseView {
    ResponseView {
        id: request.id,
        op_code: request.op_code,
        recursion_desired: request.recursion_desired,
        recursion_available: true,
        rcode,
        questions: request.questions,
        answer: None,
    }
}

/// The header of a response to a query: the same id, operation code, recursion flag and
/// number of questions, and recursion is offered.
pub open spec fn replies_to(reply: HeaderView, query: HeaderView) -> bool {
    &&& reply.id == query.id
    &&& reply.is_response
    &&& reply.op_code == query.op_code
    &&& reply.recursion_desired == query.recursion_desired
    &&& reply.recursion_available
    &&& reply.question_count == query.question_count
}

/// Turn a request into its response.
fn respond(request: DnsRequest, rcode: u8) -> (response: DnsResponse)
    ensures
        response@ == response_to(request@, rcode),
        response.questions@ == request.questions@,
{
    DnsResponse {
        id: request.id,
        op_code: request.op_code,
        recursion_desired: request.recursion_desired,
        recursion_available: true,
        rcode,
        questions: request.questions,
        answer: None,
    }
}

/// The answer to a request that was read: a failure of the server.
pub fn servfail_response(request: DnsRequest) -> (response: DnsResponse)
    ensures
        response@ == response_to(request@, RCODE_SERV_FAIL),
        response.questions@ == request.questions@,
{
    respond(request, RCODE_SERV_FAIL)
}

/// The response that tells the sender of a query of a server failure: none if the query is no
/// message, or if the response cannot be written.
pub open spec fn servfail_bytes(query: Seq<u8>) -> Option<Seq<u8>> {
    match parsed_request(query) {
        Some(request) => encoded_response(response_to(request, RCODE_SERV_FAIL)),
        None => None,
    }
}

/// The bytes are a response to the query that tells of a server failure, by their header.
pub open spec fn tells_of_failure(response: Seq<u8>, query: Seq<u8>) -> bool {
    &&& query.len() >= HEADER_LEN
    &&& response.len() >= HEADER_LEN
    &&& replies_to(header_of(response), header_of(query))
    &&& header_of(response).rcode == RCODE_SERV_FAIL
    &&& header_of(response).answer_count == 0
}

/// Build a response that tells of a server failure, as bytes.
///
/// `None` if the query is no message, or if the response cannot be written.
pub fn servfail(query_bytes: &[u8]) -> (response: Option<Vec<u8>>)
    ensures
        response is Some <==> servfail_bytes(query_bytes@) is Some,
        response matches Some(bytes) ==> servfail_bytes(query_bytes@) == Some(bytes@),
        response matches Some(bytes) ==> tells_of_failure(bytes@, query_bytes@),
{
    let request: DnsRequest = match parse_request(query_bytes) {
        Ok(request) => request,
        Err(_) => return None,
    };
    let response = servfail_response(request);
    match encode_response(&response) {
        Ok(bytes) => Some(bytes),
        Err(_) => None,
    }
}

/// Write a response.
pub fn finish(response: &DnsResponse) -> (bytes: Result<Vec<u8>, QueryError>)
    requires
        response.questions@.len() <= MAX_SECTION_LEN,
    ensures
        match encoded_response(response@) {
            Some(b) => bytes is Ok && bytes->Ok_0@ == b,
            None => bytes == Err::<Vec<u8>, QueryError>(QueryError::Encoding),
        },
        bytes matches Ok(b) ==> b@.len() >= HEADER_LEN && response_has_header(
            *response,
            header_of(b@),
        ),
{
    match encode_response(response) {
        Ok(bytes) => Ok(bytes),
        Err(_) => Err(QueryError::Encoding),
    }
}

// ---------------------------------------------------------------------------
// The query
// ---------------------------------------------------------------------------

/// The domain that a name in presentation form stands for: in lower case, without the dots
/// behind.
pub open spec fn domain_of(ascii: Seq<char>) -> Seq<char> {
    lowered(without_trailing_dots(ascii))
}

/// What a request leads to. Only the first question counts. AAAA is looked up, everything
/// else does not exist, and a request without a question is malformed.
pub open spec fn query_start(request: RequestView) -> QueryStartView {
    if request.questions.len() == 0 {
        QueryStartView::Respond(response_to(request, RCODE_FORM_ERR))
    } else if request.questions[0].qtype == TYPE_AAAA {
        QueryStartView::FindDomain(
            PendingView {
                domain: domain_of(request.questions[0].ascii),
                response: response_to(request, RCODE_NO_ERROR),
            },
        )
    } else {
        QueryStartView::Respond(response_to(request, RCODE_NX_DOMAIN))
    }
}

/// Every response within keeps to the section limit, and a pending one has a question.
pub open spec fn start_wf(start: QueryStart) -> bool {
    match start {
        QueryStart::Respond(response) => response.questions@.len() <= MAX_SECTION_LEN,
        QueryStart::FindDomain(pending) => pending.wf(),
    }
}

/// The response within, pending or not, has the id, the operation code, the recursion flag
/// and as many questions as a query's header says.
pub open spec fn response_copies_header(start: QueryStart, header: HeaderView) -> bool {
    let response = match start {
        QueryStart::Respond(response) => response,
        QueryStart::FindDomain(pending) => pending.response,
    };
    &&& response.id == header.id
    &&& response.op_code == header.op_code
    &&& response.recursion_desired == header.recursion_desired
    &&& response.questions@.len() == header.question_count
}

/// Decide what a request leads to.
pub fn start_query(request: DnsRequest) -> (start: QueryStart)
    ensures
        start@ == query_start(request@),
        request.questions@.len() <= MAX_SECTION_LEN ==> start_wf(start),
        match start {
            QueryStart::Respond(response) => response.questions@ == request.questions@,
            QueryStart::FindDomain(pending) => pending.response.questions@ == request.questions@,
        },
{
    if request.questions.len() == 0 {
        return QueryStart::Respond(respond(request, RCODE_FORM_ERR));
    }
    assert(request@.questions[0] == request.questions@[0]@);
    if request.questions[0].qtype == TYPE_AAAA {
        let domain: String = to_lower(trim_trailing_dots(request.questions[0].ascii.as_str()));
        QueryStart::FindDomain(Pending { domain, response: respond(request, RCODE_NO_ERROR) })
    } else {
        QueryStart::Respond(respond(request, RCODE_NX_DOMAIN))
    }
}

/// Read a query and decide what it leads to.
pub fn handle_query(data: &[u8]) -> (start: Result<QueryStart, QueryError>)
    ensures
        match parsed_request(data@) {
            Some(request) => start is Ok && start->Ok_0@ == query_start(request),
            None => start == Err::<QueryStart, QueryError>(QueryError::Malformed),
        },
        start matches Ok(s) ==> start_wf(s) && data@.len() >= HEADER_LEN && response_copies_header(
            s,
            header_of(data@),
        ),
{
    match parse_request(data) {
        Ok(request) => Ok(start_query(request)),
        Err(_) => Err(QueryError::Malformed),
    }
}

// ---------------------------------------------------------------------------
// Answers
// ---------------------------------------------------------------------------

/// A pending response with an address for its first question.
pub open spec fn answered(pending: ResponseView, ttl: u32, addr: Seq<u8>) -> ResponseView {
    ResponseView {
        rcode: RCODE_NO_ERROR,
        answer: Some(AnswerView { labels: pending.questions[0].labels, ttl, addr }),
        ..pending
    }
}

/// A pending response with another code and no answer.
pub open spec fn refused(pending: ResponseView, rcode: u8) -> ResponseView {
    ResponseView { rcode, answer: None, ..pending }
}

/// A copy of a list of labels.
fn copy_labels(labels: &Vec<Vec<u8>>) -> (copy: Vec<Vec<u8>>)
    ensures
        labels_view(copy@) == labels_view(labels@),
{
    let mut copy: Vec<Vec<u8>> = Vec::new();
    let mut i: usize = 0;
    while i < labels.len()
        invariant
            i <= labels.len(),
            copy.len() == i,
            forall|j: int| 0 <= j < i ==> (#[trigger] copy@[j])@ == labels@[j]@,
        decreases labels.len() - i,
    {
        let mut label: Vec<u8> = Vec::new();
        let mut k: usize = 0;
        while k < labels[i].len()
            invariant
                i < labels.len(),
                k <= labels[i as int].len(),
                label@ =~= labels@[i as int]@.take(k as int),
            decreases labels[i as int].len() - k,
        {
            label.push(labels[i][k]);
            k = k + 1;
        }
        assert(label@ =~= labels@[i as int]@);
        copy.push(label);
        i = i + 1;
    }
    assert(labels_view(copy@) =~= labels_view(labels@));
    copy
}

/// Put an address into a pending response.
fn answer_with(pending: DnsResponse, ttl: u32, addr: [u8; 16]) -> (response: DnsResponse)
    requires
        pending.questions@.len() > 0,
    ensures
        response@ == answered(pending@, ttl, addr@),
        response.questions@ == pending.questions@,
{
    let labels: Vec<Vec<u8>> = copy_labels(&pending.questions[0].labels);
    assert(pending@.questions[0] == pending.questions@[0]@);
    DnsResponse {
        id: pending.id,
        op_code: pending.op_code,
        recursion_desired: pending.recursion_desired,
        recursion_available: pending.recursion_available,
        rcode: RCODE_NO_ERROR,
        questions: pending.questions,
        answer: Some(Answer { labels, ttl, addr }),
    }
}

/// Put a response code into a pending response.
fn refuse_with(pending: DnsResponse, rcode: u8) -> (response: DnsResponse)
    ensures
        response@ == refused(pending@, rcode),
        response.questions@ == pending.questions@,
{
    DnsResponse {
        id: pending.id,
        op_code: pending.op_code,
        recursion_desired: pending.recursion_desired,
        recursion_available: pending.recursion_available,
        rcode,
        questions: pending.questions,
        answer: None,
    }
}

/// The number of seconds that a stored answer is valid, as the response gives it.
pub open spec fn stored_ttl(ttl_seconds: Option<i32>) -> u32 {
    match ttl_seconds {
        Some(ttl) => same_bits(ttl),
        None => DEFAULT_TTL,
    }
}

/// Decide what the outcome of a database search leads to: a stored domain is answered with
/// its synthetic address, a new one has to be resolved.
///
/// `synthetic` is the address that the row's `synthetic_ipv6` says, `None` if it says none.
pub fn on_row(
    pending: Pending,
    row: Option<DomainRow>,
    synthetic: Option<[u8; 16]>,
) -> (step: RowStep)
    requires
        pending.wf(),
    ensures
        match (row, synthetic) {
            (None, _) => step == RowStep::Resolve(pending),
            (Some(found), Some(addr)) => {
                &&& step matches RowStep::Respond(response)
                &&& response@ == answered(
                    pending.response@,
                    stored_ttl(found.ttl_seconds),
                    addr@,
                )
                &&& response.questions@ == pending.response.questions@
            },
            (Some(_), None) => step == RowStep::Fail(QueryError::InvalidSynthetic),
        },
{
    let found: DomainRow = match row {
        Some(found) => found,
        None => return RowStep::Resolve(pending),
    };
    let addr: [u8; 16] = match synthetic {
        Some(addr) => addr,
        None => return RowStep::Fail(QueryError::InvalidSynthetic),
    };
    let ttl: u32 = match found.ttl_seconds {
        Some(ttl) => as_unsigned(ttl),
        None => DEFAULT_TTL,
    };
    RowStep::Respond(answer_with(pending.response, ttl, addr))
}

/// Decide what an upstream outcome leads to: no record means that the name does not exist, a
/// failure is a failure of the server.
pub fn on_upstream(pending: Pending, upstream: Upstream) -> (step: UpstreamStep)
    ensures
        match upstream {
            Upstream::Found(addr) => step == (UpstreamStep::Allocate { pending, origin: addr }),
            Upstream::NoRecord => {
                &&& step matches UpstreamStep::Respond(response)
                &&& response@ == refused(pending.response@, RCODE_NX_DOMAIN)
                &&& response.questions@ == pending.response.questions@
            },
            Upstream::Failed => {
                &&& step matches UpstreamStep::Respond(response)
                &&& response@ == refused(pending.response@, RCODE_SERV_FAIL)
                &&& response.questions@ == pending.response.questions@
            },
        },
{
    match upstream {
        Upstream::Found(origin) => UpstreamStep::Allocate { pending, origin },
        Upstream::NoRecord => UpstreamStep::Respond(
            refuse_with(pending.response, RCODE_NX_DOMAIN),
        ),
        Upstream::Failed => UpstreamStep::Respond(refuse_with(pending.response, RCODE_SERV_FAIL)),
    }
}

/// The mapping stores a domain's name, its origin, its new id and the address minted for the
/// id, for the default time.
pub open spec fn stores(
    mapping: NewMapping,
    domain: Seq<char>,
    origin: Seq<u8>,
    domain_id: i32,
) -> bool {
    &&& mapping.domain_id == domain_id
    &&& mapping.domain@ == domain
    &&& mapping.origin@ == origin
    &&& mapping.synthetic@ == synthetic_addr(same_bits(domain_id))
    &&& mapping.ttl_seconds == DEFAULT_TTL
}

/// The mapping to store for a domain that got a new id. What is stored already for the
/// domain keeps its id and its synthetic address.
pub fn new_mapping(pending: &Pending, origin: [u8; 16], domain_id: i32) -> (mapping: NewMapping)
    ensures
        stores(mapping, pending.domain@, origin@, domain_id),
        mapping.domain_id == domain_id,
        mapping.domain@ == pending.domain@,
        mapping.origin@ == origin@,
        mapping.synthetic@ == synthetic_addr(same_bits(domain_id)),
        mapping.ttl_seconds == DEFAULT_TTL,
{
    NewMapping {
        domain_id,
        domain: pending.domain.clone(),
        origin,
        synthetic: synthetic_ipv6(as_unsigned(domain_id)),
        ttl_seconds: DEFAULT_TTL as i32,
    }
}

/// Answer a query for a domain that was just stored, with the address that the database now
/// holds for it. That is the address of [`new_mapping`] unless another query stored the same
/// domain first: the first to store wins, and all are answered alike.
///
/// `stored` is the synthetic address in the domain's row after storing, `None` if what the
/// row says is no address.
pub fn on_stored(pending: Pending, stored: Option<[u8; 16]>) -> (response: Result<
    DnsResponse,
    QueryError,
>)
    requires
        pending.wf(),
    ensures
        match stored {
            Some(addr) => {
                &&& response is Ok
                &&& response->Ok_0@ == answered(pending.response@, DEFAULT_TTL, addr@)
                &&& response->Ok_0.questions@ == pending.response.questions@
            },
            None => response is Err && response->Err_0 == QueryError::InvalidSynthetic,
        },
{
    match stored {
        Some(addr) => Ok(answer_with(pending.response, DEFAULT_TTL, addr)),
        None => Err(QueryError::InvalidSynthetic),
    }
}

/// What a lookup of AAAA records means: the first record counts.
pub open spec fn upstream_of(outcome: LookupOutcome) -> Upstream {
    match outcome {
        LookupOutcome::Records(addrs) => if addrs@.len() > 0 {
            Upstream::Found(addrs@[0])
        } else {
            Upstream::NoRecord
        },
        LookupOutcome::NoRecordsFound => Upstream::NoRecord,
        LookupOutcome::Failed => Upstream::Failed,
    }
}

/// Tell what a lookup of AAAA records means.
pub fn lookup_aaaa(outcome: &LookupOutcome) -> (upstream: Upstream)
    ensures
        upstream == upstream_of(*outcome),
{
    match outcome {
        LookupOutcome::Records(addrs) => {
            if addrs.len() > 0 {
                Upstream::Found(addrs[0])
            } else {
                Upstream::NoRecord
            }
        },
        LookupOutcome::NoRecordsFound => Upstream::NoRecord,
        LookupOutcome::Failed => Upstream::Failed,
    }
}

// ---------------------------------------------------------------------------
// Laws
// ---------------------------------------------------------------------------

/// Every response mirrors its query: whatever the query leads to, and whatever the outside
/// steps come to, the id, the operation code, the recursion flag and the questions are the
/// query's, and recursion is offered.
pub proof fn law_response_mirrors_query(
    request: RequestView,
    ttl: u32,
    addr: Seq<u8>,
    rcode: u8,
)
    ensures
        match query_start(request) {
            QueryStartView::Respond(response) => mirrors(response, request),
            QueryStartView::FindDomain(pending) => {
                &&& mirrors(answered(pending.response, ttl, addr), request)
                &&& mirrors(refused(pending.response, rcode), request)
            },
        },
        mirrors(response_to(request, RCODE_SERV_FAIL), request),
{
}

/// The response has the request's id, operation code, recursion flag and questions, and
/// offers recursion.
pub open spec fn mirrors(response: ResponseView, request: RequestView) -> bool {
    &&& response.id == request.id
    &&& response.op_code == request.op_code
    &&& response.recursion_desired == request.recursion_desired
    &&& response.recursion_available
    &&& response.questions == request.questions
}

/// Only AAAA queries are ever answered with an address: every other query gets a response
/// with an error code and no answer at once.
pub proof fn law_only_aaaa_is_looked_up(request: RequestView)
    requires
        request.questions.len() == 0 || request.questions[0].qtype != TYPE_AAAA,
    ensures
        query_start(request) matches QueryStartView::Respond(response) && response.answer is None
            && response.rcode != RCODE_NO_ERROR,
{
}

/// Lowering a text leaves its trailing dots where they are.
proof fn lemma_lowered_without_dots(text: Seq<char>)
    ensures
        lowered(without_trailing_dots(text)) == without_trailing_dots(lowered(text)),
    decreases text.len(),
{
    if text.len() > 0 {
        assert(lowered(text).drop_last() =~= lowered(text.drop_last()));
        assert(lowered(text).last() == lower(text.last()));
        if text.last() == '.' {
            lemma_lowered_without_dots(text.drop_last());
        }
    } else {
        assert(lowered(text) =~= text);
    }
}

/// Names that differ only in the case of their letters are one domain.
pub proof fn law_domain_ignores_case(a: Seq<char>, b: Seq<char>)
    requires
        lowered(a) == lowered(b),
    ensures
        domain_of(a) == domain_of(b),
{
    lemma_lowered_without_dots(a);
    lemma_lowered_without_dots(b);
}

/// A name with a dot behind it is the same domain as the name without it.
pub proof fn law_domain_ignores_trailing_dot(name: Seq<char>)
    ensures
        domain_of(name.push('.')) == domain_of(name),
{
    assert(name.push('.').drop_last() =~= name);
}

/// The synthetic addresses in the database, by domain, after a mapping is stored: a domain
/// that has a row keeps its address.
pub open spec fn table_after(table: Map<Seq<char>, Seq<u8>>, mapping: NewMapping) -> Map<
    Seq<char>,
    Seq<u8>,
> {
    if table.contains_key(mapping.domain@) {
        table
    } else {
        table.insert(mapping.domain@, mapping.synthetic@)
    }
}

/// The synthetic addresses in the database after mappings are stored one after the other.
pub open spec fn table_after_all(
    table: Map<Seq<char>, Seq<u8>>,
    mappings: Seq<NewMapping>,
) -> Map<Seq<char>, Seq<u8>>
    decreases mappings.len(),
{
    if mappings.len() == 0 {
        table
    } else {
        table_after(table_after_all(table, mappings.drop_last()), mappings.last())
    }
}

/// An address once stored for a domain stays, whatever is stored later.
pub proof fn law_stored_address_stays(
    table: Map<Seq<char>, Seq<u8>>,
    mappings: Seq<NewMapping>,
    domain: Seq<char>,
)
    requires
        table.contains_key(domain),
    ensures
        table_after_all(table, mappings).contains_key(domain),
        table_after_all(table, mappings)[domain] == table[domain],
    decreases mappings.len(),
{
    if mappings.len() > 0 {
        law_stored_address_stays(table, mappings.drop_last(), domain);
    }
}

/// Storing some mappings and then others is storing them all.
proof fn lemma_stored_in_two_parts(
    table: Map<Seq<char>, Seq<u8>>,
    first: Seq<NewMapping>,
    then: Seq<NewMapping>,
)
    ensures
        table_after_all(table, first + then) == table_after_all(
            table_after_all(table, first),
            then,
        ),
    decreases then.len(),
{
    if then.len() == 0 {
        assert(first + then =~= first);
    } else {
        assert((first + then).drop_last() =~= first + then.drop_last());
        assert((first + then).last() == then.last());
        lemma_stored_in_two_parts(table, first, then.drop_last());
    }
}

/// Queries for one domain that run at the same time are all answered with the address that
/// stays stored.
///
/// Whatever mappings are stored in whatever order, the address that a query reads back after
/// its own mapping `i` is stored, and is answered with, is the one that the domain's row
/// holds in the end. It is the row's old address if there was one, and otherwise that of the
/// first mapping for the domain.
pub proof fn law_first_stored_mapping_wins(
    table: Map<Seq<char>, Seq<u8>>,
    mappings: Seq<NewMapping>,
    i: int,
    pending: ResponseView,
)
    requires
        0 <= i < mappings.len(),
    ensures
        ({
            let domain = mappings[i].domain@;
            let read_back = table_after_all(table, mappings.take(i + 1));
            let in_the_end = table_after_all(table, mappings);
            &&& read_back.contains_key(domain)
            &&& in_the_end.contains_key(domain)
            &&& answered(pending, DEFAULT_TTL, read_back[domain]) == answered(
                pending,
                DEFAULT_TTL,
                in_the_end[domain],
            )
            &&& read_back[domain] == in_the_end[domain]
            &&& table.contains_key(domain) ==> read_back[domain] == table[domain]
            &&& !table_after_all(table, mappings.take(i)).contains_key(domain)
                ==> read_back[domain] == mappings[i].synthetic@
        }),
{
    let domain = mappings[i].domain@;
    let read_back = table_after_all(table, mappings.take(i + 1));
    assert(mappings.take(i + 1).drop_last() =~= mappings.take(i));
    assert(mappings.take(i + 1).last() == mappings[i]);
    assert(mappings.take(i + 1) + mappings.skip(i + 1) =~= mappings);
    lemma_stored_in_two_parts(table, mappings.take(i + 1), mappings.skip(i + 1));
    law_stored_address_stays(read_back, mappings.skip(i + 1), domain);
    if table.contains_key(domain) {
        law_stored_address_stays(table, mappings.take(i + 1), domain);
    }
}

/// Asking again gives the same answer: once a mapping is stored with its time to live, its
/// row is answered as the query that stored it was.
pub proof fn law_stored_answer_equals_new_answer(
    pending: ResponseView,
    mapping: NewMapping,
    stored: Seq<u8>,
)
    requires
        mapping.ttl_seconds == DEFAULT_TTL,
    ensures
        answered(pending, stored_ttl(Some(mapping.ttl_seconds)), stored) == answered(
            pending,
            DEFAULT_TTL,
            stored,
        ),
{
}

/// The address that is minted for a new domain leads back to the domain: a TCP or UDP packet
/// to it is looked up under the id that the domain got.
pub proof fn law_new_address_leads_to_domain(domain_id: i32, packet: Seq<u8>)
    requires
        tcp_or_udp(packet) matches Some((off, _)) && dst_addr_of(packet, off) == synthetic_addr(
            same_bits(domain_id),
        ),
    ensures
        ingress_step(packet) == (TcStep::LookupOrigin { domain_id: same_bits(domain_id) }),
{
    law_synthetic_addr_carries_domain_id(same_bits(domain_id));
}

/// A character and its lower-case form, by code point: 65 to 90 go up by 32, all others stay.
pub open spec fn is_lower_of(l: char, c: char) -> bool {
    l as u32 == if 65 <= c as u32 <= 90 {
        c as u32 + 32
    } else {
        c as u32 as int
    }
}

/// The domain of a name is the whole name, character by character in lower case, whatever its
/// length and however many dots stand behind it.
pub proof fn law_domain_is_whole_name(name: Seq<char>, dots: Seq<char>)
    requires
        name.len() > 0 ==> name.last() as u32 != 0x2e,
        forall|i: int| 0 <= i < dots.len() ==> (#[trigger] dots[i]) as u32 == 0x2e,
    ensures
        domain_of(name + dots).len() == name.len(),
        forall|i: int|
            0 <= i < name.len() ==> is_lower_of(#[trigger] domain_of(name + dots)[i], name[i]),
{
    law_only_trailing_dots_go(name, dots);
    assert forall|i: int| 0 <= i < name.len() implies is_lower_of(
        #[trigger] domain_of(name + dots)[i],
        name[i],
    ) by {
        law_lowered_by_code_point(name, i);
    }
}

/// Two names are one domain only if they differ in nothing but the case of their letters and
/// the dots behind them.
pub proof fn law_domain_tells_names_apart(
    a: Seq<char>,
    a_dots: Seq<char>,
    b: Seq<char>,
    b_dots: Seq<char>,
)
    requires
        a.len() > 0 ==> a.last() as u32 != 0x2e,
        b.len() > 0 ==> b.last() as u32 != 0x2e,
        forall|i: int| 0 <= i < a_dots.len() ==> (#[trigger] a_dots[i]) as u32 == 0x2e,
        forall|i: int| 0 <= i < b_dots.len() ==> (#[trigger] b_dots[i]) as u32 == 0x2e,
        domain_of(a + a_dots) == domain_of(b + b_dots),
    ensures
        a.len() == b.len(),
        forall|i: int|
            0 <= i < a.len() ==> {
                let (x, y) = ((#[trigger] a[i]) as u32, b[i] as u32);
                x == y || (65 <= x <= 90 && y == x + 32) || (65 <= y <= 90 && x == y + 32)
            },
{
    law_domain_is_whole_name(a, a_dots);
    law_domain_is_whole_name(b, b_dots);
    assert forall|i: int| 0 <= i < a.len() implies {
        let (x, y) = ((#[trigger] a[i]) as u32, b[i] as u32);
        x == y || (65 <= x <= 90 && y == x + 32) || (65 <= y <= 90 && x == y + 32)
    } by {
        assert(is_lower_of(domain_of(a + a_dots)[i], a[i]));
        assert(is_lower_of(domain_of(b + b_dots)[i], b[i]));
    }
}

/// What a request leads to, by its fields: without a question code 1; for a first question of
/// type 28 a search for the whole name in lower case; for every other type code 3. Nothing
/// but the first question's type and name counts.
pub proof fn law_query_by_fields(request: RequestView, name: Seq<char>, dots: Seq<char>)
    requires
        request.questions.len() > 0 ==> request.questions[0].ascii == name + dots,
        name.len() > 0 ==> name.last() as u32 != 0x2e,
        forall|i: int| 0 <= i < dots.len() ==> (#[trigger] dots[i]) as u32 == 0x2e,
    ensures
        match query_start(request) {
            QueryStartView::Respond(response) => {
                &&& request.questions.len() == 0 || request.questions[0].qtype != 28
                &&& response.rcode == if request.questions.len() == 0 {
                    1int
                } else {
                    3int
                }
                &&& response.answer is None
            },
            QueryStartView::FindDomain(pending) => {
                &&& request.questions.len() > 0 && request.questions[0].qtype == 28
                &&& pending.domain.len() == name.len()
                &&& forall|i: int|
                    0 <= i < name.len() ==> is_lower_of(#[trigger] pending.domain[i], name[i])
                &&& pending.response.rcode == 0
                &&& pending.response.answer is None
            },
        },
{
    if request.questions.len() > 0 {
        law_domain_is_whole_name(name, dots);
    }
}

/// An answer carries the address and the time to live as they are given, under the labels of
/// the first question, with code 0. A refusal carries the code and no answer.
pub proof fn law_answer_by_fields(pending: ResponseView, ttl: u32, addr: Seq<u8>, rcode: u8)
    ensures
        ({
            let response = answered(pending, ttl, addr);
            &&& response.rcode == 0
            &&& response.answer matches Some(answer)
            &&& answer.labels == pending.questions[0].labels
            &&& answer.ttl == ttl
            &&& answer.addr == addr
            &&& (ResponseView { rcode: pending.rcode, answer: pending.answer, ..response })
                == pending
        }),
        ({
            let response = refused(pending, rcode);
            &&& response.rcode == rcode
            &&& response.answer is None
            &&& (ResponseView { rcode: pending.rcode, answer: pending.answer, ..response })
                == pending
        }),
{
}

/// The time to live of a stored domain is the stored number, modulo two to the thirty-second,
/// and 300 seconds where none is stored.
pub proof fn law_stored_ttl_is_kept(ttl: i32)
    ensures
        (stored_ttl(Some(ttl)) - ttl) % 0x1_0000_0000 == 0,
        ttl >= 0 ==> stored_ttl(Some(ttl)) == ttl,
        stored_ttl(None) == 300,
{
}

/// A query that cannot be served is answered, if it is a message, with the encoding of its
/// own id, operation code, recursion flag and questions, code 2, and no answer.
pub proof fn law_failure_by_fields(query: Seq<u8>)
    ensures
        parsed_request(query) is None ==> servfail_bytes(query) is None,
        parsed_request(query) matches Some(request) ==> servfail_bytes(query)
            == encoded_response(
            ResponseView {
                id: request.id,
                op_code: request.op_code,
                recursion_desired: request.recursion_desired,
                recursion_available: true,
                rcode: 2,
                questions: request.questions,
                answer: None,
            },
        ),
{
}

/// The first record counts, and whatever stands behind it does not. A lookup without a record
/// is no failure, and every failure but that of finding none is one.
pub proof fn law_first_record_counts(first: [u8; 16], addrs: Vec<[u8; 16]>)
    ensures
        addrs@.len() > 0 && addrs@[0] == first ==> upstream_of(LookupOutcome::Records(addrs))
            == Upstream::Found(first),
        addrs@.len() == 0 ==> upstream_of(LookupOutcome::Records(addrs)) is NoRecord,
        upstream_of(LookupOutcome::NoRecordsFound) is NoRecord,
        upstream_of(LookupOutcome::Failed) is Failed,
{
}

/// What is stored for a new domain: the whole name, the origin as it was found, the id, the
/// address that has the id's bytes behind `fd 00 ab cd`, and 300 seconds.
pub proof fn law_mapping_by_bytes(
    mapping: NewMapping,
    domain: Seq<char>,
    origin: Seq<u8>,
    domain_id: i32,
)
    requires
        stores(mapping, domain, origin, domain_id),
    ensures
        mapping.domain@ == domain,
        mapping.origin@ == origin,
        mapping.domain_id == domain_id,
        mapping.ttl_seconds == 300,
        ({
            let a = mapping.synthetic@;
            &&& a[0] == 0xfd && a[1] == 0x00 && a[2] == 0xab && a[3] == 0xcd
            &&& (a[4] * 0x1000000 + a[5] * 0x10000 + a[6] * 0x100 + a[7] - domain_id)
                % 0x1_0000_0000 == 0
            &&& a[8] == 0 && a[9] == 0 && a[10] == 0 && a[11] == 0
            &&& a[12] == 0 && a[13] == 0 && a[14] == 0 && a[15] == 1
        }),
{
    law_synthetic_addr_by_bytes(same_bits(domain_id));
}

/// A message that tells of a failure, by its bytes: it has the query's id, number of questions,
/// operation code and desired recursion, it is a response, it offers recursion, its code is 2,
/// and it has no answer.
pub proof fn law_failure_by_bytes(response: Seq<u8>, query: Seq<u8>)
    requires
        tells_of_failure(response, query),
    ensures
        response.len() >= 12,
        query.len() >= 12,
        response[0] == query[0] && response[1] == query[1],
        response[2] >= 128,
        response[2] / 8 % 16 == query[2] / 8 % 16,
        response[2] % 2 == query[2] % 2,
        response[3] >= 128,
        response[3] % 16 == 2,
        response[4] == query[4] && response[5] == query[5],
        response[6] == 0 && response[7] == 0,
{
    law_header_bit_by_bit(response);
    law_header_bit_by_bit(query);
}

/// What starting a query comes to, by the request's fields: a first question of type 28 asks for
/// its whole name in lower case, without the dots behind, and every other request is answered
/// at once. In both cases the questions, the id, the operation code and the recursion flag are
/// the request's.
pub proof fn law_started_query_by_fields(
    request: DnsRequest,
    start: QueryStart,
    name: Seq<char>,
    dots: Seq<char>,
)
    requires
        call_ensures(start_query, (request,), start),
        request.questions@.len() > 0 ==> request.questions@[0].ascii@ == name + dots,
        name.len() > 0 ==> name.last() as u32 != 0x2e,
        forall|i: int| 0 <= i < dots.len() ==> (#[trigger] dots[i]) as u32 == 0x2e,
    ensures
        match start {
            QueryStart::Respond(response) => {
                &&& request.questions@.len() == 0 || request.questions@[0].qtype != 28
                &&& response.rcode == if request.questions@.len() == 0 {
                    1int
                } else {
                    3int
                }
                &&& response.answer is None
                &&& response.id == request.id && response.op_code == request.op_code
                &&& response.recursion_desired == request.recursion_desired
                &&& response.recursion_available
                &&& response.questions@ == request.questions@
            },
            QueryStart::FindDomain(pending) => {
                let response = pending.response;
                &&& request.questions@.len() > 0 && request.questions@[0].qtype == 28
                &&& pending.domain@.len() == name.len()
                &&& forall|i: int|
                    0 <= i < name.len() ==> is_lower_of(#[trigger] pending.domain@[i], name[i])
                &&& response.rcode == 0
                &&& response.answer is None
                &&& response.id == request.id && response.op_code == request.op_code
                &&& response.recursion_desired == request.recursion_desired
                &&& response.recursion_available
                &&& response.questions@ == request.questions@
            },
        },
{
    law_query_by_fields(request@, name, dots);
    if request.questions@.len() > 0 {
        assert(request@.questions[0] == request.questions@[0]@);
    }
}

/// What the outside steps of an answer come to, by the response's fields. A stored domain is
/// answered with code 0, its address and its stored time; a missing one is resolved. A domain
/// without a record is refused with code 3, a failed lookup with code 2, and a record leads on
/// unchanged. A domain just stored is answered with the stored address for 300 seconds. What
/// is stored and is no address is an error.
pub proof fn law_outside_steps_by_fields(
    pending: Pending,
    row: Option<DomainRow>,
    synthetic: Option<[u8; 16]>,
    row_step: RowStep,
    upstream: Upstream,
    upstream_step: UpstreamStep,
    stored: Result<DnsResponse, QueryError>,
)
    requires
        pending.wf(),
        call_ensures(on_row, (pending, row, synthetic), row_step),
        call_ensures(on_upstream, (pending, upstream), upstream_step),
        call_ensures(on_stored, (pending, synthetic), stored),
    ensures
        row is None ==> row_step == RowStep::Resolve(pending),
        row is Some && synthetic is None ==> row_step == RowStep::Fail(
            QueryError::InvalidSynthetic,
        ),
        row is Some && synthetic is Some ==> row_step is Respond && is_answer(
            row_step->Respond_0,
            pending.response,
            synthetic->0@,
        ) && (match row->0.ttl_seconds {
            Some(ttl) => (row_step->Respond_0.answer->0.ttl - ttl) % 0x1_0000_0000 == 0,
            None => row_step->Respond_0.answer->0.ttl == 300,
        }),
        upstream matches Upstream::Found(origin) ==> upstream_step == (UpstreamStep::Allocate {
            pending,
            origin,
        }),
        upstream is NoRecord ==> upstream_step is Respond && is_refusal(
            upstream_step->Respond_0,
            pending.response,
            3,
        ),
        upstream is Failed ==> upstream_step is Respond && is_refusal(
            upstream_step->Respond_0,
            pending.response,
            2,
        ),
        synthetic is Some ==> stored is Ok && is_answer(
            stored->Ok_0,
            pending.response,
            synthetic->0@,
        ) && stored->Ok_0.answer->0.ttl == 300,
        synthetic is None ==> stored is Err && stored->Err_0 == QueryError::InvalidSynthetic,
{
    assert(pending.response@.questions[0] == pending.response.questions@[0]@);
    if row is Some && synthetic is Some {
        lemma_answer_fields(
            row_step->Respond_0,
            pending.response,
            stored_ttl(row->0.ttl_seconds),
            synthetic->0@,
        );
    }
    if synthetic is Some {
        lemma_answer_fields(stored->Ok_0, pending.response, 300, synthetic->0@);
    }
}

/// The response is the pending one with code 0 and one answer: this address, under the labels
/// of the first question.
pub open spec fn is_answer(response: DnsResponse, pending: DnsResponse, addr: Seq<u8>) -> bool {
    &&& response.rcode == 0
    &&& response.answer is Some
    &&& response.answer->0.addr@ == addr
    &&& labels_view(response.answer->0.labels@) == labels_view(pending.questions@[0].labels@)
    &&& is_same_query(response, pending)
}

/// The response is the pending one with this code and no answer.
pub open spec fn is_refusal(response: DnsResponse, pending: DnsResponse, rcode: u8) -> bool {
    &&& response.rcode == rcode
    &&& response.answer is None
    &&& is_same_query(response, pending)
}

/// Both respond to one query.
pub open spec fn is_same_query(response: DnsResponse, pending: DnsResponse) -> bool {
    &&& response.id == pending.id
    &&& response.op_code == pending.op_code
    &&& response.recursion_desired == pending.recursion_desired
    &&& response.recursion_available == pending.recursion_available
    &&& response.questions@ == pending.questions@
}

/// The fields of an answer.
proof fn lemma_answer_fields(
    response: DnsResponse,
    pending: DnsResponse,
    ttl: u32,
    addr: Seq<u8>,
)
    requires
        pending.questions@.len() > 0,
        response@ == answered(pending@, ttl, addr),
        response.questions@ == pending.questions@,
    ensures
        is_answer(response, pending, addr),
        response.answer->0.ttl == ttl,
{
    assert(pending@.questions[0] == pending.questions@[0]@);
    assert(response@.answer is Some);
}

/// What is stored for a domain is its whole name, the origin as it was found, its id, and the
/// address minted for that id.
pub proof fn law_new_mapping_by_bytes(
    pending: Pending,
    origin: [u8; 16],
    domain_id: i32,
    mapping: NewMapping,
)
    requires
        call_ensures(new_mapping, (&pending, origin, domain_id), mapping),
    ensures
        mapping.domain@ == pending.domain@,
        mapping.origin@ == origin@,
        mapping.domain_id == domain_id,
        mapping.ttl_seconds == 300,
        mapping.synthetic@[0] == 0xfd && mapping.synthetic@[1] == 0x00,
        mapping.synthetic@[2] == 0xab && mapping.synthetic@[3] == 0xcd,
        (mapping.synthetic@[4] * 0x1000000 + mapping.synthetic@[5] * 0x10000
            + mapping.synthetic@[6] * 0x100 + mapping.synthetic@[7] - domain_id) % 0x1_0000_0000
            == 0,
{
    law_mapping_by_bytes(mapping, pending.domain@, origin@, domain_id);
}

/// Every message that can be read is started on, whatever its length, and nothing else is. What
/// it starts is what its fields ask for.
pub proof fn law_readable_queries_are_started(
    data: &[u8],
    start: Result<QueryStart, QueryError>,
    request: RequestView,
    name: Seq<char>,
    dots: Seq<char>,
)
    requires
        call_ensures(handle_query, (data,), start),
        parsed_request(data@) is Some ==> parsed_request(data@) == Some(request),
        request.questions.len() > 0 ==> request.questions[0].ascii == name + dots,
        name.len() > 0 ==> name.last() as u32 != 0x2e,
        forall|i: int| 0 <= i < dots.len() ==> (#[trigger] dots[i]) as u32 == 0x2e,
    ensures
        start is Ok <==> parsed_request(data@) is Some,
        start matches Err(e) ==> e == QueryError::Malformed,
        start matches Ok(QueryStart::FindDomain(pending)) ==> {
            &&& request.questions.len() > 0 && request.questions[0].qtype == 28
            &&& pending.domain@.len() == name.len()
            &&& forall|i: int|
                0 <= i < name.len() ==> is_lower_of(#[trigger] pending.domain@[i], name[i])
            &&& pending.response@.questions == request.questions
            &&& pending.response.id == request.id
        },
        start matches Ok(QueryStart::Respond(response)) ==> {
            &&& request.questions.len() == 0 || request.questions[0].qtype != 28
            &&& response.rcode == 1 || response.rcode == 3
            &&& response.answer is None
            &&& response@.questions == request.questions
            &&& response.id == request.id
        },
{
    law_query_by_fields(request, name, dots);
}

/// A response that can be written is written, and its header is the response's: the id first,
/// then the bits, the number of questions, and the number of answers.
pub proof fn law_written_response_by_bytes(
    response: &DnsResponse,
    bytes: Result<Vec<u8>, QueryError>,
)
    requires
        response.questions@.len() <= MAX_SECTION_LEN,
        call_ensures(finish, (response,), bytes),
    ensures
        bytes is Ok <==> encoded_response(response@) is Some,
        bytes matches Err(e) ==> e == QueryError::Encoding,
        bytes is Ok ==> {
            let b = bytes->Ok_0@;
            &&& encoded_response(response@) == Some(b)
            &&& b.len() >= 12
            &&& b[0] * 256 + b[1] == response.id
            &&& b[2] >= 128
            &&& b[2] / 8 % 16 == response.op_code % 16
            &&& b[2] % 2 == 1 <==> response.recursion_desired
            &&& b[3] >= 128 <==> response.recursion_available
            &&& b[3] % 16 == response.rcode % 16
            &&& b[4] * 256 + b[5] == response.questions@.len()
            &&& response.answer is None ==> b[6] == 0 && b[7] == 0
        },
{
    if bytes is Ok {
        law_header_bit_by_bit(bytes->Ok_0@);
    }
}

} // verus!
