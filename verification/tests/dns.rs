use hickory_resolver::proto::op::Message;
use hickory_resolver::proto::op::MessageType;
use hickory_resolver::proto::op::OpCode;
use hickory_resolver::proto::op::Query;
use hickory_resolver::proto::op::ResponseCode;
use hickory_resolver::proto::rr::DNSClass;
use hickory_resolver::proto::rr::Name;
use hickory_resolver::proto::rr::RData;
use hickory_resolver::proto::rr::RecordType;
use prototype_net::address::synthetic_ipv6;
use prototype_net::dns::handler::finish;
use prototype_net::dns::handler::handle_query;
use prototype_net::dns::handler::lookup_aaaa;
use prototype_net::dns::handler::new_mapping;
use prototype_net::dns::handler::on_row;
use prototype_net::dns::handler::on_stored;
use prototype_net::dns::handler::on_upstream;
use prototype_net::dns::handler::servfail;
use prototype_net::dns::handler::servfail_response;
use prototype_net::dns::handler::start_query;
use prototype_net::dns::handler::DomainRow;
use prototype_net::dns::handler::LookupOutcome;
use prototype_net::dns::handler::Pending;
use prototype_net::dns::handler::QueryError;
use prototype_net::dns::handler::QueryStart;
use prototype_net::dns::handler::RowStep;
use prototype_net::dns::handler::Upstream;
use prototype_net::dns::handler::UpstreamStep;
use prototype_net::dns::message::DnsRequest;
use prototype_net::dns::message::Question;
use prototype_net::dns::server::logs_drop;
use prototype_net::dns::server::max_concurrent_queries;
use prototype_net::dns::server::query_timeout_secs;
use prototype_net::dns::server::reply;
use prototype_net::dns::server::Served;
use prototype_net::dns::server::DEFAULT_LISTEN_ADDR;

fn query(name: &str, types: &[RecordType]) -> Vec<u8> {
    let mut message = Message::new();
    message.set_id(0xbeef).set_recursion_desired(true).set_op_code(OpCode::Query);
    for t in types {
        message.add_query(Query::query(Name::from_ascii(name).unwrap(), *t));
    }
    message.to_vec().unwrap()
}

fn pending(name: &str) -> Pending {
    match handle_query(&query(name, &[RecordType::AAAA])) {
        Ok(QueryStart::FindDomain(pending)) => pending,
        _ => panic!("not looked up"),
    }
}

fn row(synthetic: &str, ttl_seconds: Option<i32>) -> Option<DomainRow> {
    Some(DomainRow {
        domain_id: 5,
        domain: "www.example.com".to_string(),
        origin_ipv6: "2a00::1".to_string(),
        synthetic_ipv6: synthetic.to_string(),
        ttl_seconds,
    })
}

fn parse(bytes: &[u8]) -> Message {
    Message::from_vec(bytes).unwrap()
}

fn assert_mirrors(response: &Message) {
    assert_eq!(response.id(), 0xbeef);
    assert_eq!(response.message_type(), MessageType::Response);
    assert_eq!(response.op_code(), OpCode::Query);
    assert!(response.recursion_desired());
    assert!(response.recursion_available());
}

#[test]
fn servfail_mirrors_the_query() {
    let bytes = servfail(&query("WwW.Example.com.", &[RecordType::AAAA, RecordType::MX])).unwrap();
    let response = parse(&bytes);
    assert_mirrors(&response);
    assert_eq!(response.response_code(), ResponseCode::ServFail);
    assert_eq!(response.queries().len(), 2);
    assert_eq!(response.queries()[0].name().to_ascii(), "WwW.Example.com.");
    assert_eq!(response.queries()[0].query_type(), RecordType::AAAA);
    assert_eq!(response.queries()[0].query_class(), DNSClass::IN);
    assert_eq!(response.queries()[1].query_type(), RecordType::MX);
    assert!(response.answers().is_empty());
    assert!(servfail(&[1, 2, 3]).is_none());
}

#[test]
fn unusual_codes_are_mirrored() {
    let mut message = Message::new();
    message.set_id(7).set_op_code(OpCode::from_u8(6));
    let mut q = Query::query(Name::root(), RecordType::from(4711));
    q.set_query_class(DNSClass::from(999));
    message.add_query(q);
    let response = parse(&servfail(&message.to_vec().unwrap()).unwrap());
    assert_eq!(response.op_code(), OpCode::from_u8(6));
    assert!(!response.recursion_desired());
    assert!(response.queries()[0].name().is_root());
    assert_eq!(u16::from(response.queries()[0].query_type()), 4711);
    assert_eq!(u16::from(response.queries()[0].query_class()), 999);
}

#[test]
fn malformed_query_is_an_error() {
    assert!(matches!(handle_query(&[0; 5]), Err(QueryError::Malformed)));
}

#[test]
fn query_without_question_is_a_format_error() {
    match handle_query(&query("a.", &[])) {
        Ok(QueryStart::Respond(response)) => {
            let message = parse(&finish(&response).ok().unwrap());
            assert_mirrors(&message);
            assert_eq!(message.response_code(), ResponseCode::FormErr);
        }
        _ => panic!("looked up"),
    }
}

#[test]
fn other_types_do_not_exist() {
    for t in [RecordType::A, RecordType::MX, RecordType::ANY] {
        match handle_query(&query("example.com.", &[t])) {
            Ok(QueryStart::Respond(response)) => {
                let message = parse(&finish(&response).ok().unwrap());
                assert_mirrors(&message);
                assert_eq!(message.response_code(), ResponseCode::NXDomain);
                assert!(message.answers().is_empty());
                assert_eq!(message.queries().len(), 1);
            }
            _ => panic!("looked up"),
        }
    }
}

#[test]
fn only_the_first_question_counts() {
    match handle_query(&query("a.b.", &[RecordType::A, RecordType::AAAA])) {
        Ok(QueryStart::Respond(response)) => assert_eq!(response.rcode, 3),
        _ => panic!("looked up"),
    }
    match handle_query(&query("a.b.", &[RecordType::AAAA, RecordType::A])) {
        Ok(QueryStart::FindDomain(p)) => assert_eq!(p.domain, "a.b"),
        _ => panic!("not looked up"),
    }
}

#[test]
fn domain_is_lower_case_without_dots() {
    assert_eq!(pending("WwW.Example.COM.").domain, "www.example.com");
    assert_eq!(pending("www.example.com").domain, "www.example.com");
    assert_eq!(pending(".").domain, "");
}

#[test]
fn stored_domain_is_answered() {
    let addr = synthetic_ipv6(5);
    let found = row("fd00:abcd:0:5::1", Some(60));
    let response = match on_row(pending("WwW.Example.com."), found, Some(addr)) {
        RowStep::Respond(response) => response,
        _ => panic!("not answered"),
    };
    let message = parse(&finish(&response).ok().unwrap());
    assert_mirrors(&message);
    assert_eq!(message.response_code(), ResponseCode::NoError);
    assert_eq!(message.answers().len(), 1);
    let record = &message.answers()[0];
    assert_eq!(record.name().to_ascii(), "WwW.Example.com.");
    assert_eq!(record.ttl(), 60);
    assert_eq!(record.dns_class(), DNSClass::IN);
    match record.data() {
        RData::AAAA(a) => assert_eq!(a.0.octets(), addr),
        _ => panic!("no AAAA record"),
    }
}

#[test]
fn stored_ttl_defaults() {
    let ttl = |seconds: Option<i32>| {
        match on_row(pending("a."), row("101::", seconds), Some([1; 16])) {
            RowStep::Respond(response) => response.answer.unwrap().ttl,
            _ => panic!("not answered"),
        }
    };
    assert_eq!(ttl(None), 300);
    assert_eq!(ttl(Some(0)), 0);
    assert_eq!(ttl(Some(-1)), u32::MAX);
    assert_eq!(ttl(Some(i32::MAX)), 2147483647);
}

#[test]
fn invalid_stored_address_is_an_error() {
    assert!(matches!(
        on_row(pending("a."), row("nonsense", None), None),
        RowStep::Fail(QueryError::InvalidSynthetic)
    ));
}

#[test]
fn unknown_domain_is_resolved() {
    match on_row(pending("New.example."), None, None) {
        RowStep::Resolve(p) => assert_eq!(p.domain, "new.example"),
        _ => panic!("not resolved"),
    }
}

#[test]
fn upstream_outcomes() {
    match on_upstream(pending("a."), Upstream::NoRecord) {
        UpstreamStep::Respond(r) => assert_eq!((r.rcode, r.answer.is_none()), (3, true)),
        _ => panic!("allocated"),
    }
    match on_upstream(pending("a."), Upstream::Failed) {
        UpstreamStep::Respond(r) => assert_eq!((r.rcode, r.answer.is_none()), (2, true)),
        _ => panic!("allocated"),
    }
    match on_upstream(pending("a."), Upstream::Found([4; 16])) {
        UpstreamStep::Allocate { pending, origin } => {
            assert_eq!(origin, [4; 16]);
            assert_eq!(pending.response.id, 0xbeef);
        }
        _ => panic!("not allocated"),
    }
}

#[test]
fn new_domain_is_answered() {
    let asked = pending("Example.com.");
    let mapping = new_mapping(&asked, [4; 16], 77);
    assert_eq!(mapping.domain_id, 77);
    assert_eq!(mapping.domain, "example.com");
    assert_eq!(mapping.origin, [4; 16]);
    assert_eq!(mapping.synthetic, synthetic_ipv6(77));
    assert_eq!(mapping.ttl_seconds, 300);
    let response = on_stored(asked, Some(mapping.synthetic)).ok().unwrap();
    let message = parse(&finish(&response).ok().unwrap());
    assert_mirrors(&message);
    assert_eq!(message.response_code(), ResponseCode::NoError);
    assert_eq!(message.answers()[0].ttl(), 300);
    match message.answers()[0].data() {
        RData::AAAA(a) => assert_eq!(a.0.octets(), synthetic_ipv6(77)),
        _ => panic!("no AAAA record"),
    }
}

#[test]
fn asking_again_gives_the_same_answer() {
    let asked = pending("Example.com.");
    let mapping = new_mapping(&asked, [4; 16], 77);
    let stored = on_stored(asked, Some(mapping.synthetic)).ok().unwrap();
    let first = finish(&stored).ok().unwrap();
    let found = row("fd00:abcd:0:4d::1", Some(mapping.ttl_seconds));
    match on_row(pending("Example.com."), found, Some(mapping.synthetic)) {
        RowStep::Respond(response) => assert_eq!(finish(&response).ok().unwrap(), first),
        _ => panic!("not answered"),
    }
}

#[test]
fn first_stored_mapping_wins() {
    // Two queries for one domain take two ids. The second finds the first one's address.
    let (one, two) = (pending("Example.com."), pending("example.COM"));
    let winner = new_mapping(&one, [4; 16], 77);
    let loser = new_mapping(&two, [4; 16], 78);
    assert_eq!(winner.domain, loser.domain);
    assert_ne!(winner.synthetic, loser.synthetic);
    for asked in [one, two] {
        let response = on_stored(asked, Some(winner.synthetic)).ok().unwrap();
        let answer = response.answer.unwrap();
        assert_eq!(answer.addr, winner.synthetic);
        assert_eq!(answer.ttl, 300);
    }
    assert!(matches!(on_stored(pending("a."), None), Err(QueryError::InvalidSynthetic)));
}

#[test]
fn headers_on_the_wire() {
    let asked = query("a.b.", &[RecordType::AAAA]);
    let bytes = servfail(&asked).unwrap();
    assert_eq!(&bytes[0..2], &asked[0..2]);
    assert_eq!(bytes[2], 0x80 | asked[2]);
    assert_eq!(bytes[3], 0x82);
    assert_eq!(&bytes[4..6], &asked[4..6]);
    assert_eq!(&bytes[6..12], &[0; 6]);
}

#[test]
fn lookup_outcomes() {
    let upstream = lookup_aaaa(&LookupOutcome::Records(vec![[1; 16], [2; 16]]));
    assert!(matches!(upstream, Upstream::Found(a) if a == [1; 16]));
    assert!(matches!(lookup_aaaa(&LookupOutcome::Records(vec![])), Upstream::NoRecord));
    assert!(matches!(lookup_aaaa(&LookupOutcome::NoRecordsFound), Upstream::NoRecord));
    assert!(matches!(lookup_aaaa(&LookupOutcome::Failed), Upstream::Failed));
}

#[test]
fn requests_as_values() {
    let request = |qtype: u16| DnsRequest {
        id: 1,
        op_code: 2,
        recursion_desired: false,
        questions: vec![Question {
            labels: vec![b"X".to_vec()],
            ascii: "X.".to_string(),
            qtype,
            qclass: 1,
        }],
    };
    match start_query(request(28)) {
        QueryStart::FindDomain(p) => {
            assert_eq!(p.domain, "x");
            assert_eq!((p.response.id, p.response.op_code, p.response.rcode), (1, 2, 0));
            assert_eq!(p.response.questions[0].labels, vec![b"X".to_vec()]);
            assert!(p.response.recursion_available);
        }
        _ => panic!("not looked up"),
    }
    let response = servfail_response(request(1));
    assert_eq!((response.rcode, response.questions.len()), (2, 1));
}

#[test]
fn response_that_cannot_be_written() {
    let mut response = pending("a.").response;
    response.questions[0].labels = vec![vec![b'a'; 64]];
    assert!(matches!(finish(&response), Err(QueryError::Encoding)));
}

#[test]
fn server_settings() {
    assert_eq!(max_concurrent_queries(None), 256);
    assert_eq!(max_concurrent_queries(Some("12")), 12);
    assert_eq!(max_concurrent_queries(Some("x")), 256);
    assert_eq!(query_timeout_secs(None), 5);
    assert_eq!(query_timeout_secs(Some("0")), 0);
    assert_eq!(query_timeout_secs(Some("-1")), 5);
    assert_eq!(DEFAULT_LISTEN_ADDR, "0.0.0.0:53");
}

#[test]
fn drops_are_logged_sparsely() {
    let logged: Vec<u64> = (1..=301).filter(|n| logs_drop(*n)).collect();
    assert_eq!(logged, vec![1, 101, 201, 301]);
}

#[test]
fn every_query_is_replied_to() {
    let asked = query("a.b.", &[RecordType::AAAA]);
    assert_eq!(reply(&asked, Served::Response(vec![1, 2, 3])), Some(vec![1, 2, 3]));
    let failure = servfail(&asked);
    assert!(failure.is_some());
    assert_eq!(reply(&asked, Served::Saturated), failure);
    assert_eq!(reply(&asked, Served::Failed), failure);
    assert_eq!(reply(&asked, Served::TimedOut), failure);
    assert_eq!(reply(&[1, 2, 3], Served::TimedOut), None);
}
