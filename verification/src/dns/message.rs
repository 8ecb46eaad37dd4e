//! Queries and responses as plain values, and their wire form.

use hickory_resolver::proto::op::Message;
use hickory_resolver::proto::op::MessageType;
use hickory_resolver::proto::op::OpCode;
use hickory_resolver::proto::op::Query;
use hickory_resolver::proto::op::ResponseCode;
use hickory_resolver::proto::rr::rdata::AAAA;
use hickory_resolver::proto::rr::Name;
use hickory_resolver::proto::rr::RData;
use hickory_resolver::proto::rr::Record;
use hickory_resolver::proto::ProtoError;
use vstd::prelude::*;

use crate::bytes::be_value;
use crate::bytes::lemma_be_value_2;

verus! {

/// Record type AAAA.
pub const TYPE_AAAA: u16 = 28;

/// Response code: no error.
pub const RCODE_NO_ERROR: u8 = 0;

/// Response code: the query could not be interpreted.
pub const RCODE_FORM_ERR: u8 = 1;

/// Response code: the server could not process the query.
pub const RCODE_SERV_FAIL: u8 = 2;

/// Response code: the name does not exist.
pub const RCODE_NX_DOMAIN: u8 = 3;

/// The length of a message header.
pub const HEADER_LEN: usize = 12;

/// How many entries a section of a message can have.
pub const MAX_SECTION_LEN: usize = 65535;

/// One entry of a question section.
pub struct Question {
    /// The labels of the name, the most specific first.
    pub labels: Vec<Vec<u8>>,
    /// The name in ASCII presentation form.
    pub ascii: String,
    pub qtype: u16,
    pub qclass: u16,
}

/// What the service reads out of a query.
pub struct DnsRequest {
    pub id: u16,
    pub op_code: u8,
    pub recursion_desired: bool,
    pub questions: Vec<Question>,
}

/// An AAAA record of class IN.
pub struct Answer {
    /// The labels of the name, the most specific first.
    pub labels: Vec<Vec<u8>>,
    pub ttl: u32,
    pub addr: [u8; 16],
}

/// A response of the service.
pub struct DnsResponse {
    pub id: u16,
    pub op_code: u8,
    pub recursion_desired: bool,
    pub recursion_available: bool,
    pub rcode: u8,
    pub questions: Vec<Question>,
    pub answer: Option<Answer>,
}

/// A [`Question`] over views.
#[verifier::ext_equal]
pub struct QuestionView {
    pub labels: Seq<Seq<u8>>,
    pub ascii: Seq<char>,
    pub qtype: u16,
    pub qclass: u16,
}

/// A [`DnsRequest`] over views.
#[verifier::ext_equal]
pub struct RequestView {
    pub id: u16,
    pub op_code: u8,
    pub recursion_desired: bool,
    pub questions: Seq<QuestionView>,
}

/// An [`Answer`] over views.
#[verifier::ext_equal]
pub struct AnswerView {
    pub labels: Seq<Seq<u8>>,
    pub ttl: u32,
    pub addr: Seq<u8>,
}

/// A [`DnsResponse`] over views.
#[verifier::ext_equal]
pub struct ResponseView {
    pub id: u16,
    pub op_code: u8,
    pub recursion_desired: bool,
    pub recursion_available: bool,
    pub rcode: u8,
    pub questions: Seq<QuestionView>,
    pub answer: Option<AnswerView>,
}

/// The views of a list of labels.
pub open spec fn labels_view(labels: Seq<Vec<u8>>) -> Seq<Seq<u8>> {
    Seq::new(labels.len(), |i: int| labels[i]@)
}

/// The views of a question section.
pub open spec fn questions_view(questions: Seq<Question>) -> Seq<QuestionView> {
    Seq::new(questions.len(), |i: int| questions[i]@)
}

impl View for Question {
    type V = QuestionView;

    open spec fn view(&self) -> QuestionView {
        QuestionView {
            labels: labels_view(self.labels@),
            ascii: self.ascii@,
            qtype: self.qtype,
            qclass: self.qclass,
        }
    }
}

impl View for DnsRequest {
    type V = RequestView;

    open spec fn view(&self) -> RequestView {
        RequestView {
            id: self.id,
            op_code: self.op_code,
            recursion_desired: self.recursion_desired,
            questions: questions_view(self.questions@),
        }
    }
}

impl View for Answer {
    type V = AnswerView;

    open spec fn view(&self) -> AnswerView {
        AnswerView { labels: labels_view(self.labels@), ttl: self.ttl, addr: self.addr@ }
    }
}

impl View for DnsResponse {
    type V = ResponseView;

    open spec fn view(&self) -> ResponseView {
        ResponseView {
            id: self.id,
            op_code: self.op_code,
            recursion_desired: self.recursion_desired,
            recursion_available: self.recursion_available,
            rcode: self.rcode,
            questions: questions_view(self.questions@),
            answer: match self.answer {
                Some(answer) => Some(answer@),
                None => None,
            },
        }
    }
}

/// The header of a message.
pub struct HeaderView {
    pub id: u16,
    pub is_response: bool,
    pub op_code: u8,
    pub authoritative: bool,
    pub truncated: bool,
    pub recursion_desired: bool,
    pub recursion_available: bool,
    pub rcode: u8,
    pub question_count: u16,
    pub answer_count: u16,
}

/// The header in the first twelve bytes of a message.
pub open spec fn header_of(message: Seq<u8>) -> HeaderView {
    HeaderView {
        id: be_value(message.subrange(0, 2)) as u16,
        is_response: message[2] / 128 == 1,
        op_code: message[2] / 8 % 16,
        authoritative: message[2] / 4 % 2 == 1,
        truncated: message[2] / 2 % 2 == 1,
        recursion_desired: message[2] % 2 == 1,
        recursion_available: message[3] / 128 == 1,
        rcode: message[3] % 16,
        question_count: be_value(message.subrange(4, 6)) as u16,
        answer_count: be_value(message.subrange(6, 8)) as u16,
    }
}

/// The request says what the header says.
pub open spec fn request_has_header(request: DnsRequest, header: HeaderView) -> bool {
    &&& request.id == header.id
    &&& request.op_code == header.op_code
    &&& request.recursion_desired == header.recursion_desired
    &&& request.questions@.len() == header.question_count
}

/// The header says what the response says. An answer for which there is no room is left
/// out, and the header marks it.
pub open spec fn response_has_header(response: DnsResponse, header: HeaderView) -> bool {
    &&& header.id == response.id
    &&& header.is_response
    &&& header.op_code == response.op_code % 16
    &&& !header.authoritative
    &&& header.truncated ==> response.answer is Some
    &&& header.recursion_desired == response.recursion_desired
    &&& header.recursion_available == response.recursion_available
    &&& header.rcode == response.rcode % 16
    &&& header.question_count == response.questions@.len()
    &&& header.answer_count == if response.answer is Some && !header.truncated {
        1int
    } else {
        0int
    }
}

/// What the message library says is wrong with a message.
#[verifier::external_type_specification]
#[verifier::external_body]
pub struct ExProtoError(ProtoError);

/// What `Message::from_vec` of hickory-proto reads out of bytes: a query, or nothing if the
/// bytes are no message.
pub uninterp spec fn parsed_request(data: Seq<u8>) -> Option<RequestView>;

/// What `Message::to_vec` of hickory-proto makes of a response: bytes, or nothing if the
/// response does not fit in a message or if labels in it form no name.
pub uninterp spec fn encoded_response(response: ResponseView) -> Option<Seq<u8>>;

/// Read a query with `Message::from_vec` of hickory-proto.
///
/// Claimed: the outcome depends on the bytes alone. A message has a header of twelve bytes,
/// and what is read out of the header stands there; there are as many questions as the header
/// counts. Which bytes are a message, and how questions are laid out, is not stated.
#[verifier::external_body]
pub(crate) fn parse_request(data: &[u8]) -> (request: Result<DnsRequest, ProtoError>)
    ensures
        request is Ok <==> parsed_request(data@) is Some,
        request matches Ok(r) ==> parsed_request(data@) == Some(r@),
        request matches Ok(r) ==> data@.len() >= HEADER_LEN && request_has_header(
            r,
            header_of(data@),
        ),
{
    let message = Message::from_vec(data)?;
    let questions = message.queries().iter().map(|q| Question {
        labels: q.name().iter().map(|label| label.to_vec()).collect(),
        ascii: q.name().to_ascii(),
        qtype: q.query_type().into(),
        qclass: q.query_class().into(),
    }).collect();
    Ok(DnsRequest {
        id: message.id(),
        op_code: message.op_code().into(),
        recursion_desired: message.recursion_desired(),
        questions,
    })
}

/// Write a response with `Message::to_vec` of hickory-proto.
///
/// Claimed: the outcome depends on the response alone, and the bytes start with a header of
/// twelve bytes that says what the response says. The bytes behind the header are not stated.
/// A section with more entries than its counter can count makes `to_vec` panic, which is
/// why it is left out.
#[verifier::external_body]
pub(crate) fn encode_response(response: &DnsResponse) -> (bytes: Result<Vec<u8>, ProtoError>)
    requires
        response.questions@.len() <= MAX_SECTION_LEN,
    ensures
        bytes is Ok <==> encoded_response(response@) is Some,
        bytes matches Ok(b) ==> encoded_response(response@) == Some(b@),
        bytes matches Ok(b) ==> b@.len() >= HEADER_LEN && response_has_header(
            *response,
            header_of(b@),
        ),
{
    let mut message = Message::new();
    message.set_id(response.id).set_message_type(MessageType::Response);
    message.set_op_code(OpCode::from_u8(response.op_code));
    message.set_recursion_desired(response.recursion_desired);
    message.set_recursion_available(response.recursion_available);
    message.set_response_code(ResponseCode::from_low(response.rcode));
    for q in &response.questions {
        let mut query = Query::query(Name::from_labels(q.labels.clone())?, q.qtype.into());
        message.add_query(query.set_query_class(q.qclass.into()).clone());
    }
    for a in &response.answer {
        let name = Name::from_labels(a.labels.clone())?;
        message.add_answer(Record::from_rdata(name, a.ttl, RData::AAAA(AAAA(a.addr.into()))));
    }
    message.to_vec()
}

/// The header of a message, bit by bit. The id, and the numbers of questions and answers,
/// stand in bytes 0 and 1, 4 and 5, and 6 and 7, the higher byte first. Byte 2 is made up of
/// the response bit, four bits of operation code, and the bits for an authoritative answer, a
/// truncation and desired recursion. In byte 3 the top bit offers recursion, and the lowest
/// four are the response code.
pub proof fn law_header_bit_by_bit(message: Seq<u8>)
    requires
        message.len() >= 12,
    ensures
        ({
            let h = header_of(message);
            let bit = |b: bool| if b { 1int } else { 0 };
            &&& h.id == message[0] * 256 + message[1]
            &&& h.question_count == message[4] * 256 + message[5]
            &&& h.answer_count == message[6] * 256 + message[7]
            &&& h.op_code < 16 && h.rcode < 16
            &&& message[2] == bit(h.is_response) * 128 + h.op_code * 8 + bit(h.authoritative) * 4
                + bit(h.truncated) * 2 + bit(h.recursion_desired)
            &&& message[3] == bit(h.recursion_available) * 128 + message[3] % 128 / 16 * 16
                + h.rcode
        }),
{
    lemma_be_value_2(message.subrange(0, 2));
    lemma_be_value_2(message.subrange(4, 6));
    lemma_be_value_2(message.subrange(6, 8));
}

} // verus!
