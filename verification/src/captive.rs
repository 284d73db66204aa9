use vstd::prelude::*;

use core::time::Duration;

use domain::base::iana::Opcode;
use domain::base::message_builder::AnswerBuilder;
use domain::base::octets::{Octets512, ParseError};
use domain::base::{Message, MessageBuilder, ParsedDname, Question, QuestionSection, ShortBuf};

verus! {

#[verifier::external_type_specification]
#[verifier::external_body]
#[verifier::reject_recursive_types(O)]
pub struct ExMessage<O>(domain::base::Message<O>);

#[verifier::external_type_specification]
#[verifier::external_body]
#[verifier::reject_recursive_types(R)]
pub struct ExQuestionSection<R>(domain::base::QuestionSection<R>);

#[verifier::external_type_specification]
#[verifier::external_body]
#[verifier::reject_recursive_types(N)]
pub struct ExQuestion<N>(domain::base::Question<N>);

#[verifier::external_type_specification]
#[verifier::external_body]
#[verifier::reject_recursive_types(R)]
pub struct ExParsedDname<R>(domain::base::ParsedDname<R>);

#[verifier::external_type_specification]
#[verifier::external_body]
#[verifier::reject_recursive_types(T)]
pub struct ExMessageBuilder<T>(domain::base::MessageBuilder<T>);

#[verifier::external_type_specification]
#[verifier::external_body]
#[verifier::reject_recursive_types(T)]
pub struct ExAnswerBuilder<T>(domain::base::message_builder::AnswerBuilder<T>);

#[verifier::external_type_specification]
#[verifier::external_body]
pub struct ExOctets512(domain::base::octets::Octets512);

#[verifier::external_type_specification]
#[verifier::external_body]
pub struct ExShortBuf(domain::base::ShortBuf);

#[verifier::external_type_specification]
#[verifier::external_body]
pub struct ExParseError(domain::base::octets::ParseError);

/// An error of the DNS library, kept as it came.
pub struct InnerError<T>(pub T);

/// Why a DNS request could not be answered: a buffer too short (the request for its
/// header, or the response for its answers), or a question that does not parse.
pub enum DnsError {
    ShortBuf(InnerError<ShortBuf>),
    ParseError(InnerError<ParseError>),
}

/// The kind of a `DnsError`, without the library's error value.
#[derive(Debug, Clone, Copy, PartialEq, Eq, Structural)]
pub enum DnsFailure {
    ShortBuf,
    ParseError,
}

/// The opcode of a standard query.
pub const OPCODE_QUERY: u8 = 0;

/// The response code "no error".
pub const RCODE_NO_ERROR: u8 = 0;

/// The response code "not implemented".
pub const RCODE_NOT_IMP: u8 = 4;

/// The class of Internet records.
pub const CLASS_IN: u16 = 1;

/// The id in the header of the message `m` (its first two bytes, big-endian).
pub open spec fn dns_id(m: Seq<u8>) -> u16 {
    (m[0] as int * 256 + m[1] as int) as u16
}

/// The opcode in the header of the message `m` (bits 3 to 6 of its third byte).
pub open spec fn dns_opcode(m: Seq<u8>) -> u8 {
    (m[2] >> 3u8) & 0x0Fu8
}

/// Whether the header of the message `m` asks for recursion (the low bit of its third byte).
pub open spec fn dns_rd(m: Seq<u8>) -> bool {
    m[2] & 1u8 == 1u8
}

/// The number of questions the header of the message `m` announces.
pub open spec fn qdcount(m: Seq<u8>) -> nat {
    (m[4] as nat) * 256 + (m[5] as nat)
}

/// Whether `m` holds a header whose opcode is `Query`.
pub open spec fn is_dns_query(m: Seq<u8>) -> bool {
    m.len() >= 12 && dns_opcode(m) == OPCODE_QUERY
}

/// A header of twelve zero bytes: what a new message builder holds.
pub open spec fn empty_header() -> Seq<u8> {
    Seq::new(12, |i: int| 0u8)
}

/// The answer to a request `m` that is no query: its id, opcode and recursion flag copied,
/// the response flag clear, the code "not implemented", no records.
pub open spec fn not_imp_reply(m: Seq<u8>) -> Seq<u8> {
    seq![m[0], m[1], m[2] & 0x79u8, RCODE_NOT_IMP, 0u8, 0u8, 0u8, 0u8, 0u8, 0u8, 0u8, 0u8]
}

/// The bytes of a message over a request.
pub uninterp spec fn message_octets(message: Message<&[u8]>) -> Seq<u8>;

/// The message a question section reads its questions from.
pub uninterp spec fn section_origin(section: QuestionSection<&&[u8]>) -> Seq<u8>;

/// How many questions a question section has still to give; `0` once it failed.
pub uninterp spec fn questions_left(section: QuestionSection<&&[u8]>) -> nat;

/// Where a question was read: the message and its place among the questions.
pub uninterp spec fn question_origin(question: Question<ParsedDname<&&[u8]>>) -> (Seq<u8>, nat);

/// Whether the question at `index` of `message` parses (those before it having parsed).
pub uninterp spec fn dns_question_parses(message: Seq<u8>, index: nat) -> bool;

/// Whether the question at `index` of `message` asks for an IPv4 address (type `A`).
pub uninterp spec fn dns_question_is_a(message: Seq<u8>, index: nat) -> bool;

/// The bytes a message builder holds.
pub uninterp spec fn builder_octets(builder: MessageBuilder<Octets512>) -> Seq<u8>;

/// The bytes an answer builder holds.
pub uninterp spec fn answer_octets(answer: AnswerBuilder<Octets512>) -> Seq<u8>;

/// The bytes a 512-byte buffer holds.
pub uninterp spec fn octets512_bytes(octets: Octets512) -> Seq<u8>;

/// What `MessageBuilder::start_answer` makes of a builder holding `builder` for the request
/// `message` with the code `rcode`; `None` when the questions do not fit.
pub uninterp spec fn started_answer(builder: Seq<u8>, message: Seq<u8>, rcode: u8) -> Option<Seq<u8>>;

/// What `AnswerBuilder::push` makes of an answer holding `answer` with an `A` record for
/// the name of the question at `index` of `message`, of class `class`, time to live `ttl`
/// and address `ip`; `None` when the record does not fit.
pub uninterp spec fn pushed_a(answer: Seq<u8>, message: Seq<u8>, index: nat, class: u16, ttl: u32, ip: Seq<u8>) -> Option<Seq<u8>>;

/// `Duration::as_secs`: the whole seconds of `duration`.
pub uninterp spec fn whole_secs(duration: Duration) -> u64;

/// The answers to the `left` questions of `message` from the one at `index` on, pushed in
/// order onto `answer`: one `A` record of class `IN` with `ttl` and `ip` per question for
/// an IPv4 address, none for the others; a question that does not parse stops it all.
pub open spec fn answers_from(answer: Seq<u8>, message: Seq<u8>, index: nat, left: nat, ttl: u32, ip: Seq<u8>) -> Result<
    Seq<u8>,
    DnsFailure,
>
    decreases left,
{
    if left == 0 {
        Ok(answer)
    } else if !dns_question_parses(message, index) {
        Err(DnsFailure::ParseError)
    } else if dns_question_is_a(message, index) {
        match pushed_a(answer, message, index, CLASS_IN, ttl, ip) {
            Some(next) => answers_from(next, message, index + 1, (left - 1) as nat, ttl, ip),
            None => Err(DnsFailure::ShortBuf),
        }
    } else {
        answers_from(answer, message, index + 1, (left - 1) as nat, ttl, ip)
    }
}

/// The reply of a captive portal's DNS server to `request`: for a query, the answer started
/// from it with "no error" and one `A` record with `ip` and `ttl` per question for an IPv4
/// address; for anything else, "not implemented"; a request without a whole header fails.
pub open spec fn dns_reply(request: Seq<u8>, ip: Seq<u8>, ttl: u32) -> Result<Seq<u8>, DnsFailure> {
    if request.len() < 12 {
        Err(DnsFailure::ShortBuf)
    } else if !is_dns_query(request) {
        Ok(not_imp_reply(request))
    } else {
        match started_answer(empty_header(), request, RCODE_NO_ERROR) {
            Some(answer) => answers_from(answer, request, 0, qdcount(request), ttl, ip),
            None => Err(DnsFailure::ShortBuf),
        }
    }
}

/// What a result says, with the library's error values left out.
pub open spec fn dns_outcome<T: View<V = Seq<u8>>>(r: Result<T, DnsError>) -> Result<Seq<u8>, DnsFailure> {
    match r {
        Ok(v) => Ok(v@),
        Err(DnsError::ShortBuf(_)) => Err(DnsFailure::ShortBuf),
        Err(DnsError::ParseError(_)) => Err(DnsFailure::ParseError),
    }
}

/// `Message::from_octets`: a message over the request bytes. The DNS library only checks
/// that the bytes hold a whole header, twelve bytes.
#[verifier::external_body]
fn message_from_octets<'a>(request: &'a [u8]) -> (r: Result<Message<&'a [u8]>, ShortBuf>)
    ensures
        r is Ok <==> request@.len() >= 12,
        r matches Ok(m) ==> message_octets(m) == request@,
{
    Message::from_octets(request)
}

/// `Message::question`: the questions of the message, one by one, as many as its header
/// announces.
#[verifier::external_body]
fn message_question<'b, 'a>(message: &'b Message<&'a [u8]>) -> (r: QuestionSection<&'b &'a [u8]>)
    ensures
        section_origin(r) == message_octets(*message),
        questions_left(r) == qdcount(message_octets(*message)),
{
    message.question()
}

/// `Iterator::next` of a question section: the next question while some are left; a
/// question that does not parse is reported once, after which none is left.
#[verifier::external_body]
fn question_next<'b, 'a>(section: &mut QuestionSection<&'b &'a [u8]>) -> (r: Option<
    Result<Question<ParsedDname<&'b &'a [u8]>>, ParseError>,
>)
    ensures
        section_origin(*final(section)) == section_origin(*old(section)),
        ({
            let m = section_origin(*old(section));
            let left = questions_left(*old(section));
            let index = (qdcount(m) - left) as nat;
            if left == 0 {
                r is None && questions_left(*final(section)) == 0
            } else if dns_question_parses(m, index) {
                r matches Some(Ok(q)) && question_origin(q) == (m, index) && questions_left(
                    *final(section),
                ) == left - 1
            } else {
                r matches Some(Err(_)) && questions_left(*final(section)) == 0
            }
        }),
{
    section.next()
}

/// Whether the question asks for an IPv4 address (`Question::qtype` is `A`).
#[verifier::external_body]
fn question_is_a<'b, 'a>(question: &Question<ParsedDname<&'b &'a [u8]>>) -> (r: bool)
    ensures
        r == dns_question_is_a(question_origin(*question).0, question_origin(*question).1),
{
    match question.qtype() {
        domain::base::Rtype::A => true,
        _ => false,
    }
}

/// `MessageBuilder::from_target` on a new 512-byte buffer: a builder holding an all-zero
/// header; the buffer always has room for it.
#[verifier::external_body]
fn builder_new() -> (r: Result<MessageBuilder<Octets512>, ShortBuf>)
    ensures
        r is Ok,
        r matches Ok(b) ==> builder_octets(b) == empty_header(),
{
    MessageBuilder::from_target(Octets512::new())
}

/// `MessageBuilder::start_answer` with the code `rcode`: the response's header and
/// questions taken from the request; fails when they do not fit.
#[verifier::external_body]
fn builder_start_answer<'a>(builder: MessageBuilder<Octets512>, message: &Message<&'a [u8]>, rcode: u8) -> (r:
    Result<AnswerBuilder<Octets512>, ShortBuf>)
    requires
        rcode < 16,
    ensures
        r is Ok <==> started_answer(builder_octets(builder), message_octets(*message), rcode) is Some,
        r matches Ok(a) ==> Some(answer_octets(a)) == started_answer(
            builder_octets(builder),
            message_octets(*message),
            rcode,
        ),
{
    builder.start_answer(message, domain::base::iana::Rcode::from_int(rcode))
}

/// `AnswerBuilder::push` of an `A` record for the question's name, of class `class`, with
/// the time to live `ttl` and the address `ip`; fails when the record does not fit.
#[verifier::external_body]
fn answer_push_a<'b, 'a>(
    answer: &mut AnswerBuilder<Octets512>,
    question: &Question<ParsedDname<&'b &'a [u8]>>,
    class: u16,
    ttl: u32,
    ip: &[u8; 4],
) -> (r: Result<(), ShortBuf>)
    ensures
        ({
            let pushed = pushed_a(
                answer_octets(*old(answer)),
                question_origin(*question).0,
                question_origin(*question).1,
                class,
                ttl,
                ip@,
            );
            &&& r is Ok <==> pushed is Some
            &&& r is Ok ==> Some(answer_octets(*final(answer))) == pushed
        }),
{
    answer.push(
        domain::base::Record::new(
            question.qname(),
            domain::base::iana::Class::from_int(class),
            ttl,
            domain::rdata::A::from_octets(ip[0], ip[1], ip[2], ip[3]),
        ),
    )
}

/// `AnswerBuilder::finish`: the bytes of the response.
#[verifier::external_body]
fn answer_finish(answer: AnswerBuilder<Octets512>) -> (r: Octets512)
    ensures
        octets512_bytes(r) == answer_octets(answer),
{
    answer.finish()
}

/// `Header::set_id` on the response's header: its first two bytes, big-endian.
#[verifier::external_body]
fn builder_set_id(builder: &mut MessageBuilder<Octets512>, id: u16)
    requires
        builder_octets(*old(builder)).len() >= 12,
    ensures
        builder_octets(*final(builder)) == builder_octets(*old(builder)).update(0, (id / 256) as u8).update(
            1,
            (id % 256) as u8,
        ),
{
    builder.header_mut().set_id(id)
}

/// `Header::set_opcode` on the response's header: bits 3 to 6 of its third byte.
#[verifier::external_body]
fn builder_set_opcode(builder: &mut MessageBuilder<Octets512>, opcode: u8)
    requires
        builder_octets(*old(builder)).len() >= 12,
        opcode < 16,
    ensures
        builder_octets(*final(builder)) == builder_octets(*old(builder)).update(
            2,
            (builder_octets(*old(builder))[2] & 0x87u8) | (opcode << 3u8),
        ),
{
    builder.header_mut().set_opcode(Opcode::from_int(opcode))
}

/// `Header::set_rd` on the response's header: the low bit of its third byte.
#[verifier::external_body]
fn builder_set_rd(builder: &mut MessageBuilder<Octets512>, rd: bool)
    requires
        builder_octets(*old(builder)).len() >= 12,
    ensures
        builder_octets(*final(builder)) == builder_octets(*old(builder)).update(
            2,
            if rd {
                builder_octets(*old(builder))[2] | 1u8
            } else {
                builder_octets(*old(builder))[2] & 0xFEu8
            },
        ),
{
    builder.header_mut().set_rd(rd)
}

/// `Header::set_rcode` on the response's header: the low four bits of its fourth byte.
#[verifier::external_body]
fn builder_set_rcode(builder: &mut MessageBuilder<Octets512>, rcode: u8)
    requires
        builder_octets(*old(builder)).len() >= 12,
        rcode < 16,
    ensures
        builder_octets(*final(builder)) == builder_octets(*old(builder)).update(
            3,
            (builder_octets(*old(builder))[3] & 0xF0u8) | rcode,
        ),
{
    builder.header_mut().set_rcode(domain::base::iana::Rcode::from_int(rcode))
}

/// `MessageBuilder::finish`: the bytes of the response.
#[verifier::external_body]
fn builder_finish(builder: MessageBuilder<Octets512>) -> (r: Octets512)
    ensures
        octets512_bytes(r) == builder_octets(builder),
{
    builder.finish()
}

/// The bytes of a 512-byte buffer (its `AsRef<[u8]>`), copied out.
#[verifier::external_body]
fn octets_to_vec(octets: &Octets512) -> (r: Vec<u8>)
    ensures
        r@ == octets512_bytes(*octets),
{
    let bytes: &[u8] = octets.as_ref();
    bytes.to_vec()
}

/// `Duration::as_secs`: the whole seconds of `duration`.
#[verifier::external_body]
fn duration_as_secs(duration: &Duration) -> (r: u64)
    ensures
        r == whole_secs(*duration),
{
    duration.as_secs()
}

/// Whether `request` holds a header whose opcode is `Query`.
pub fn dns_is_query(request: &[u8]) -> (r: bool)
    ensures
        r == is_dns_query(request@),
{
    request.len() >= 12 && (request[2] >> 3u8) & 0x0Fu8 == OPCODE_QUERY
}

/// Answers the questions the section has still to give, in order, onto `answerb`: an `A`
/// record with `ip` and `ttl_secs` for each question for an IPv4 address; fails at the first
/// question that does not parse or record that does not fit.
pub fn answer_questions<'b, 'a>(
    answerb: &mut AnswerBuilder<Octets512>,
    questions: &mut QuestionSection<&'b &'a [u8]>,
    ttl_secs: u32,
    ip: &[u8; 4],
) -> (r: Result<(), DnsError>)
    requires
        questions_left(*old(questions)) <= qdcount(section_origin(*old(questions))),
    ensures
        ({
            let m = section_origin(*old(questions));
            let left = questions_left(*old(questions));
            let expected = answers_from(
                answer_octets(*old(answerb)),
                m,
                (qdcount(m) - left) as nat,
                left,
                ttl_secs,
                ip@,
            );
            &&& r is Ok <==> expected is Ok
            &&& r matches Ok(_) ==> expected == Ok::<Seq<u8>, DnsFailure>(answer_octets(*final(answerb)))
            &&& r matches Err(e) ==> dns_outcome::<Vec<u8>>(Err(e)) == expected
        }),
{
    let ghost m = section_origin(*questions);
    let ghost expected = answers_from(
        answer_octets(*answerb),
        m,
        (qdcount(m) - questions_left(*questions)) as nat,
        questions_left(*questions),
        ttl_secs,
        ip@,
    );
    loop
        invariant
            m == section_origin(*old(questions)),
            expected == answers_from(
                answer_octets(*old(answerb)),
                m,
                (qdcount(m) - questions_left(*old(questions))) as nat,
                questions_left(*old(questions)),
                ttl_secs,
                ip@,
            ),
            section_origin(*questions) == m,
            questions_left(*questions) <= qdcount(m),
            expected == answers_from(
                answer_octets(*answerb),
                m,
                (qdcount(m) - questions_left(*questions)) as nat,
                questions_left(*questions),
                ttl_secs,
                ip@,
            ),
        decreases questions_left(*questions),
    {
        let ghost index = (qdcount(m) - questions_left(*questions)) as nat;
        match question_next(questions) {
            None => {
                return Ok(());
            },
            Some(Err(e)) => {
                return Err(DnsError::ParseError(InnerError(e)));
            },
            Some(Ok(question)) => {
                if question_is_a(&question) {
                    match answer_push_a(answerb, &question, CLASS_IN, ttl_secs, ip) {
                        Ok(()) => {},
                        Err(e) => {
                            return Err(DnsError::ShortBuf(InnerError(e)));
                        },
                    }
                }
                assert(index + 1 == qdcount(m) - questions_left(*questions));
            },
        }
    }
}

/// Answers a DNS request the way a captive portal does: every question for an IPv4
/// address of a query is answered with `ip` and the time to live `ttl`, other questions
/// are left unanswered, and a request that is no query is answered "not implemented".
/// A request too short for a header fails with `ShortBuf`.
pub fn process_dns_request(request: &[u8], ip: &[u8; 4], ttl: Duration) -> (r: Result<Vec<u8>, DnsError>)
    ensures
        dns_outcome(r) == dns_reply(request@, ip@, #[verifier::truncate] (whole_secs(ttl) as u32)),
{
    let message = match message_from_octets(request) {
        Ok(m) => m,
        Err(e) => {
            return Err(DnsError::ShortBuf(InnerError(e)));
        },
    };
    let mut responseb = match builder_new() {
        Ok(b) => b,
        Err(e) => {
            return Err(DnsError::ShortBuf(InnerError(e)));
        },
    };
    let response = if dns_is_query(request) {
        let mut answerb = match builder_start_answer(responseb, &message, RCODE_NO_ERROR) {
            Ok(a) => a,
            Err(e) => {
                return Err(DnsError::ShortBuf(InnerError(e)));
            },
        };
        let ttl_secs: u32 = #[verifier::truncate] (duration_as_secs(&ttl) as u32);
        let mut questions = message_question(&message);
        match answer_questions(&mut answerb, &mut questions, ttl_secs, ip) {
            Ok(()) => {},
            Err(e) => {
                return Err(e);
            },
        }
        answer_finish(answerb)
    } else {
        let b0 = request[0];
        let b1 = request[1];
        let b2 = request[2];
        let id: u16 = b0 as u16 * 256 + b1 as u16;
        let opcode: u8 = (b2 >> 3u8) & 0x0Fu8;
        let rd: bool = b2 & 1u8 == 1u8;
        assert((b2 >> 3u8) & 0x0Fu8 < 16u8) by (bit_vector);
        builder_set_id(&mut responseb, id);
        builder_set_opcode(&mut responseb, opcode);
        builder_set_rd(&mut responseb, rd);
        builder_set_rcode(&mut responseb, RCODE_NOT_IMP);
        proof {
            let x: u8 = (0u8 & 0x87u8) | (opcode << 3u8);
            assert(opcode == (b2 >> 3u8) & 0x0Fu8 && x == (0u8 & 0x87u8) | (opcode << 3u8) ==> (if b2 & 1u8
                == 1u8 {
                x | 1u8
            } else {
                x & 0xFEu8
            }) == b2 & 0x79u8) by (bit_vector);
            assert((0u8 & 0xF0u8) | 4u8 == 4u8) by (bit_vector);
            assert(builder_octets(responseb) =~= not_imp_reply(request@));
        }
        builder_finish(responseb)
    };
    Ok(octets_to_vec(&response))
}

} // verus!
