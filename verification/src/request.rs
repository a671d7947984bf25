//! Requests: from their headers to the answer.
use crate::common::{HTTPVersion, Header, Method, StatusCode};
use crate::framing;
use crate::framing::{BodyPlan, Framing, Refusal};
use crate::io_error;
use crate::io_error::{ErrorKind, IoError};
use crate::util::equal_reader;
use crate::util::equal_reader::EqualReader;
use vstd::prelude::*;

verus! {

/// Why a body that ends before its announced length is given up.
pub const CLOSED_EARLY: &'static str = "Connection has been closed before we received enough data";

/// Represents an HTTP request made by a client.
///
/// The reader `B` of the body, the writer `W` of the response, the address `A`
/// of the client and the sender `N` of a notification are only carried here;
/// whoever owns the request reads, writes and sends.
///
/// # Automatic cleanup
///
/// A request that is given up without being answered is to be answered with an
/// empty response with a 500 status code (internal server error): see
/// [`Request::abandon`].
#[derive(Debug)]
pub struct Request<B, W, A, N> {
    // where to read the body from
    data_reader: Option<B>,
    // if this writer is empty, then the request has been answered
    response_writer: Option<W>,
    remote_addr: Option<A>,
    // true if HTTPS, false if HTTP
    secure: bool,
    method: Method,
    path: String,
    http_version: HTTPVersion,
    headers: Vec<Header>,
    body_length: Option<usize>,
    // true if a `100 Continue` response must be sent when `as_reader()` is called
    must_send_continue: bool,
    // If Some, a message must be sent after responding
    notify_when_responded: Option<N>,
}

/// The state of a request.
pub ghost struct RequestState<B, W, A, N> {
    pub data_reader: Option<B>,
    pub response_writer: Option<W>,
    pub remote_addr: Option<A>,
    pub secure: bool,
    pub method: Method,
    pub path: Seq<char>,
    pub http_version: HTTPVersion,
    pub headers: Seq<Header>,
    pub body_length: Option<usize>,
    pub must_send_continue: bool,
    pub notify_when_responded: Option<N>,
}

impl<B, W, A, N> RequestState<B, W, A, N> {
    /// The request can be read from and waits for its answer.
    pub open spec fn is_open(self) -> bool {
        self.data_reader is Some && self.response_writer is Some
    }
}

impl<B, W, A, N> View for Request<B, W, A, N> {
    type V = RequestState<B, W, A, N>;

    closed spec fn view(&self) -> RequestState<B, W, A, N> {
        RequestState {
            data_reader: self.data_reader,
            response_writer: self.response_writer,
            remote_addr: self.remote_addr,
            secure: self.secure,
            method: self.method,
            path: self.path@,
            http_version: self.http_version,
            headers: self.headers@,
            body_length: self.body_length,
            must_send_continue: self.must_send_continue,
            notify_when_responded: self.notify_when_responded,
        }
    }
}

/// Error that can happen when building a `Request` object.
#[derive(Debug)]
pub enum RequestCreationError<E> {
    /// The client sent an `Expect` header that was not recognized.
    ExpectationFailed,
    /// The client sent a `Transfer-Encoding` header whose value cannot be
    /// safely interpreted, or sent both `Transfer-Encoding` and
    /// `Content-Length` headers.
    InvalidTransferEncoding,
    /// Error while reading data from the socket during the creation of the `Request`.
    CreationIoError(IoError<E>),
}

impl<E> From<IoError<E>> for RequestCreationError<E> {
    fn from(err: IoError<E>) -> (r: RequestCreationError<E>) {
        RequestCreationError::CreationIoError(err)
    }
}

impl<E> vstd::std_specs::convert::FromSpecImpl<IoError<E>> for RequestCreationError<E> {
    open spec fn obeys_from_spec() -> bool {
        true
    }

    open spec fn from_spec(err: IoError<E>) -> RequestCreationError<E> {
        RequestCreationError::CreationIoError(err)
    }
}

/// Where the body of a request is read from, out of the source `R` that its
/// headers came from.
#[derive(Debug)]
pub enum Body<R> {
    /// The source itself, to its end.
    Whole(R),
    /// No body.
    Empty,
    /// The bytes of the body, already read.
    Buffered(Vec<u8>),
    /// So many bytes of the source.
    Limited(EqualReader<R>),
    /// The source, in which the body comes in chunks.
    Chunked(R),
}

/// A body, by what is in it.
pub ghost enum BodyState<R> {
    Whole(R),
    Empty,
    Buffered(Seq<u8>),
    Limited(R, nat),
    Chunked(R),
}

impl<R> View for Body<R> {
    type V = BodyState<R>;

    open spec fn view(&self) -> BodyState<R> {
        match self {
            Body::Whole(source) => BodyState::Whole(*source),
            Body::Empty => BodyState::Empty,
            Body::Buffered(bytes) => BodyState::Buffered(bytes@),
            Body::Limited(reader) => BodyState::Limited(reader.reader(), reader.size() as nat),
            Body::Chunked(source) => BodyState::Chunked(*source),
        }
    }
}

/// A request on its way.
#[derive(Debug)]
pub enum NewRequest<R, W, A, N> {
    /// The request is there.
    Ready(Request<Body<R>, W, A, N>),
    /// The body has to be read first.
    ReadBody(PendingRequest<R, W, A, N>),
}

/// A request whose body is being read into memory.
#[derive(Debug)]
pub struct PendingRequest<R, W, A, N> {
    // the request without its body
    request: Request<Body<R>, W, A, N>,
    source: R,
    buffer: Vec<u8>,
    content_length: usize,
}

/// The state of a request whose body is being read into memory.
pub ghost struct PendingState<R, W, A, N> {
    pub request: RequestState<Body<R>, W, A, N>,
    pub source: R,
    pub received: Seq<u8>,
    pub content_length: nat,
}

/// What the next bytes of a body make of what there is of it.
pub ghost enum Progress {
    /// Some bytes are still to come.
    More(Seq<u8>),
    /// This is the whole body.
    Complete(Seq<u8>),
    /// The source has ended too early.
    Closed,
}

/// What there is of a body of `content_length` bytes after `bytes` came behind
/// what was `received`.
pub open spec fn progress(received: Seq<u8>, content_length: nat, bytes: Seq<u8>) -> Progress {
    if bytes.len() == 0 {
        Progress::Closed
    } else if received.len() + bytes.len() == content_length {
        Progress::Complete(received + bytes)
    } else {
        Progress::More(received + bytes)
    }
}

/// Nothing more is to be read of the body: reading failed, or nothing came.
pub open spec fn ends_reading<E>(event: Result<Vec<u8>, IoError<E>>) -> bool {
    match event {
        Err(_) => true,
        Ok(bytes) => bytes@.len() == 0,
    }
}

/// This is the error for what a read of the source returned.
pub open spec fn reading_fails_with<E>(
    event: Result<Vec<u8>, IoError<E>>,
    err: RequestCreationError<E>,
) -> bool {
    match event {
        Err(reported) => err == RequestCreationError::CreationIoError(reported),
        Ok(_) => {
            &&& err matches RequestCreationError::CreationIoError(IoError::Raised { kind, info })
            &&& kind == ErrorKind::ConnectionAborted
            &&& info@ == CLOSED_EARLY@
        },
    }
}

/// The error for a request that is refused for its headers.
pub open spec fn refused_with<E>(refusal: Refusal) -> RequestCreationError<E> {
    match refusal {
        Refusal::ExpectationFailed => RequestCreationError::ExpectationFailed,
        Refusal::InvalidTransferEncoding => RequestCreationError::InvalidTransferEncoding,
    }
}

impl<R, W, A, N> View for PendingRequest<R, W, A, N> {
    type V = PendingState<R, W, A, N>;

    closed spec fn view(&self) -> PendingState<R, W, A, N> {
        PendingState {
            request: self.request@,
            source: self.source,
            received: self.buffer@,
            content_length: self.content_length as nat,
        }
    }
}

impl<R, W, A, N> PendingState<R, W, A, N> {
    /// Some bytes of the body are still to come, and nothing else is.
    pub open spec fn wf(self) -> bool {
        &&& self.received.len() < self.content_length
        &&& self.request.response_writer is Some
    }

    /// How many bytes are still to come.
    pub open spec fn wanted(self) -> nat {
        (self.content_length - self.received.len()) as nat
    }
}

/// A request just built, with its body or still without it.
pub open spec fn built<B, W, A, N>(
    secure: bool,
    method: Method,
    path: Seq<char>,
    version: HTTPVersion,
    headers: Seq<Header>,
    remote_addr: Option<A>,
    writer: W,
    framing: Framing,
    body: Option<B>,
) -> RequestState<B, W, A, N> {
    RequestState {
        data_reader: body,
        response_writer: Some(writer),
        remote_addr,
        secure,
        method,
        path,
        http_version: version,
        headers,
        body_length: framing.content_length,
        must_send_continue: framing.expects_continue,
        notify_when_responded: None,
    }
}

/// The body that a plan makes of a source; none yet where it is to be read into
/// memory first.
pub open spec fn planned_body<R>(plan: BodyPlan, source: R) -> Option<BodyState<R>> {
    match plan {
        BodyPlan::Whole => Some(BodyState::Whole(source)),
        BodyPlan::Empty => Some(BodyState::Empty),
        BodyPlan::Buffer(_) => None,
        BodyPlan::Limit(length) => Some(BodyState::Limited(source, length as nat)),
        BodyPlan::Chunked => Some(BodyState::Chunked(source)),
    }
}

/// Builds a new request.
///
/// After the request line and headers have been read from the socket, a new `Request` object
/// is built.
///
/// The `source_data` is what the body is read from. It is the responsibility of the `Request`
/// to read only the data of the request and not further. A body that is to be read into memory
/// is asked for bit by bit, through [`PendingRequest`], before the request is there.
///
/// The `writer` will be used to write the response.
pub fn new_request<R, W, A, N, E>(
    secure: bool,
    method: Method,
    path: String,
    version: HTTPVersion,
    headers: Vec<Header>,
    remote_addr: Option<A>,
    source_data: R,
    writer: W,
) -> (r: Result<NewRequest<R, W, A, N>, RequestCreationError<E>>)
    ensures
        r is Err <==> framing::framing_of(headers@) is Err,
        framing::framing_of(headers@) matches Err(refusal) ==> r == Err::<NewRequest<R, W, A, N>, _>(
            refused_with::<E>(refusal),
        ),
        match framing::framing_of(headers@) {
            Err(Refusal::ExpectationFailed) => r == Err::<NewRequest<R, W, A, N>, _>(
                RequestCreationError::<E>::ExpectationFailed,
            ),
            Err(Refusal::InvalidTransferEncoding) => r == Err::<NewRequest<R, W, A, N>, _>(
                RequestCreationError::<E>::InvalidTransferEncoding,
            ),
            Ok(framing) => match framing.spec_plan() {
                BodyPlan::Buffer(length) => {
                    &&& r matches Ok(NewRequest::ReadBody(pending))
                    &&& pending@.wf()
                    &&& pending@ == (PendingState {
                        request: built::<Body<R>, W, A, N>(
                            secure,
                            method,
                            path@,
                            version,
                            headers@,
                            remote_addr,
                            writer,
                            framing,
                            None,
                        ),
                        source: source_data,
                        received: Seq::empty(),
                        content_length: length as nat,
                    })
                },
                plan => {
                    &&& r matches Ok(NewRequest::Ready(request))
                    &&& request@.is_open()
                    &&& planned_body(plan, source_data) == Some(request@.data_reader->0@)
                    &&& request@ == built::<Body<R>, W, A, N>(
                        secure,
                        method,
                        path@,
                        version,
                        headers@,
                        remote_addr,
                        writer,
                        framing,
                        request@.data_reader,
                    )
                },
            },
        },
{
    let framing: Framing = match framing::read_framing(headers.as_slice()) {
        Ok(framing) => framing,
        Err(Refusal::ExpectationFailed) => {
            return Err(RequestCreationError::ExpectationFailed);
        },
        Err(Refusal::InvalidTransferEncoding) => {
            return Err(RequestCreationError::InvalidTransferEncoding);
        },
    };
    let mut request = Request {
        data_reader: None,
        response_writer: Some(writer),
        remote_addr,
        secure,
        method,
        path,
        http_version: version,
        headers,
        body_length: framing.content_length,
        must_send_continue: framing.expects_continue,
        notify_when_responded: None,
    };
    // `source_data` becomes a body whose nature depends on the transfer-encoding and
    // content-length headers
    let body: Body<R> = match framing.plan() {
        BodyPlan::Buffer(content_length) => {
            return Ok(
                NewRequest::ReadBody(
                    PendingRequest {
                        request,
                        source: source_data,
                        buffer: Vec::new(),
                        content_length,
                    },
                ),
            );
        },
        BodyPlan::Whole => Body::Whole(source_data),
        BodyPlan::Empty => Body::Empty,
        BodyPlan::Limit(content_length) => Body::Limited(
            EqualReader::new(source_data, content_length),
        ),
        BodyPlan::Chunked => Body::Chunked(source_data),
    };
    request.data_reader = Some(body);
    Ok(NewRequest::Ready(request))
}

impl<R, W, A, N> PendingRequest<R, W, A, N> {
    /// How many bytes of the body are still to come. No read may ask the source
    /// for more.
    pub fn wanted(&self) -> (r: usize)
        requires
            self@.wf(),
        ensures
            r == self@.wanted(),
            r > 0,
            r + self@.received.len() == self@.content_length,
    {
        self.content_length - self.buffer.len()
    }

    /// The source, to be read from.
    pub fn source_mut(&mut self) -> (r: &mut R)
        ensures
            *r == old(self)@.source,
            final(self)@ == (PendingState { source: *final(r), ..old(self)@ }),
    {
        &mut self.source
    }

    /// Takes the bytes that a read of the source returned, or its error.
    ///
    /// No bytes mean that the source has ended before the announced length.
    pub fn received<E>(self, event: Result<Vec<u8>, IoError<E>>) -> (r: Result<
        NewRequest<R, W, A, N>,
        RequestCreationError<E>,
    >)
        requires
            self@.wf(),
            event matches Ok(bytes) ==> bytes@.len() <= self@.wanted(),
        ensures
            r is Err <==> ends_reading(event),
            r matches Err(err) ==> reading_fails_with(event, err),
            match event {
                Err(err) => r == Err::<NewRequest<R, W, A, N>, _>(
                    RequestCreationError::CreationIoError(err),
                ),
                Ok(bytes) => match progress(
                    self@.received,
                    self@.content_length,
                    bytes@,
                ) {
                    Progress::Closed => {
                        &&& r matches Err(RequestCreationError::CreationIoError(IoError::Raised {
                            kind,
                            info,
                        }))
                        &&& kind == ErrorKind::ConnectionAborted
                        &&& info@ == CLOSED_EARLY@
                    },
                    Progress::Complete(body) => {
                        &&& r matches Ok(NewRequest::Ready(request))
                        &&& request@.is_open()
                        &&& request@.data_reader->0@ == BodyState::<R>::Buffered(body)
                        &&& request@ == (RequestState {
                            data_reader: request@.data_reader,
                            ..self@.request
                        })
                    },
                    Progress::More(received) => {
                        &&& r matches Ok(NewRequest::ReadBody(pending))
                        &&& pending@.wf()
                        &&& pending@ == (PendingState { received, ..self@ })
                    },
                },
            },
    {
        let mut pending = self;
        match event {
            Err(err) => Err(RequestCreationError::from(err)),
            Ok(bytes) => {
                let mut bytes = bytes;
                if bytes.len() == 0 {
                    // the socket returned EOF, but we were before the expected content-length
                    // aborting
                    let err = IoError::Raised {
                        kind: ErrorKind::ConnectionAborted,
                        info: CLOSED_EARLY,
                    };
                    return Err(RequestCreationError::CreationIoError(err));
                }
                pending.buffer.append(&mut bytes);
                if pending.buffer.len() == pending.content_length {
                    let mut request = pending.request;
                    request.data_reader = Some(Body::Buffered(pending.buffer));
                    Ok(NewRequest::Ready(request))
                } else {
                    Ok(NewRequest::ReadBody(pending))
                }
            },
        }
    }
}

/// A stream out of a request, with someone to be notified when the stream is
/// given up, if anyone is.
#[derive(Debug)]
pub struct NotifyOnDrop<S, N> {
    sender: Option<N>,
    inner: S,
}

/// Something that happens to a stream out of a request.
pub ghost enum StreamEvent {
    /// It is read from or written to.
    Use,
    /// It is given up.
    GiveUp,
}

/// Who is to be notified now.
pub open spec fn notified<N>(sender: Option<N>, event: StreamEvent) -> Option<N> {
    match event {
        StreamEvent::Use => None,
        StreamEvent::GiveUp => sender,
    }
}

/// Who is still to be notified later.
pub open spec fn still_to_notify<N>(sender: Option<N>, event: StreamEvent) -> Option<N> {
    match event {
        StreamEvent::Use => sender,
        StreamEvent::GiveUp => None,
    }
}

impl<S, N> NotifyOnDrop<S, N> {
    /// Who is to be notified when the stream is given up.
    pub closed spec fn sender(&self) -> Option<N> {
        self.sender
    }

    /// The stream.
    pub closed spec fn inner(&self) -> S {
        self.inner
    }

    /// The stream, to be read from or written to.
    pub fn inner_mut(&mut self) -> (r: &mut S)
        ensures
            *r == old(self).inner(),
            final(self).inner() == *final(r),
            final(self).sender() == still_to_notify(old(self).sender(), StreamEvent::Use),
    {
        &mut self.inner
    }

    /// Gives up the stream. Who is returned, if anyone, is to be notified.
    pub fn give_up(&mut self) -> (r: Option<N>)
        ensures
            r == notified(old(self).sender(), StreamEvent::GiveUp),
            final(self).sender() == still_to_notify(old(self).sender(), StreamEvent::GiveUp),
            final(self).inner() == old(self).inner(),
    {
        self.sender.take()
    }
}

/// A `100 Continue` that is to be printed before the body is read. It has no
/// body, and asks for no other protocol.
pub struct Interim<'a> {
    pub status: StatusCode,
    pub http_version: HTTPVersion,
    pub headers: &'a [Header],
    pub do_not_send_body: bool,
}

/// What the printing of a response depends on, besides the response.
#[derive(Debug)]
pub struct Printing<'a> {
    /// the version of the request
    pub http_version: HTTPVersion,
    /// the headers of the request
    pub headers: Vec<Header>,
    /// only the head of the response is to be sent
    pub do_not_send_body: bool,
    /// the protocol that the connection is upgraded to, if it is
    pub upgrade: Option<&'a str>,
}

/// A request on its way to being answered: the response is to be printed to the
/// writer, which is then to be flushed.
#[derive(Debug)]
pub struct Answer<W, N> {
    pub writer: W,
    pub printing: Printing<'static>,
    pub notify: Option<N>,
}

/// What answering a request takes next.
#[derive(Debug)]
pub enum AnswerAction<N, E> {
    /// Flush the writer.
    Flush,
    /// Notify, if there is someone to notify, and return the result.
    Finish { notify: Option<N>, result: Result<(), IoError<E>> },
}

/// What to do after the response was printed, with this result.
pub open spec fn print_action<N, E>(
    notify: Option<N>,
    result: Result<(), IoError<E>>,
) -> AnswerAction<N, E> {
    match io_error::forgiven(result) {
        Ok(_) => AnswerAction::Flush,
        Err(err) => AnswerAction::Finish { notify, result: Err(err) },
    }
}

/// What to do after the writer was flushed, with this result.
pub open spec fn flush_action<N, E>(
    notify: Option<N>,
    result: Result<(), IoError<E>>,
) -> AnswerAction<N, E> {
    AnswerAction::Finish { notify, result: io_error::forgiven(result) }
}

impl<W, N> Answer<W, N> {
    /// What to do after the response was printed, with this result.
    pub fn printed<E>(&mut self, result: Result<(), IoError<E>>) -> (action: AnswerAction<N, E>)
        ensures
            action == print_action(old(self).notify, result),
            *final(self) == if action is Flush {
                *old(self)
            } else {
                (Answer { notify: None, ..*old(self) })
            },
    {
        match io_error::ignore_client_closing_errors(result) {
            Ok(_) => AnswerAction::Flush,
            Err(err) => AnswerAction::Finish { notify: self.notify.take(), result: Err(err) },
        }
    }

    /// What to do after the writer was flushed, with this result.
    pub fn flushed<E>(&mut self, result: Result<(), IoError<E>>) -> (action: AnswerAction<N, E>)
        ensures
            action == flush_action(old(self).notify, result),
            *final(self) == (Answer { notify: None, ..*old(self) }),
    {
        let result = io_error::ignore_client_closing_errors(result);
        AnswerAction::Finish { notify: self.notify.take(), result }
    }
}

impl<B, W, A, N> RequestState<B, W, A, N> {
    /// The status of the response that is to be sent before the body is read.
    pub open spec fn interim(self) -> Option<StatusCode> {
        if self.must_send_continue {
            Some(StatusCode(100))
        } else {
            None
        }
    }

    /// The request after its body was asked for, and then read through `reader`
    /// after something was written to `writer`.
    pub open spec fn after_as_reader(self, reader: B, writer: W) -> RequestState<B, W, A, N> {
        RequestState {
            data_reader: Some(reader),
            response_writer: Some(writer),
            must_send_continue: false,
            ..self
        }
    }

    /// The request after its writer was taken out: it counts as answered.
    pub open spec fn without_writer(self) -> RequestState<B, W, A, N> {
        RequestState { response_writer: None, ..self }
    }

    /// The request after the reader of its body was taken out.
    pub open spec fn without_reader(self) -> RequestState<B, W, A, N> {
        RequestState { data_reader: None, ..self }
    }

    /// The request, with `sender` to be notified when it was answered.
    pub open spec fn with_sender(self, sender: N) -> RequestState<B, W, A, N> {
        RequestState { notify_when_responded: Some(sender), ..self }
    }

    /// The request would have to be answered if it were given up now.
    pub open spec fn is_unanswered(self) -> bool {
        self.response_writer is Some
    }

    /// The request, with another reader of its body.
    pub open spec fn with_reader<C>(self, reader: Option<C>) -> RequestState<C, W, A, N> {
        RequestState {
            data_reader: reader,
            response_writer: self.response_writer,
            remote_addr: self.remote_addr,
            secure: self.secure,
            method: self.method,
            path: self.path,
            http_version: self.http_version,
            headers: self.headers,
            body_length: self.body_length,
            must_send_continue: self.must_send_continue,
            notify_when_responded: self.notify_when_responded,
        }
    }

    /// This is what is to be printed before the body is read, if anything is.
    pub open spec fn continues_with(self, interim: Option<Interim<'_>>) -> bool {
        match interim {
            Some(interim) => {
                &&& self.interim() == Some(interim.status)
                &&& interim.http_version == self.http_version
                &&& interim.headers@ == self.headers
                &&& interim.do_not_send_body
            },
            None => self.interim() is None,
        }
    }

    /// The response to an upgrade prints like this, to this stream.
    pub open spec fn upgrades_with(
        self,
        protocol: Seq<char>,
        printing: Printing<'_>,
        stream: NotifyOnDrop<(B, W), N>,
    ) -> bool {
        &&& printing.http_version == self.http_version
        &&& printing.headers@ == self.headers
        &&& !printing.do_not_send_body
        &&& printing.upgrade matches Some(name) && name@ == protocol
        &&& self.data_reader == Some(stream.inner().0)
        &&& self.response_writer == Some(stream.inner().1)
        &&& stream.sender() == self.notify_when_responded
    }

    /// This is the writer that the request is turned into.
    pub open spec fn turns_into(self, writer: NotifyOnDrop<W, N>) -> bool {
        &&& self.response_writer == Some(writer.inner())
        &&& writer.sender() == self.notify_when_responded
    }

    /// This is what is to be sent when the request is given up, if anything is.
    pub open spec fn abandons_with(self, sent: Option<(StatusCode, Answer<W, N>)>) -> bool {
        match sent {
            Some((status, answer)) => status == StatusCode(500) && self.answers_with(answer),
            None => !self.is_unanswered(),
        }
    }

    /// The answer prints like this; a response to a `HEAD` request has no body.
    pub open spec fn answers_with(self, answer: Answer<W, N>) -> bool {
        &&& self.response_writer == Some(answer.writer)
        &&& answer.printing.http_version == self.http_version
        &&& answer.printing.headers@ == self.headers
        &&& answer.printing.do_not_send_body == (self.method is Head)
        &&& answer.printing.upgrade is None
        &&& answer.notify == self.notify_when_responded
    }

    /// The text that stands for the request in messages, where `remote_addr`
    /// stands for the address of the client.
    pub open spec fn text(self, remote_addr: Seq<char>) -> Seq<char> {
        "Request("@ + self.method.name() + " "@ + self.path + " from "@ + remote_addr + ")"@
    }
}

impl<B, W, A, N> Request<B, W, A, N> {
    /// Returns true if the request was made through HTTPS.
    pub fn secure(&self) -> (r: bool)
        ensures
            r == self@.secure,
    {
        self.secure
    }

    /// Returns the method requested by the client (eg. `GET`, `POST`, etc.).
    pub fn method(&self) -> (r: &Method)
        ensures
            *r == self@.method,
    {
        &self.method
    }

    /// Returns the resource requested by the client.
    pub fn url(&self) -> (r: &str)
        ensures
            r@ == self@.path,
    {
        self.path.as_str()
    }

    /// Returns a list of all headers sent by the client.
    pub fn headers(&self) -> (r: &[Header])
        ensures
            r@ == self@.headers,
    {
        self.headers.as_slice()
    }

    /// Returns the HTTP version of the request.
    pub fn http_version(&self) -> (r: &HTTPVersion)
        ensures
            *r == self@.http_version,
    {
        &self.http_version
    }

    /// Returns the length of the body in bytes.
    ///
    /// Returns `None` if the length is unknown.
    pub fn body_length(&self) -> (r: Option<usize>)
        ensures
            r == self@.body_length,
    {
        self.body_length
    }

    /// Returns the address of the client that sent this request.
    ///
    /// Note that this is gathered from the socket. If you receive the request from a proxy,
    /// this function will return the address of the proxy and not the address of the actual
    /// user.
    pub fn remote_addr(&self) -> (r: Option<&A>)
        ensures
            match r {
                Some(addr) => self@.remote_addr == Some(*addr),
                None => self@.remote_addr is None,
            },
    {
        self.remote_addr.as_ref()
    }

    /// The text that stands for the request in messages: its method, its path
    /// and the address of the client, as `remote_addr` writes it.
    pub fn description(&self, remote_addr: &str) -> (r: String)
        ensures
            r@ == self@.text(remote_addr@),
    {
        let mut text = String::new();
        text.append("Request(");
        text.append(self.method.as_str());
        text.append(" ");
        text.append(self.path.as_str());
        text.append(" from ");
        text.append(remote_addr);
        text.append(")");
        assert(text@ =~= self@.text(remote_addr@));
        text
    }

    /// Puts the reader of the body inside another one.
    pub fn map_reader<C, F: FnOnce(B) -> C>(self, wrap: F) -> (r: Request<C, W, A, N>)
        requires
            self@.data_reader matches Some(reader) ==> wrap.requires((reader,)),
        ensures
            match self@.data_reader {
                Some(reader) => r@.data_reader is Some && wrap.ensures(
                    (reader,),
                    r@.data_reader->0,
                ),
                None => r@.data_reader is None,
            },
            r@ == self@.with_reader(r@.data_reader),
            r@ == (RequestState {
                data_reader: r@.data_reader,
                response_writer: self@.response_writer,
                remote_addr: self@.remote_addr,
                secure: self@.secure,
                method: self@.method,
                path: self@.path,
                http_version: self@.http_version,
                headers: self@.headers,
                body_length: self@.body_length,
                must_send_continue: self@.must_send_continue,
                notify_when_responded: self@.notify_when_responded,
            }),
    {
        Request {
            data_reader: match self.data_reader {
                Some(reader) => Some(wrap(reader)),
                None => None,
            },
            response_writer: self.response_writer,
            remote_addr: self.remote_addr,
            secure: self.secure,
            method: self.method,
            path: self.path,
            http_version: self.http_version,
            headers: self.headers,
            body_length: self.body_length,
            must_send_continue: self.must_send_continue,
            notify_when_responded: self.notify_when_responded,
        }
    }

    /// Allows to read the body of the request.
    ///
    /// If the client sent a `Expect: 100-continue` header with the request, calling this
    /// function for the first time says which `100 Continue` response has to be printed to
    /// the writer, which is then to be flushed, before the reader is read from.
    pub fn as_reader(&mut self) -> (r: (Option<Interim<'_>>, &mut B, &mut W))
        requires
            old(self)@.is_open(),
        ensures
            old(self)@.continues_with(r.0),
            match r.0 {
                Some(interim) => {
                    &&& old(self)@.interim() == Some(interim.status)
                    &&& interim.http_version == old(self)@.http_version
                    &&& interim.headers@ == old(self)@.headers
                    &&& interim.do_not_send_body
                },
                None => old(self)@.interim() is None,
            },
            Some(*r.1) == old(self)@.data_reader,
            Some(*r.2) == old(self)@.response_writer,
            final(self)@ == old(self)@.after_as_reader(*final(r.1), *final(r.2)),
    {
        let interim = if self.must_send_continue {
            self.must_send_continue = false;
            Some(
                Interim {
                    status: StatusCode(100),
                    http_version: self.http_version,
                    headers: self.headers.as_slice(),
                    do_not_send_body: true,
                },
            )
        } else {
            None
        };
        (interim, self.data_reader.as_mut().unwrap(), self.response_writer.as_mut().unwrap())
    }

    /// Asks for a response with a `Connection: upgrade` header, then gives up the reader and
    /// the writer of the connection.
    ///
    /// The main purpose of this function is to support websockets.
    /// If you detect that the request wants to use some kind of protocol upgrade, you can
    /// call this function to obtain full control of the socket stream. The response is to be
    /// printed to the writer, which is then to be flushed; errors of both do not count. Who
    /// waits for the answer, if anyone, is to be notified when the stream is given up.
    pub fn upgrade<'a>(self, protocol: &'a str) -> (r: (Printing<'a>, NotifyOnDrop<(B, W), N>))
        requires
            self@.is_open(),
        ensures
            self@.upgrades_with(protocol@, r.0, r.1),
            r.0.http_version == self@.http_version,
            r.0.headers@ == self@.headers,
            !r.0.do_not_send_body,
            r.0.upgrade matches Some(name) && name@ == protocol@,
            Some(r.1.inner().0) == self@.data_reader,
            Some(r.1.inner().1) == self@.response_writer,
            r.1.sender() == self@.notify_when_responded,
    {
        let mut request = self;
        let reader = request.extract_reader_impl();
        let writer = request.extract_writer_impl();
        let printing = Printing {
            http_version: request.http_version,
            headers: request.headers,
            do_not_send_body: false,
            upgrade: Some(protocol),
        };
        let stream = NotifyOnDrop {
            sender: request.notify_when_responded,
            inner: (reader, writer),
        };
        (printing, stream)
    }

    /// Turns the `Request` into a writer.
    ///
    /// The writer has a raw access to the stream to the user.
    /// This function is useful for things like CGI.
    ///
    /// Who waits for the answer, if anyone, is to be notified when the writer is given up.
    pub fn into_writer(self) -> (r: NotifyOnDrop<W, N>)
        requires
            self@.response_writer is Some,
        ensures
            self@.turns_into(r),
            Some(r.inner()) == self@.response_writer,
            r.sender() == self@.notify_when_responded,
    {
        let mut request = self;
        let writer = request.extract_writer_impl();
        NotifyOnDrop { sender: request.notify_when_responded, inner: writer }
    }

    /// Extract the response writer from the request, which then counts as answered.
    ///
    /// This may only be called once on a single request.
    pub fn extract_writer_impl(&mut self) -> (r: W)
        requires
            old(self)@.response_writer is Some,
        ensures
            Some(r) == old(self)@.response_writer,
            final(self)@ == old(self)@.without_writer(),
    {
        let mut writer = None;
        std::mem::swap(&mut self.response_writer, &mut writer);
        writer.unwrap()
    }

    /// Extract the body reader from the request.
    ///
    /// This may only be called once on a single request.
    pub fn extract_reader_impl(&mut self) -> (r: B)
        requires
            old(self)@.data_reader is Some,
        ensures
            Some(r) == old(self)@.data_reader,
            final(self)@ == old(self)@.without_reader(),
    {
        let mut reader = None;
        std::mem::swap(&mut self.data_reader, &mut reader);
        reader.unwrap()
    }

    /// Starts to send a response to this request.
    pub fn respond(self) -> (r: Answer<W, N>)
        requires
            self@.response_writer is Some,
        ensures
            self@.answers_with(r),
            r.printing.do_not_send_body <==> self@.method is Head,
            self@.response_writer == Some(r.writer),
            r.notify == self@.notify_when_responded,
    {
        let mut request = self;
        let writer = request.extract_writer_impl();
        let do_not_send_body: bool = matches!(request.method, Method::Head);
        Answer {
            writer,
            printing: Printing {
                http_version: request.http_version,
                headers: request.headers,
                do_not_send_body,
                upgrade: None,
            },
            notify: request.notify_when_responded,
        }
    }

    /// Gives up the request. If it was not answered, an empty response with this status is to
    /// be sent, whose errors do not count.
    pub fn abandon(self) -> (r: Option<(StatusCode, Answer<W, N>)>)
        ensures
            self@.abandons_with(r),
            r is Some <==> self@.is_unanswered(),
            r is Some <==> self@.response_writer is Some,
            r matches Some((status, answer)) ==> status == StatusCode(500) && self@.answers_with(
                answer,
            ),
    {
        if self.response_writer.is_some() {
            Some((StatusCode(500), self.respond()))
        } else {
            None
        }
    }

    /// The request, with `sender` to be notified when it was answered.
    pub fn with_notify_sender(self, sender: N) -> (r: Request<B, W, A, N>)
        ensures
            r@ == self@.with_sender(sender),
    {
        let mut request = self;
        request.notify_when_responded = Some(sender);
        request
    }
}

/// What comes of a body of `content_length` bytes when the source brings it in
/// these pieces, one read after the other.
pub open spec fn fed(received: Seq<u8>, content_length: nat, pieces: Seq<Seq<u8>>) -> Progress
    decreases pieces.len(),
{
    if pieces.len() == 0 {
        Progress::More(received)
    } else {
        match progress(received, content_length, pieces.first()) {
            Progress::More(more) => fed(more, content_length, pieces.drop_first()),
            done => done,
        }
    }
}

/// Each piece holds something.
pub open spec fn none_empty(pieces: Seq<Seq<u8>>) -> bool {
    forall|i: int| 0 <= i < pieces.len() ==> (#[trigger] pieces[i]).len() > 0
}

/// No piece holds more bytes than are still to come.
pub open spec fn as_asked_for(received: nat, content_length: nat, pieces: Seq<Seq<u8>>) -> bool
    decreases pieces.len(),
{
    pieces.len() == 0 || {
        &&& received + pieces.first().len() <= content_length
        &&& as_asked_for(received + pieces.first().len(), content_length, pieces.drop_first())
    }
}

/// A body that is read into memory takes no byte from the source behind its
/// announced length: as long as the reads are as asked for, it is either short
/// of that length or exactly so long.
pub proof fn law_reads_no_further(received: Seq<u8>, content_length: nat, pieces: Seq<Seq<u8>>)
    requires
        received.len() < content_length,
        as_asked_for(received.len(), content_length, pieces),
    ensures
        match fed(received, content_length, pieces) {
            Progress::More(more) => more.len() < content_length,
            Progress::Complete(body) => body.len() == content_length,
            Progress::Closed => true,
        },
    decreases pieces.len(),
{
    if pieces.len() > 0 {
        let more = received + pieces.first();
        if more.len() < content_length {
            law_reads_no_further(more, content_length, pieces.drop_first());
        }
    }
}

/// However the source splits a body of the announced length, the body is what
/// the pieces hold, in their order.
pub proof fn law_splitting_does_not_matter(
    received: Seq<u8>,
    content_length: nat,
    pieces: Seq<Seq<u8>>,
)
    requires
        received.len() < content_length,
        none_empty(pieces),
        received.len() + pieces.flatten().len() == content_length,
    ensures
        fed(received, content_length, pieces) == Progress::Complete(received + pieces.flatten()),
    decreases pieces.len(),
{
    if pieces.len() > 0 {
        let first = pieces.first();
        let rest = pieces.drop_first();
        assert(pieces[0].len() > 0);
        assert(forall|i: int| 0 <= i < rest.len() ==> rest[i] == pieces[i + 1]);
        assert(received + pieces.flatten() =~= received + first + rest.flatten());
        if received.len() + first.len() == content_length {
            assert(received + first + rest.flatten() =~= received + first);
        } else {
            law_splitting_does_not_matter(received + first, content_length, rest);
        }
    }
}

/// A source that ends before the announced length leaves no body.
pub proof fn law_early_end_leaves_no_body(
    received: Seq<u8>,
    content_length: nat,
    pieces: Seq<Seq<u8>>,
)
    requires
        none_empty(pieces),
        received.len() + pieces.flatten().len() < content_length,
    ensures
        fed(received, content_length, pieces.push(Seq::empty())) == Progress::Closed,
    decreases pieces.len(),
{
    reveal_with_fuel(fed, 2);
    let all = pieces.push(Seq::empty());
    if pieces.len() > 0 {
        let first = pieces.first();
        let rest = pieces.drop_first();
        assert(pieces[0].len() > 0);
        assert(forall|i: int| 0 <= i < rest.len() ==> rest[i] == pieces[i + 1]);
        assert(all.drop_first() =~= rest.push(Seq::empty()));
        law_early_end_leaves_no_body(received + first, content_length, rest);
    } else {
        assert(all.first() =~= Seq::empty());
    }
}

/// A `100 Continue` is sent when the body of a request is first asked for, if
/// the client sent `Expect: 100-continue`, and never again.
pub proof fn law_continue_is_sent_once<B, W, A, N>(
    secure: bool,
    method: Method,
    path: Seq<char>,
    version: HTTPVersion,
    headers: Seq<Header>,
    remote_addr: Option<A>,
    writer: W,
    body: B,
    reader: B,
    written: W,
)
    requires
        framing::framing_of(headers) is Ok,
    ensures
        ({
            let request = built::<B, W, A, N>(
                secure,
                method,
                path,
                version,
                headers,
                remote_addr,
                writer,
                framing::framing_of(headers)->Ok_0,
                Some(body),
            );
            let later = request.after_as_reader(reader, written);
            &&& request.interim() == if crate::common::first_value(headers, "Expect"@) is Some {
                Some(StatusCode(100))
            } else {
                None
            }
            &&& later.interim() is None
            &&& later.is_open()
        }),
{
}

/// Whatever comes of printing and flushing an answer, who waits for it is
/// notified once, at the end; and the result is the first error of the two that
/// is not that of a client that closes the connection.
pub proof fn law_answer_is_always_notified<N, E>(
    notify: Option<N>,
    printed: Result<(), IoError<E>>,
    flushed: Result<(), IoError<E>>,
)
    ensures
        ({
            let first = print_action(notify, printed);
            let last = if first is Flush {
                flush_action(notify, flushed)
            } else {
                first
            };
            last == (AnswerAction::Finish {
                notify,
                result: if io_error::forgiven(printed) is Err {
                    printed
                } else {
                    io_error::forgiven(flushed)
                },
            })
        }),
{
}

/// Who is notified in a run of events of a stream, one after the other.
pub open spec fn notifications<N>(sender: Option<N>, events: Seq<StreamEvent>) -> Seq<N>
    decreases events.len(),
{
    if events.len() == 0 {
        Seq::empty()
    } else {
        let later = notifications(
            still_to_notify(sender, events.first()),
            events.drop_first(),
        );
        match notified(sender, events.first()) {
            Some(n) => seq![n] + later,
            None => later,
        }
    }
}

/// The stream is given up in this run of events.
pub open spec fn is_given_up(events: Seq<StreamEvent>) -> bool {
    exists|i: int| 0 <= i < events.len() && #[trigger] events[i] == StreamEvent::GiveUp
}

/// As long as a stream out of a request is only used, nobody is notified. When
/// it is given up, who waits for the answer is notified once, and nobody is
/// where nobody waits.
pub proof fn law_notified_once_when_given_up<N>(sender: Option<N>, events: Seq<StreamEvent>)
    ensures
        !is_given_up(events) ==> notifications(sender, events) == Seq::<N>::empty(),
        is_given_up(events) ==> notifications(sender, events) == match sender {
            Some(n) => seq![n],
            None => Seq::<N>::empty(),
        },
        sender is None ==> notifications(sender, events) == Seq::<N>::empty(),
    decreases events.len(),
{
    if events.len() > 0 {
        let rest = events.drop_first();
        assert(events.first() == events[0]);
        law_notified_once_when_given_up(still_to_notify(sender, events.first()), rest);
        if is_given_up(rest) {
            let i = choose|i: int| 0 <= i < rest.len() && rest[i] == StreamEvent::GiveUp;
            assert(events[i + 1] == StreamEvent::GiveUp);
        } else if events.first() != StreamEvent::GiveUp && is_given_up(events) {
            let i = choose|i: int| 0 <= i < events.len() && events[i] == StreamEvent::GiveUp;
            assert(rest[i - 1] == StreamEvent::GiveUp);
        }
        if let Some(n) = notified(sender, events.first()) {
            assert(seq![n] + Seq::<N>::empty() =~= seq![n]);
        }
    }
}

/// A sender attached to a request is what the stream or the writer that is made
/// of the request notifies: not while it lives, once when it is given up.
pub proof fn law_attached_sender_is_notified<B, W, A, N>(
    request: RequestState<B, W, A, N>,
    sender: N,
    uses: Seq<StreamEvent>,
)
    requires
        !is_given_up(uses),
    ensures
        ({
            let waiting = request.with_sender(sender).notify_when_responded;
            &&& notifications(waiting, uses) == Seq::<N>::empty()
            &&& notifications(waiting, uses.push(StreamEvent::GiveUp)) == seq![sender]
        }),
{
    let waiting = request.with_sender(sender).notify_when_responded;
    law_notified_once_when_given_up(waiting, uses);
    law_notified_once_when_given_up(waiting, uses.push(StreamEvent::GiveUp));
    assert(uses.push(StreamEvent::GiveUp)[uses.len() as int] == StreamEvent::GiveUp);
}

/// A request whose writer was taken out counts as answered, so that nothing is
/// sent when it is given up; all else of it is as before.
pub proof fn law_taken_writer_is_not_written_to<B, W, A, N>(request: RequestState<B, W, A, N>)
    ensures
        !request.without_writer().is_unanswered(),
        request.without_writer().data_reader == request.data_reader,
        request.without_writer() == (RequestState { response_writer: None, ..request }),
{
}

/// What comes before an end of the body is within its announced length.
proof fn lemma_asked_for_is_bounded(received: nat, content_length: nat, pieces: Seq<Seq<u8>>)
    requires
        received <= content_length,
        as_asked_for(received, content_length, pieces),
    ensures
        received + pieces.flatten().len() <= content_length,
    decreases pieces.len(),
{
    if pieces.len() > 0 {
        lemma_asked_for_is_bounded(
            received + pieces.first().len(),
            content_length,
            pieces.drop_first(),
        );
        assert(pieces.flatten() =~= pieces.first() + pieces.drop_first().flatten());
    }
}

/// A complete body is all that came.
proof fn lemma_complete_body_is_all(
    received: Seq<u8>,
    content_length: nat,
    pieces: Seq<Seq<u8>>,
    body: Seq<u8>,
)
    requires
        received.len() < content_length,
        as_asked_for(received.len(), content_length, pieces),
        fed(received, content_length, pieces) == Progress::Complete(body),
    ensures
        body == received + pieces.flatten(),
    decreases pieces.len(),
{
    let more = received + pieces.first();
    let rest = pieces.drop_first();
    assert(pieces.flatten() =~= pieces.first() + rest.flatten());
    if more.len() == content_length {
        lemma_asked_for_is_bounded(more.len(), content_length, rest);
        assert(received + pieces.flatten() =~= more);
    } else {
        lemma_complete_body_is_all(more, content_length, rest, body);
        assert(received + pieces.flatten() =~= more + rest.flatten());
    }
}

/// `body` is what can be read of the body of a request whose source holds
/// `content`: nothing; what was read into memory, in `pieces`; or what reads
/// with buffers of `bufs` bytes through the limited reader return up to where
/// one of them returns nothing, in `answers`.
pub open spec fn reads_body(
    framing: Framing,
    content: Seq<u8>,
    pieces: Seq<Seq<u8>>,
    bufs: Seq<nat>,
    answers: Seq<Result<Seq<u8>, ()>>,
    body: Seq<u8>,
) -> bool {
    match framing.spec_plan() {
        BodyPlan::Empty => body == Seq::<u8>::empty(),
        BodyPlan::Buffer(length) => {
            &&& as_asked_for(0, length as nat, pieces)
            &&& pieces.flatten().is_prefix_of(content)
            &&& fed(Seq::empty(), length as nat, pieces) == Progress::Complete(body)
        },
        BodyPlan::Limit(length) => {
            &&& equal_reader::bytes_run(length as nat, content, bufs, answers)
            &&& exists|k: int|
                0 <= k < answers.len() && bufs[k] > 0 && #[trigger] answers[k] == Ok::<
                    Seq<u8>,
                    (),
                >(Seq::empty())
            &&& body == equal_reader::joined(answers)
        },
        _ => false,
    }
}

/// The body of a request with an announced length is made of the first bytes
/// that its source holds, as many as announced, or of all of them, where there
/// are fewer; and no byte behind them is taken from the source.
pub proof fn law_body_is_what_was_announced(
    framing: Framing,
    length: usize,
    content: Seq<u8>,
    pieces: Seq<Seq<u8>>,
    bufs: Seq<nat>,
    answers: Seq<Result<Seq<u8>, ()>>,
    body: Seq<u8>,
)
    requires
        framing.content_length == Some(length),
        !framing.connection_upgrade,
        reads_body(framing, content, pieces, bufs, answers, body),
    ensures
        body == content.take(equal_reader::min(length as nat, content.len()) as int),
        framing.spec_plan() is Buffer ==> pieces.flatten().len() == length,
        framing.spec_plan() is Limit ==> equal_reader::total(equal_reader::lengths(answers))
            == body.len(),
{
    match framing.spec_plan() {
        BodyPlan::Buffer(n) => {
            lemma_complete_body_is_all(Seq::empty(), n as nat, pieces, body);
            law_reads_no_further(Seq::empty(), n as nat, pieces);
            assert(Seq::<u8>::empty() + pieces.flatten() =~= pieces.flatten());
            assert(body =~= content.take(n as int));
        },
        BodyPlan::Limit(n) => {
            let k = choose|k: int|
                0 <= k < answers.len() && bufs[k] > 0 && #[trigger] answers[k] == Ok::<
                    Seq<u8>,
                    (),
                >(Seq::empty());
            equal_reader::law_read_to_end_gives_the_body(n as nat, content, bufs, answers, k);
            equal_reader::law_bytes_are_those_of_the_reader(n as nat, content, bufs, answers);
        },
        _ => {
            assert(body =~= content.take(0));
        },
    }
}

/// A request that was just built holds what it was built from: nothing of it is
/// changed or left out. Its length and whether its client waits are what its
/// headers say, it is unanswered, and nobody is to be notified yet.
pub proof fn law_request_holds_what_came_in<B, W, A, N>(
    secure: bool,
    method: Method,
    path: Seq<char>,
    version: HTTPVersion,
    headers: Seq<Header>,
    remote_addr: Option<A>,
    writer: W,
    framing: Framing,
    body: Option<B>,
)
    ensures
        ({
            let request = built::<B, W, A, N>(
                secure,
                method,
                path,
                version,
                headers,
                remote_addr,
                writer,
                framing,
                body,
            );
            &&& request.secure == secure
            &&& request.method == method
            &&& request.path == path
            &&& request.http_version == version
            &&& request.headers == headers
            &&& request.remote_addr == remote_addr
            &&& request.response_writer == Some(writer)
            &&& request.data_reader == body
            &&& request.body_length == framing.content_length
            &&& request.must_send_continue == framing.expects_continue
            &&& request.notify_when_responded is None
            &&& request.is_unanswered()
            &&& request.is_open() <==> body is Some
        }),
{
}

/// The body of a request by what its headers say: the source itself, for a
/// connection that is to be upgraded; otherwise exactly the announced length of
/// the source, or nothing for the length 0, where a length is announced; the
/// chunks of the source, where those are; and nothing in all other cases. Only a
/// length of 1 to 1024 bytes that the client does not hold back is not yet a
/// body: those bytes are to be read first.
pub proof fn law_body_by_headers<R>(framing: Framing, source: R)
    ensures
        ({
            let body = planned_body(framing.spec_plan(), source);
            &&& framing.connection_upgrade ==> body == Some(BodyState::Whole(source))
            &&& !framing.connection_upgrade ==> match framing.content_length {
                Some(length) => if length == 0 {
                    body == Some(BodyState::<R>::Empty)
                } else if length <= 1024 && !framing.expects_continue {
                    body is None && framing.spec_plan() == BodyPlan::Buffer(length)
                } else {
                    body == Some(BodyState::Limited(source, length as nat))
                },
                None => body == if framing.chunked {
                    Some(BodyState::Chunked(source))
                } else {
                    Some(BodyState::<R>::Empty)
                },
            }
        }),
{
    if framing.content_length is Some {
        framing::law_body_ends_where_announced(framing, framing.content_length->0);
    }
}

/// What is in a body is what it was made of.
pub proof fn law_body_holds_what_it_is_made_of<R>(source: R, bytes: Vec<u8>, limited: EqualReader<R>)
    ensures
        Body::Whole(source)@ == BodyState::Whole(source),
        Body::<R>::Empty@ == BodyState::<R>::Empty,
        Body::<R>::Buffered(bytes)@ == BodyState::<R>::Buffered(bytes@),
        Body::Limited(limited)@ == BodyState::Limited(limited.reader(), limited.size() as nat),
        Body::Chunked(source)@ == BodyState::Chunked(source),
{
}

/// The next bytes of a body come behind those that are there, and are all kept.
/// The body is complete exactly when it has the announced length; and it is
/// given up exactly when nothing comes.
pub proof fn law_bytes_come_behind_each_other(
    received: Seq<u8>,
    content_length: nat,
    bytes: Seq<u8>,
)
    ensures
        progress(received, content_length, bytes) is Closed <==> bytes.len() == 0,
        bytes.len() > 0 ==> (progress(received, content_length, bytes) == Progress::Complete(
            received + bytes,
        ) <==> (received + bytes).len() == content_length),
        bytes.len() > 0 && (received + bytes).len() != content_length ==> progress(
            received,
            content_length,
            bytes,
        ) == Progress::More(received + bytes),
{
}

/// Asking for the body of a request says to send a response first exactly where
/// the client waits for it, and that is a `100` one. Nothing else of the request
/// changes by it but what is read and written, and that the client does not wait
/// any more.
pub proof fn law_asking_for_the_body<B, W, A, N>(
    request: RequestState<B, W, A, N>,
    reader: B,
    writer: W,
)
    ensures
        request.interim() is Some <==> request.must_send_continue,
        request.interim() matches Some(status) ==> status.0 == 100,
        ({
            let later = request.after_as_reader(reader, writer);
            &&& !later.must_send_continue
            &&& later.interim() is None
            &&& later.data_reader == Some(reader)
            &&& later.response_writer == Some(writer)
            &&& later.remote_addr == request.remote_addr
            &&& later.secure == request.secure
            &&& later.method == request.method
            &&& later.path == request.path
            &&& later.http_version == request.http_version
            &&& later.headers == request.headers
            &&& later.body_length == request.body_length
            &&& later.notify_when_responded == request.notify_when_responded
        }),
{
}

/// The answer to a request goes to the writer of the request and is printed by
/// its version and headers, without another protocol. It omits the body of the
/// response exactly when the method is `HEAD`: for every other method, standard
/// or not, the body is sent. Who waits for the request is who is notified.
pub proof fn law_only_head_is_answered_without_a_body<B, W, A, N>(
    request: RequestState<B, W, A, N>,
    answer: Answer<W, N>,
)
    requires
        request.answers_with(answer),
    ensures
        answer.printing.do_not_send_body <==> request.method == Method::Head,
        request.method is Get || request.method is Post || request.method is Put
            || request.method is Delete || request.method is Connect || request.method is Options
            || request.method is Trace || request.method is Patch
            || request.method is NonStandard ==> !answer.printing.do_not_send_body,
        request.response_writer == Some(answer.writer),
        answer.printing.http_version == request.http_version,
        answer.printing.headers@ == request.headers,
        answer.printing.upgrade is None,
        answer.notify == request.notify_when_responded,
{
}

/// A request is to be answered when it is given up exactly where its writer is
/// still in it, whatever else it holds; so every request just built is, whether
/// it announces a length or not, also after its body was asked for or read, or
/// someone was attached to be notified. Once the writer was taken out, it is not.
pub proof fn law_unanswered_as_long_as_the_writer_is_there<B, W, A, N>(
    request: RequestState<B, W, A, N>,
    reader: B,
    writer: W,
    sender: N,
)
    ensures
        request.is_unanswered() <==> request.response_writer is Some,
        request.after_as_reader(reader, writer).is_unanswered(),
        request.with_sender(sender).is_unanswered() <==> request.response_writer is Some,
        request.without_reader().is_unanswered() <==> request.response_writer is Some,
        !request.without_writer().is_unanswered(),
        request.is_open() <==> request.data_reader is Some && request.response_writer is Some,
{
}

/// Attaching someone to be notified, or taking the reader or the writer out,
/// changes nothing else of a request.
pub proof fn law_the_rest_of_a_request_stays<B, W, A, N>(
    request: RequestState<B, W, A, N>,
    sender: N,
)
    ensures
        request.with_sender(sender).notify_when_responded == Some(sender),
        request.with_sender(sender) == (RequestState {
            notify_when_responded: Some(sender),
            ..request
        }),
        request.without_reader() == (RequestState { data_reader: None, ..request }),
        request.without_writer() == (RequestState { response_writer: None, ..request }),
{
}

/// The text that stands for a request is its method and its path, with a space
/// between them, and the address behind the word "from", all in the brackets of
/// "Request()".
pub proof fn law_text_of_a_request<B, W, A, N>(
    request: RequestState<B, W, A, N>,
    remote_addr: Seq<char>,
)
    ensures
        request.text(remote_addr) == seq!['R', 'e', 'q', 'u', 'e', 's', 't', '(']
            + request.method.name() + seq![' '] + request.path + seq![' ', 'f', 'r', 'o', 'm', ' ']
            + remote_addr + seq![')'],
{
    reveal_strlit("Request(");
    reveal_strlit(" ");
    reveal_strlit(" from ");
    reveal_strlit(")");
    assert("Request("@ =~= seq!['R', 'e', 'q', 'u', 'e', 's', 't', '(']);
    assert(" "@ =~= seq![' ']);
    assert(" from "@ =~= seq![' ', 'f', 'r', 'o', 'm', ' ']);
    assert(")"@ =~= seq![')']);
}

/// After printing, an answer goes on to be flushed exactly where printing met no
/// error, or one of a client that closes the connection; otherwise it ends there,
/// with that error. After flushing it ends in any case.
pub proof fn law_steps_of_an_answer<N, E>(
    notify: Option<N>,
    kind: ErrorKind,
    error: E,
)
    ensures
        print_action::<N, E>(notify, Ok(())) is Flush,
        print_action::<N, E>(notify, Err(IoError::Reported { kind, error })) is Flush <==> kind
            == ErrorKind::BrokenPipe || kind == ErrorKind::ConnectionAborted || kind
            == ErrorKind::ConnectionRefused || kind == ErrorKind::ConnectionReset,
        kind == ErrorKind::Other ==> {
            let failed = AnswerAction::Finish {
                notify,
                result: Err(IoError::Reported { kind, error }),
            };
            &&& print_action(notify, Err(IoError::Reported { kind, error })) == failed
            &&& flush_action(notify, Err(IoError::Reported { kind, error })) == failed
        },
        kind != ErrorKind::Other ==> flush_action(notify, Err(IoError::Reported { kind, error }))
            == (AnswerAction::<N, E>::Finish { notify, result: Ok(()) }),
        flush_action::<N, E>(notify, Ok(())) == (AnswerAction::<N, E>::Finish {
            notify,
            result: Ok(()),
        }),
{
}

/// Each reason for which headers are refused has its own error, and no error of
/// the connection comes of them.
pub proof fn law_errors_of_refused_headers<E>(refusal: Refusal)
    ensures
        refused_with::<E>(refusal) is ExpectationFailed <==> refusal is ExpectationFailed,
        refused_with::<E>(refusal) is InvalidTransferEncoding <==> refusal
            is InvalidTransferEncoding,
        !(refused_with::<E>(refusal) is CreationIoError),
{
}

/// Reading a body ends exactly where the source fails or brings nothing. The
/// error of the source is handed on as it is. An early end is that of an aborted
/// connection, and says so.
pub proof fn law_errors_of_reading<E>(
    event: Result<Vec<u8>, IoError<E>>,
    err: RequestCreationError<E>,
)
    requires
        reading_fails_with(event, err),
    ensures
        err is CreationIoError,
        event matches Err(reported) ==> err->CreationIoError_0 == reported && ends_reading(event),
        event is Ok ==> err->CreationIoError_0 is Raised && err->CreationIoError_0.spec_kind()
            == ErrorKind::ConnectionAborted,
        event is Ok ==> err->CreationIoError_0->info@
            == "Connection has been closed before we received enough data"@,
        event matches Ok(bytes) ==> (ends_reading(event) <==> bytes@ == Seq::<u8>::empty()),
{
    if let Ok(bytes) = event {
        if bytes@.len() == 0 {
            assert(bytes@ =~= Seq::<u8>::empty());
        }
    }
}

/// What is printed before a body is read has the status 100, no body, and goes
/// by the version and the headers of the request; and it is printed exactly
/// where the client waits for it.
pub proof fn law_what_continue_prints<B, W, A, N>(
    request: RequestState<B, W, A, N>,
    interim: Option<Interim<'_>>,
)
    requires
        request.continues_with(interim),
    ensures
        interim is Some <==> request.must_send_continue,
        interim matches Some(printed) ==> {
            &&& printed.status.0 == 100
            &&& printed.do_not_send_body
            &&& printed.http_version == request.http_version
            &&& printed.headers@ == request.headers
        },
{
}

/// The response to an upgrade is printed with its body, whatever the method, by
/// the version and the headers of the request and with the name of the protocol;
/// and the stream is the reader and the writer of the request, with whoever
/// waits for the request to be notified.
pub proof fn law_what_an_upgrade_gives<B, W, A, N>(
    request: RequestState<B, W, A, N>,
    protocol: Seq<char>,
    printing: Printing<'_>,
    stream: NotifyOnDrop<(B, W), N>,
)
    requires
        request.upgrades_with(protocol, printing, stream),
    ensures
        !printing.do_not_send_body,
        printing.upgrade is Some && printing.upgrade->0@ == protocol,
        printing.http_version == request.http_version,
        printing.headers@ == request.headers,
        request.is_open(),
        stream.inner() == (request.data_reader->0, request.response_writer->0),
        stream.sender() == request.notify_when_responded,
{
}

/// The writer that a request is turned into is the writer of the request, with
/// whoever waits for the request to be notified.
pub proof fn law_what_a_writer_is<B, W, A, N>(
    request: RequestState<B, W, A, N>,
    writer: NotifyOnDrop<W, N>,
)
    requires
        request.turns_into(writer),
    ensures
        request.response_writer is Some && writer.inner() == request.response_writer->0,
        writer.sender() == request.notify_when_responded,
{
}

/// Giving up a request sends something exactly where its writer is still in it,
/// whatever the rest of it: a response with the status 500, to that writer,
/// whose body is omitted exactly for a `HEAD` request. Who waits for the request
/// is notified then.
pub proof fn law_what_giving_up_sends<B, W, A, N>(
    request: RequestState<B, W, A, N>,
    sent: Option<(StatusCode, Answer<W, N>)>,
)
    requires
        request.abandons_with(sent),
    ensures
        sent is Some <==> request.response_writer is Some,
        sent matches Some((status, answer)) ==> {
            &&& status.0 == 500
            &&& request.response_writer == Some(answer.writer)
            &&& answer.printing.do_not_send_body <==> request.method == Method::Head
            &&& answer.printing.http_version == request.http_version
            &&& answer.printing.headers@ == request.headers
            &&& answer.notify == request.notify_when_responded
        },
{
}

/// Putting the reader of a request inside another one changes nothing but the
/// reader; doing so twice is like doing so with the last one.
pub proof fn law_only_the_reader_is_replaced<B, W, A, N, C, D>(
    request: RequestState<B, W, A, N>,
    reader: Option<C>,
    last: Option<D>,
)
    ensures
        request.with_reader(reader).data_reader == reader,
        request.with_reader(reader).with_reader(last) == request.with_reader(last),
        request.with_reader(request.data_reader) == request,
        request.with_reader(reader).with_reader(request.data_reader) == request,
{
}

/// What a request that waits for its body asks for is all that is missing of it,
/// and never nothing: with so many bytes the body is complete, with fewer of them
/// it is not.
pub proof fn law_all_that_is_missing_is_asked_for<R, W, A, N>(
    pending: PendingState<R, W, A, N>,
    bytes: Seq<u8>,
)
    requires
        pending.wf(),
        0 < bytes.len() <= pending.wanted(),
    ensures
        pending.received.len() + pending.wanted() == pending.content_length,
        pending.wanted() > 0,
        progress(pending.received, pending.content_length, bytes) is Complete <==> bytes.len()
            == pending.wanted(),
        progress(pending.received, pending.content_length, bytes) is More <==> bytes.len()
            < pending.wanted(),
{
}

} // verus!
