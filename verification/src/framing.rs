//! How the headers of a request say where its body ends.
use crate::ascii;
use crate::common;
use crate::common::Header;
use vstd::prelude::*;

verus! {

/// The longest body, in bytes, that is read into memory before a request is
/// handed out.
pub const MAX_BUFFERED: usize = 1024;

/// What the headers of an accepted request say about its body and connection.
#[derive(Debug, Clone, Copy)]
pub struct Framing {
    /// The length of the body, where the headers give one.
    pub content_length: Option<usize>,
    /// The body comes in chunks.
    pub chunked: bool,
    /// The client waits for a `100 Continue` before it sends the body.
    pub expects_continue: bool,
    /// The client asks for another protocol on this connection.
    pub connection_upgrade: bool,
}

/// Why a request is refused for its headers.
#[derive(Debug, Clone, Copy, PartialEq, Eq, Structural)]
pub enum Refusal {
    /// An `Expect` header, be it the first or a later one, asks for something
    /// unknown.
    ExpectationFailed,
    /// A `Transfer-Encoding` header, be it the first or a later one, asks for
    /// anything but `chunked`, or comes together with a `Content-Length` header.
    InvalidTransferEncoding,
}

/// Where the body of a request is read from.
#[derive(Debug, Clone, Copy)]
pub enum BodyPlan {
    /// All that the connection brings.
    Whole,
    /// There is no body.
    Empty,
    /// So many bytes, to be read into memory at once.
    Buffer(usize),
    /// So many bytes, to be read from the connection when asked for.
    Limit(usize),
    /// Chunks, to be decoded when asked for.
    Chunked,
}

/// The value of a `Transfer-Encoding` header names the coding `chunked`, and
/// no other in a list: white space around it does not matter, nor does case.
pub open spec fn names_chunked_only(value: Seq<u8>) -> bool {
    !value.contains(44) && ascii::same_text(ascii::trimmed(value), ascii::bytes("chunked"@))
}

/// A header asks for a transfer coding that cannot be applied, or there are
/// headers both for a transfer coding and for a length.
pub open spec fn has_invalid_encoding(headers: Seq<Header>) -> bool {
    ||| exists|i: int|
        0 <= i < headers.len() && (#[trigger] headers[i]).spec_field().is_named(
            "Transfer-Encoding"@,
        ) && !names_chunked_only(headers[i].spec_value())
    ||| common::first_value(headers, "Transfer-Encoding"@) is Some && common::first_value(
        headers,
        "Content-Length"@,
    ) is Some
}

/// The value of an `Expect` header is `100-continue`.
pub open spec fn expects_to_continue(value: Seq<u8>) -> bool {
    ascii::same_text(value, ascii::bytes("100-continue"@))
}

/// A header expects something other than `100-continue`.
pub open spec fn has_unknown_expectation(headers: Seq<Header>) -> bool {
    exists|i: int|
        0 <= i < headers.len() && (#[trigger] headers[i]).spec_field().is_named("Expect"@)
            && !expects_to_continue(headers[i].spec_value())
}

/// What the headers of a request say, or why they are refused.
pub open spec fn framing_of(headers: Seq<Header>) -> Result<Framing, Refusal> {
    if has_invalid_encoding(headers) {
        Err(Refusal::InvalidTransferEncoding)
    } else if has_unknown_expectation(headers) {
        Err(Refusal::ExpectationFailed)
    } else {
        Ok(
            Framing {
                content_length: match common::first_value(headers, "Content-Length"@) {
                    None => None,
                    Some(value) => ascii::parsed_usize(value),
                },
                chunked: common::first_value(headers, "Transfer-Encoding"@) is Some,
                expects_continue: common::first_value(headers, "Expect"@) is Some,
                connection_upgrade: match common::first_value(headers, "Connection"@) {
                    None => false,
                    Some(value) => ascii::contains_text(value, ascii::bytes("upgrade"@)),
                },
            },
        )
    }
}

impl Framing {
    /// Where the body is read from.
    pub open spec fn spec_plan(self) -> BodyPlan {
        if self.connection_upgrade {
            BodyPlan::Whole
        } else {
            match self.content_length {
                Some(length) => if length == 0 {
                    BodyPlan::Empty
                } else if length <= MAX_BUFFERED && !self.expects_continue {
                    BodyPlan::Buffer(length)
                } else {
                    BodyPlan::Limit(length)
                },
                None => if self.chunked {
                    BodyPlan::Chunked
                } else {
                    BodyPlan::Empty
                },
            }
        }
    }

    /// Where the body is read from.
    pub fn plan(&self) -> (r: BodyPlan)
        ensures
            r == self.spec_plan(),
    {
        if self.connection_upgrade {
            // with a `Connection: upgrade`, always keeping the whole reader
            BodyPlan::Whole
        } else if let Some(length) = self.content_length {
            if length == 0 {
                BodyPlan::Empty
            } else if length <= MAX_BUFFERED && !self.expects_continue {
                // if the content-length is small enough, everything is read into a buffer
                BodyPlan::Buffer(length)
            } else {
                BodyPlan::Limit(length)
            }
        } else if self.chunked {
            // if a transfer-encoding was specified, then "chunked" is ALWAYS applied
            // over the message (RFC2616 #3.6)
            BodyPlan::Chunked
        } else {
            // with neither a Content-Length nor a Transfer-Encoding,
            // assuming that there is no data
            BodyPlan::Empty
        }
    }
}

/// Whether the value of a `Transfer-Encoding` header names exactly the coding
/// `chunked`, the only one that can be decoded. An unknown coding, "identity",
/// or a list such as "chunked, identity" does not: someone in between who reads
/// such a header in another way would see the body end somewhere else.
pub fn is_chunked_only(value: &[u8]) -> (r: bool)
    ensures
        r == names_chunked_only(value@),
{
    proof {
        reveal_strlit("chunked");
    }
    !ascii::contains_byte(value, 44) && ascii::eq_ignore_ascii_case(
        ascii::trim(value),
        ascii::literal_bytes("chunked"),
    )
}

/// Whether every `Transfer-Encoding` header names exactly the coding `chunked`.
fn all_encodings_are_chunked(headers: &[Header]) -> (r: bool)
    ensures
        r == forall|i: int|
            0 <= i < headers@.len() && (#[trigger] headers@[i]).spec_field().is_named(
                "Transfer-Encoding"@,
            ) ==> names_chunked_only(headers@[i].spec_value()),
{
    let n: usize = headers.len();
    let mut i: usize = 0;
    while i < n
        invariant
            i <= n,
            n == headers@.len(),
            forall|j: int|
                0 <= j < i && (#[trigger] headers@[j]).spec_field().is_named(
                    "Transfer-Encoding"@,
                ) ==> names_chunked_only(headers@[j].spec_value()),
        decreases n - i,
    {
        let header = &headers[i];
        assert(headers@[i as int] == header);
        if header.field().equiv("Transfer-Encoding") && !is_chunked_only(header.value()) {
            return false;
        }
        i = i + 1;
    }
    true
}

/// Whether every `Expect` header asks for `100-continue`.
fn all_expectations_are_known(headers: &[Header]) -> (r: bool)
    ensures
        r == forall|i: int|
            0 <= i < headers@.len() && (#[trigger] headers@[i]).spec_field().is_named(
                "Expect"@,
            ) ==> expects_to_continue(headers@[i].spec_value()),
{
    proof {
        reveal_strlit("100-continue");
    }
    let expected = ascii::literal_bytes("100-continue");
    let n: usize = headers.len();
    let mut i: usize = 0;
    while i < n
        invariant
            i <= n,
            n == headers@.len(),
            expected@ == ascii::bytes("100-continue"@),
            forall|j: int|
                0 <= j < i && (#[trigger] headers@[j]).spec_field().is_named("Expect"@)
                    ==> expects_to_continue(headers@[j].spec_value()),
        decreases n - i,
    {
        let header = &headers[i];
        assert(headers@[i as int] == header);
        if header.field().equiv("Expect") && !ascii::eq_ignore_ascii_case(
            header.value(),
            expected,
        ) {
            return false;
        }
        i = i + 1;
    }
    true
}

/// Reads what the headers of a request say about its body and connection.
pub fn read_framing(headers: &[Header]) -> (r: Result<Framing, Refusal>)
    ensures
        r == framing_of(headers@),
{
    proof {
        reveal_strlit("upgrade");
    }
    if !all_encodings_are_chunked(headers) {
        return Err(Refusal::InvalidTransferEncoding);
    }
    let transfer_encoding = common::find_value(headers, "Transfer-Encoding");
    let length_header = common::find_value(headers, "Content-Length");
    let content_length: Option<usize> = if transfer_encoding.is_some() {
        // RFC 9112 #6.1: a message MUST NOT contain both Transfer-Encoding
        // and Content-Length; receiving both is an error rather than a reason
        // to prefer one header over the other
        if length_header.is_some() {
            return Err(Refusal::InvalidTransferEncoding);
        }
        None
    } else {
        match length_header {
            Some(value) => ascii::parse_usize(value),
            None => None,
        }
    };
    if !all_expectations_are_known(headers) {
        return Err(Refusal::ExpectationFailed);
    }
    // true if the client sent a `Expect: 100-continue` header
    let expects_continue: bool = common::find_value(headers, "Expect").is_some();
    // true if the client sent a `Connection: upgrade` header
    let connection_upgrade: bool = match common::find_value(headers, "Connection") {
        None => false,
        Some(value) => ascii::contains_ignore_ascii_case(value, ascii::literal_bytes("upgrade")),
    };
    Ok(
        Framing {
            content_length,
            chunked: transfer_encoding.is_some(),
            expects_continue,
            connection_upgrade,
        },
    )
}

/// A request with a transfer coding is accepted only where each of its
/// `Transfer-Encoding` headers names `chunked` alone and no header gives a
/// length; in every other case it is refused for its encoding.
pub proof fn law_only_chunked_is_accepted(headers: Seq<Header>, i: int)
    requires
        0 <= i < headers.len(),
        headers[i].spec_field().is_named("Transfer-Encoding"@),
    ensures
        framing_of(headers) matches Ok(framing) ==> {
            &&& names_chunked_only(headers[i].spec_value())
            &&& framing.chunked
            &&& framing.content_length is None
            &&& common::first_value(headers, "Content-Length"@) is None
        },
        !names_chunked_only(headers[i].spec_value()) || common::first_value(
            headers,
            "Content-Length"@,
        ) is Some ==> framing_of(headers) == Err::<Framing, Refusal>(
            Refusal::InvalidTransferEncoding,
        ),
{
    common::lemma_named_is_found(headers, "Transfer-Encoding"@, i);
}

/// A request with an expectation is accepted only where each of its `Expect`
/// headers asks for `100-continue`, and then the client waits for it.
pub proof fn law_only_continue_is_expected(headers: Seq<Header>, i: int)
    requires
        0 <= i < headers.len(),
        headers[i].spec_field().is_named("Expect"@),
    ensures
        framing_of(headers) matches Ok(framing) ==> expects_to_continue(headers[i].spec_value())
            && framing.expects_continue,
        !expects_to_continue(headers[i].spec_value()) && !has_invalid_encoding(headers)
            ==> framing_of(headers) == Err::<Framing, Refusal>(Refusal::ExpectationFailed),
{
    common::lemma_named_is_found(headers, "Expect"@, i);
}

/// White space around the value of a `Transfer-Encoding` header does not matter.
pub proof fn law_space_around_is_ignored(before: Seq<u8>, value: Seq<u8>, after: Seq<u8>)
    requires
        ascii::all_space(before),
        ascii::all_space(after),
    ensures
        names_chunked_only(before + value + after) == names_chunked_only(value),
{
    ascii::law_trim_ignores_padding(before, value, after);
    let padded = before + value + after;
    if value.contains(44) {
        let i = choose|i: int| 0 <= i < value.len() && value[i] == 44;
        assert(padded[before.len() + i] == 44);
    }
    if padded.contains(44) {
        let i = choose|i: int| 0 <= i < padded.len() && padded[i] == 44;
        assert(value[i - before.len()] == 44);
    }
}

/// Case does not matter in the value of a `Transfer-Encoding` header.
pub proof fn law_case_is_ignored(a: Seq<u8>, b: Seq<u8>)
    requires
        ascii::same_text(a, b),
    ensures
        names_chunked_only(a) == names_chunked_only(b),
{
    ascii::law_trim_keeps_same_text(a, b);
    assert(forall|i: int| 0 <= i < a.len() ==> (a[i] == 44 <==> b[i] == 44)) by {
        assert forall|i: int| 0 <= i < a.len() implies (a[i] == 44 <==> b[i] == 44) by {
            assert(ascii::lower(a[i]) == ascii::lower(b[i]));
        }
    }
    if a.contains(44) {
        let i = choose|i: int| 0 <= i < a.len() && a[i] == 44;
        assert(b[i] == 44);
    }
    if b.contains(44) {
        let i = choose|i: int| 0 <= i < b.len() && b[i] == 44;
        assert(a[i] == 44);
    }
}

/// An accepted request has one way to tell where its body ends: chunks and a
/// length never come together.
pub proof fn law_one_end_of_body(headers: Seq<Header>)
    ensures
        framing_of(headers) matches Ok(framing) ==> !(framing.chunked
            && framing.content_length is Some),
{
}

/// The length of a body that is read before the request is handed out is small,
/// and such a body is not one that the client holds back until it is told to
/// continue.
pub proof fn law_only_small_bodies_are_buffered(framing: Framing)
    ensures
        framing.spec_plan() matches BodyPlan::Buffer(length) ==> 0 < length <= MAX_BUFFERED
            && framing.content_length == Some(length) && !framing.expects_continue
            && !framing.connection_upgrade,
{
}

/// The bytes of the word "chunked".
pub open spec fn chunked_word() -> Seq<u8> {
    seq![99u8, 104u8, 117u8, 110u8, 107u8, 101u8, 100u8]
}

/// The bytes of the word "100-continue".
pub open spec fn continue_word() -> Seq<u8> {
    seq![49u8, 48u8, 48u8, 45u8, 99u8, 111u8, 110u8, 116u8, 105u8, 110u8, 117u8, 101u8]
}

/// The bytes of the word "upgrade".
pub open spec fn upgrade_word() -> Seq<u8> {
    seq![117u8, 112u8, 103u8, 114u8, 97u8, 100u8, 101u8]
}

/// Some header has this name.
pub open spec fn some_header(headers: Seq<Header>, name: Seq<char>) -> bool {
    exists|i: int| 0 <= i < headers.len() && (#[trigger] headers[i]).spec_field().is_named(name)
}

/// The word `chunked`, in any case and with any white space around it, is taken
/// for the coding.
pub proof fn law_chunked_between_spaces_is_taken(
    before: Seq<u8>,
    word: Seq<u8>,
    after: Seq<u8>,
)
    requires
        ascii::all_white(before),
        ascii::reads_as(word, chunked_word()),
        ascii::all_white(after),
    ensures
        names_chunked_only(before + word + after),
{
    reveal_strlit("chunked");
    assert(ascii::bytes("chunked"@) =~= chunked_word());
    ascii::law_same_text_by_bytes(word, chunked_word());
    assert forall|i: int| 0 <= i < word.len() implies #[trigger] word[i] != 44
        && !ascii::is_space(word[i]) by {
        assert(ascii::same_letter(word[i], chunked_word()[i]));
    }
    assert(word.first() == word[0] && word.last() == word[6]);
    assert(ascii::trimmed(word) == word);
    assert(ascii::all_space(before));
    assert(ascii::all_space(after));
    law_space_around_is_ignored(before, word, after);
}

/// Nothing but the word `chunked`, in any case and with any white space around
/// it, is taken for the coding.
pub proof fn law_nothing_else_is_taken_for_chunked(value: Seq<u8>)
    requires
        names_chunked_only(value),
    ensures
        exists|before: Seq<u8>, word: Seq<u8>, after: Seq<u8>|
            {
                &&& value == #[trigger] (before + word + after)
                &&& ascii::all_white(before)
                &&& ascii::reads_as(word, chunked_word())
                &&& ascii::all_white(after)
            },
{
    reveal_strlit("chunked");
    assert(ascii::bytes("chunked"@) =~= chunked_word());
    ascii::law_trim_takes_all_space_around(value);
    let word = ascii::trimmed(value);
    ascii::law_same_text_by_bytes(word, chunked_word());
    let (before, after) = choose|before: Seq<u8>, after: Seq<u8>|
        value == #[trigger] (before + word + after) && ascii::all_white(before)
            && ascii::all_white(after);
    assert(value == before + word + after);
}

/// An expectation is known exactly when it reads `100-continue`, in any case.
pub proof fn law_known_expectation(value: Seq<u8>)
    ensures
        expects_to_continue(value) <==> ascii::reads_as(value, continue_word()),
{
    reveal_strlit("100-continue");
    assert(ascii::bytes("100-continue"@) =~= continue_word());
    ascii::law_same_text_by_bytes(value, continue_word());
}

/// Headers are refused for their encoding exactly where one of them asks for
/// anything but `chunked`, or where there are both a header for a coding and one
/// for a length. They are refused for their expectation exactly where that is
/// not so and one of them expects anything but `100-continue`. All others are
/// accepted.
pub proof fn law_what_is_refused(headers: Seq<Header>)
    ensures
        ({
            let bad_encoding = {
                ||| exists|i: int|
                    0 <= i < headers.len() && (#[trigger] headers[i]).spec_field().is_named(
                        "Transfer-Encoding"@,
                    ) && !names_chunked_only(headers[i].spec_value())
                ||| some_header(headers, "Transfer-Encoding"@) && some_header(
                    headers,
                    "Content-Length"@,
                )
            };
            let bad_expectation = exists|i: int|
                0 <= i < headers.len() && (#[trigger] headers[i]).spec_field().is_named("Expect"@)
                    && !ascii::reads_as(headers[i].spec_value(), continue_word());
            &&& framing_of(headers) == Err::<Framing, Refusal>(Refusal::InvalidTransferEncoding)
                <==> bad_encoding
            &&& framing_of(headers) == Err::<Framing, Refusal>(Refusal::ExpectationFailed)
                <==> !bad_encoding && bad_expectation
            &&& framing_of(headers) is Ok <==> !bad_encoding && !bad_expectation
        }),
{
    common::law_first_value_by_position(headers, "Transfer-Encoding"@);
    common::law_first_value_by_position(headers, "Content-Length"@);
    assert forall|i: int| 0 <= i < headers.len() implies expects_to_continue(
        (#[trigger] headers[i]).spec_value(),
    ) == ascii::reads_as(headers[i].spec_value(), continue_word()) by {
        law_known_expectation(headers[i].spec_value());
    }
}

/// What accepted headers say: the body is chunked exactly where some header
/// names a coding; the client waits exactly where some header says so; the
/// length is the number in the first header for it; and the connection is to be
/// upgraded exactly where the word stands in the first header for that.
pub proof fn law_what_is_accepted(headers: Seq<Header>, framing: Framing)
    requires
        framing_of(headers) == Ok::<Framing, Refusal>(framing),
    ensures
        framing.chunked <==> some_header(headers, "Transfer-Encoding"@),
        framing.expects_continue <==> some_header(headers, "Expect"@),
        match common::first_value(headers, "Content-Length"@) {
            Some(value) => framing.content_length == ascii::parsed_usize(value),
            None => framing.content_length is None,
        },
        match common::first_value(headers, "Connection"@) {
            Some(value) => framing.connection_upgrade <==> ascii::contains_text(
                value,
                upgrade_word(),
            ),
            None => !framing.connection_upgrade,
        },
{
    reveal_strlit("upgrade");
    assert(ascii::bytes("upgrade"@) =~= upgrade_word());
    common::law_first_value_by_position(headers, "Transfer-Encoding"@);
    common::law_first_value_by_position(headers, "Expect"@);
}

/// The whole connection is the body of a request exactly where the connection
/// is to be upgraded. Otherwise an announced length is always kept to: there is
/// no body for the length 0, and one of exactly that length for any other. It is
/// read beforehand exactly where it is of at most 1024 bytes and the client does
/// not wait. Without a length the body is chunked exactly where the headers say
/// so, and there is none in all other cases.
pub proof fn law_body_ends_where_announced(framing: Framing, length: usize)
    ensures
        framing.spec_plan() is Whole <==> framing.connection_upgrade,
        framing.spec_plan() is Chunked <==> !framing.connection_upgrade && framing.chunked
            && framing.content_length is None,
        framing.spec_plan() is Empty <==> !framing.connection_upgrade && (framing.content_length
            == Some(0usize) || framing.content_length is None && !framing.chunked),
        framing.spec_plan() == BodyPlan::Buffer(length) <==> {
            &&& !framing.connection_upgrade
            &&& framing.content_length == Some(length)
            &&& 0 < length <= 1024
            &&& !framing.expects_continue
        },
        framing.spec_plan() == BodyPlan::Limit(length) <==> {
            &&& !framing.connection_upgrade
            &&& framing.content_length == Some(length)
            &&& length > 0
            &&& length > 1024 || framing.expects_continue
        },
{
}

} // verus!
