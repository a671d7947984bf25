//! The values that a request line and its headers are made of.
use crate::ascii;
use vstd::prelude::*;

verus! {

/// Status code of a response.
#[derive(Debug, Clone, Copy, PartialEq, Eq, Structural)]
pub struct StatusCode(pub u16);

/// HTTP version, major and minor.
#[derive(Debug, Clone, Copy, PartialEq, Eq, Structural)]
pub struct HTTPVersion(pub u8, pub u8);

impl From<(u8, u8)> for HTTPVersion {
    fn from(version: (u8, u8)) -> (r: HTTPVersion) {
        HTTPVersion(version.0, version.1)
    }
}

impl vstd::std_specs::convert::FromSpecImpl<(u8, u8)> for HTTPVersion {
    open spec fn obeys_from_spec() -> bool {
        true
    }

    open spec fn from_spec(version: (u8, u8)) -> HTTPVersion {
        HTTPVersion(version.0, version.1)
    }
}

/// Request method.
#[derive(Debug)]
pub enum Method {
    Get,
    Head,
    Post,
    Put,
    Delete,
    Connect,
    Options,
    Trace,
    Patch,
    /// Any other method, as the request line spells it.
    NonStandard(String),
}

impl Method {
    /// The method as the request line spells it.
    pub open spec fn name(&self) -> Seq<char> {
        match self {
            Method::Get => "GET"@,
            Method::Head => "HEAD"@,
            Method::Post => "POST"@,
            Method::Put => "PUT"@,
            Method::Delete => "DELETE"@,
            Method::Connect => "CONNECT"@,
            Method::Options => "OPTIONS"@,
            Method::Trace => "TRACE"@,
            Method::Patch => "PATCH"@,
            Method::NonStandard(name) => name@,
        }
    }

    /// The method as the request line spells it.
    pub fn as_str(&self) -> (r: &str)
        ensures
            r@ == self.name(),
    {
        match self {
            Method::Get => "GET",
            Method::Head => "HEAD",
            Method::Post => "POST",
            Method::Put => "PUT",
            Method::Delete => "DELETE",
            Method::Connect => "CONNECT",
            Method::Options => "OPTIONS",
            Method::Trace => "TRACE",
            Method::Patch => "PATCH",
            Method::NonStandard(name) => name.as_str(),
        }
    }
}

/// Each byte is an ASCII character.
pub open spec fn is_ascii(text: Seq<u8>) -> bool {
    forall|i: int| 0 <= i < text.len() ==> #[trigger] text[i] < 128
}

fn is_ascii_text(text: &[u8]) -> (r: bool)
    ensures
        r == is_ascii(text@),
{
    let n: usize = text.len();
    let mut i: usize = 0;
    while i < n
        invariant
            i <= n,
            n == text@.len(),
            forall|j: int| 0 <= j < i ==> #[trigger] text@[j] < 128,
        decreases n - i,
    {
        if text[i] >= 128 {
            return false;
        }
        i = i + 1;
    }
    true
}

/// Name of a header. Names are compared without regard to case.
#[derive(Debug)]
pub struct HeaderField {
    name: Vec<u8>,
}

impl HeaderField {
    /// The bytes of the name.
    pub closed spec fn name(&self) -> Seq<u8> {
        self.name@
    }

    /// This is the name `other`, in whatever case.
    pub open spec fn is_named(&self, other: Seq<char>) -> bool {
        vstd::utf8::is_ascii_chars(other) && ascii::same_text(self.name(), ascii::bytes(other))
    }

    /// Whether this is the name `other`, in whatever case.
    pub fn equiv(&self, other: &'static str) -> (r: bool)
        ensures
            r == self.is_named(other@),
    {
        if !other.is_ascii() {
            return false;
        }
        ascii::eq_ignore_ascii_case(self.name.as_slice(), ascii::literal_bytes(other))
    }
}

/// A header of a request: ASCII text on both sides of the colon.
#[derive(Debug)]
pub struct Header {
    field: HeaderField,
    value: Vec<u8>,
}

impl Header {
    /// The name of the header.
    pub closed spec fn spec_field(&self) -> HeaderField {
        self.field
    }

    /// The bytes of the value.
    pub closed spec fn spec_value(&self) -> Seq<u8> {
        self.value@
    }

    /// Builds a header. Fails where the name or the value is not ASCII.
    pub fn from_bytes(field: &[u8], value: &[u8]) -> (r: Result<Header, ()>)
        ensures
            r is Ok <==> is_ascii(field@) && is_ascii(value@),
            r matches Ok(h) ==> h.spec_field().name() == field@ && h.spec_value() == value@,
    {
        if is_ascii_text(field) && is_ascii_text(value) {
            Ok(
                Header {
                    field: HeaderField { name: vstd::slice::slice_to_vec(field) },
                    value: vstd::slice::slice_to_vec(value),
                },
            )
        } else {
            Err(())
        }
    }

    /// The name of the header.
    pub fn field(&self) -> (r: &HeaderField)
        ensures
            *r == self.spec_field(),
    {
        &self.field
    }

    /// The bytes of the value.
    pub fn value(&self) -> (r: &[u8])
        ensures
            r@ == self.spec_value(),
    {
        self.value.as_slice()
    }
}

/// The value of the first header with this name.
pub open spec fn first_value(headers: Seq<Header>, name: Seq<char>) -> Option<Seq<u8>>
    decreases headers.len(),
{
    if headers.len() == 0 {
        None
    } else if headers.first().spec_field().is_named(name) {
        Some(headers.first().spec_value())
    } else {
        first_value(headers.drop_first(), name)
    }
}

/// A name that some header has is found.
pub proof fn lemma_named_is_found(headers: Seq<Header>, name: Seq<char>, i: int)
    requires
        0 <= i < headers.len(),
        headers[i].spec_field().is_named(name),
    ensures
        first_value(headers, name) is Some,
    decreases i,
{
    if i > 0 {
        assert(headers.drop_first()[i - 1] == headers[i]);
        lemma_named_is_found(headers.drop_first(), name, i - 1);
    }
}

/// The value of the first header with this name.
pub fn find_value<'a>(headers: &'a [Header], name: &'static str) -> (r: Option<&'a [u8]>)
    ensures
        match r {
            Some(value) => first_value(headers@, name@) == Some(value@),
            None => first_value(headers@, name@) is None,
        },
{
    let n: usize = headers.len();
    let mut i: usize = 0;
    assert(headers@.skip(0) =~= headers@);
    while i < n
        invariant
            i <= n,
            n == headers@.len(),
            first_value(headers@, name@) == first_value(headers@.skip(i as int), name@),
        decreases n - i,
    {
        let header = &headers[i];
        assert(headers@.skip(i as int).first() == header);
        assert(headers@.skip(i as int).drop_first() =~= headers@.skip(i + 1));
        if header.field().equiv(name) {
            return Some(header.value());
        }
        i = i + 1;
    }
    None
}

/// A header has a name exactly when its characters are those of the name, all
/// of them ASCII, but for the case of letters.
pub proof fn law_names_by_characters(field: HeaderField, other: Seq<char>)
    ensures
        field.is_named(other) <==> {
            &&& field.name().len() == other.len()
            &&& forall|i: int|
                0 <= i < other.len() ==> '\0' <= #[trigger] other[i] <= '\u{7f}' && ascii::same_letter(
                    field.name()[i],
                    other[i] as u8,
                )
        },
{
    ascii::law_same_text_by_bytes(field.name(), ascii::bytes(other));
    if field.is_named(other) {
        assert forall|i: int| 0 <= i < other.len() implies '\0' <= #[trigger] other[i] <= '\u{7f}'
            && ascii::same_letter(field.name()[i], other[i] as u8) by {
            assert(ascii::same_letter(field.name()[i], ascii::bytes(other)[i]));
        }
    }
    if field.name().len() == other.len() && forall|i: int|
        0 <= i < other.len() ==> '\0' <= #[trigger] other[i] <= '\u{7f}' && ascii::same_letter(
            field.name()[i],
            other[i] as u8,
        ) {
        assert(ascii::reads_as(field.name(), ascii::bytes(other))) by {
            assert forall|i: int| 0 <= i < field.name().len() implies ascii::same_letter(
                #[trigger] field.name()[i],
                ascii::bytes(other)[i],
            ) by {
                assert('\0' <= other[i] <= '\u{7f}');
            }
        }
        assert(vstd::utf8::is_ascii_chars(other));
    }
}

/// The first value of a name is that of a header with the name that has none
/// with the name before it; there is none exactly where no header has the name.
pub proof fn law_first_value_by_position(headers: Seq<Header>, name: Seq<char>)
    ensures
        match first_value(headers, name) {
            Some(value) => exists|i: int|
                {
                    &&& 0 <= i < headers.len()
                    &&& (#[trigger] headers[i]).spec_field().is_named(name)
                    &&& headers[i].spec_value() == value
                    &&& forall|j: int|
                        0 <= j < i ==> !(#[trigger] headers[j]).spec_field().is_named(name)
                },
            None => forall|i: int|
                0 <= i < headers.len() ==> !(#[trigger] headers[i]).spec_field().is_named(name),
        },
    decreases headers.len(),
{
    if headers.len() > 0 {
        let rest = headers.drop_first();
        assert(headers.first() == headers[0]);
        if !headers.first().spec_field().is_named(name) {
            law_first_value_by_position(rest, name);
            if first_value(rest, name) is Some {
                let value = first_value(rest, name)->0;
                let k = choose|i: int|
                    {
                        &&& 0 <= i < rest.len()
                        &&& (#[trigger] rest[i]).spec_field().is_named(name)
                        &&& rest[i].spec_value() == value
                        &&& forall|j: int|
                            0 <= j < i ==> !(#[trigger] rest[j]).spec_field().is_named(name)
                    };
                assert(headers[k + 1] == rest[k]);
                assert forall|j: int| 0 <= j < k + 1 implies !(
                #[trigger] headers[j]).spec_field().is_named(name) by {
                    if j > 0 {
                        assert(headers[j] == rest[j - 1]);
                    }
                }
            } else {
                assert forall|i: int| 0 <= i < headers.len() implies !(
                #[trigger] headers[i]).spec_field().is_named(name) by {
                    if i > 0 {
                        assert(headers[i] == rest[i - 1]);
                    }
                }
            }
        }
    }
}

/// The value of the header at position `i` is the first one of its name where
/// no header before it has that name.
pub proof fn law_first_value_is_found(headers: Seq<Header>, name: Seq<char>, i: int)
    requires
        0 <= i < headers.len(),
        headers[i].spec_field().is_named(name),
        forall|j: int| 0 <= j < i ==> !(#[trigger] headers[j]).spec_field().is_named(name),
    ensures
        first_value(headers, name) == Some(headers[i].spec_value()),
{
    law_first_value_by_position(headers, name);
    lemma_named_is_found(headers, name, i);
}

/// Text is ASCII exactly when none of its bytes is above 127.
pub proof fn law_ascii_by_bytes(text: Seq<u8>)
    ensures
        is_ascii(text) <==> !exists|i: int| 0 <= i < text.len() && #[trigger] text[i] > 127,
{
}

/// The methods are spelled like this.
pub proof fn law_method_spelling(method: Method)
    ensures
        match method {
            Method::Get => method.name() == seq!['G', 'E', 'T'],
            Method::Head => method.name() == seq!['H', 'E', 'A', 'D'],
            Method::Post => method.name() == seq!['P', 'O', 'S', 'T'],
            Method::Put => method.name() == seq!['P', 'U', 'T'],
            Method::Delete => method.name() == seq!['D', 'E', 'L', 'E', 'T', 'E'],
            Method::Connect => method.name() == seq!['C', 'O', 'N', 'N', 'E', 'C', 'T'],
            Method::Options => method.name() == seq!['O', 'P', 'T', 'I', 'O', 'N', 'S'],
            Method::Trace => method.name() == seq!['T', 'R', 'A', 'C', 'E'],
            Method::Patch => method.name() == seq!['P', 'A', 'T', 'C', 'H'],
            Method::NonStandard(name) => method.name() == name@,
        },
{
    reveal_strlit("GET");
    reveal_strlit("HEAD");
    reveal_strlit("POST");
    reveal_strlit("PUT");
    reveal_strlit("DELETE");
    reveal_strlit("CONNECT");
    reveal_strlit("OPTIONS");
    reveal_strlit("TRACE");
    reveal_strlit("PATCH");
}

/// A version is made of its major and its minor number, in this order.
pub proof fn law_version_of_two_numbers(major: u8, minor: u8)
    ensures
        <HTTPVersion as vstd::std_specs::convert::FromSpec<(u8, u8)>>::obeys_from_spec(),
        ({
            let version = <HTTPVersion as vstd::std_specs::convert::FromSpec<(u8, u8)>>::from_spec(
                (major, minor),
            );
            version.0 == major && version.1 == minor
        }),
{
}

} // verus!
