//! What goes to the transport and what comes back from it, as plain values.
//! The crate itself sends nothing.
use crate::text::{option_view, views};
use vstd::prelude::*;
use vstd::string::*;
use vstd::utf8::encode_utf8;

verus! {

/// The HTTP method of a request.
#[derive(Clone, Copy, Debug, PartialEq, Eq, Structural)]
pub enum Method {
    Get,
    Post,
    Put,
    Patch,
    Delete,
}

/// One header line: a name and a value.
#[derive(Debug, PartialEq, Eq)]
pub struct Header {
    pub name: String,
    pub value: String,
}

/// Mathematical model of a [`Header`].
pub ghost struct HeaderModel {
    pub name: Seq<char>,
    pub value: Seq<char>,
}

impl View for Header {
    type V = HeaderModel;

    open spec fn view(&self) -> HeaderModel {
        HeaderModel { name: self.name@, value: self.value@ }
    }
}

/// A request for the transport to send.
#[derive(Debug, PartialEq, Eq)]
pub struct HttpRequest {
    pub method: Method,
    pub uri: String,
    pub headers: Vec<Header>,
    pub body: Vec<u8>,
}

/// Mathematical model of an [`HttpRequest`].
#[verifier::ext_equal]
pub ghost struct HttpRequestModel {
    pub method: Method,
    pub uri: Seq<char>,
    pub headers: Seq<HeaderModel>,
    pub body: Seq<u8>,
}

impl View for HttpRequest {
    type V = HttpRequestModel;

    open spec fn view(&self) -> HttpRequestModel {
        HttpRequestModel {
            method: self.method,
            uri: self.uri@,
            headers: views(self.headers@),
            body: self.body@,
        }
    }
}

/// What the transport received in answer to a request.
#[derive(Debug, PartialEq, Eq)]
pub struct HttpResponse {
    pub status: u16,
    pub headers: Vec<Header>,
    pub body: Vec<u8>,
}

/// A failure of the transport itself: no response was received.
#[derive(Debug, PartialEq, Eq)]
pub struct TransportError {
    pub message: String,
}

/// An ASCII capital letter as its small letter; any other byte as it is.
pub open spec fn fold_byte(b: u8) -> u8 {
    if 0x41 <= b <= 0x5a {
        (b + 32) as u8
    } else {
        b
    }
}

/// `true` when the UTF-8 bytes of the two texts are the same but for the
/// case of ASCII letters.
pub open spec fn same_ignoring_case(a: Seq<char>, b: Seq<char>) -> bool {
    let x = encode_utf8(a);
    let y = encode_utf8(b);
    &&& x.len() == y.len()
    &&& forall|i: int| 0 <= i < x.len() ==> fold_byte(#[trigger] x[i]) == fold_byte(y[i])
}

/// The value of the first header whose name is `name`, the case of ASCII
/// letters apart.
pub open spec fn first_header(headers: Seq<HeaderModel>, name: Seq<char>) -> Option<Seq<char>>
    decreases headers.len(),
{
    if headers.len() == 0 {
        None
    } else if same_ignoring_case(headers[0].name, name) {
        Some(headers[0].value)
    } else {
        first_header(headers.drop_first(), name)
    }
}

fn fold(b: u8) -> (r: u8)
    ensures
        r == fold_byte(b),
{
    if 0x41 <= b && b <= 0x5a {
        b + 32
    } else {
        b
    }
}

/// `true` when the two names are the same but for the case of ASCII letters.
pub fn names_match(a: &str, b: &str) -> (same: bool)
    ensures
        same == same_ignoring_case(a@, b@),
{
    let x = a.as_bytes();
    let y = b.as_bytes();
    if x.len() != y.len() {
        return false;
    }
    let mut i: usize = 0;
    while i < x.len()
        invariant
            i <= x.len(),
            x.len() == y.len(),
            x@ == encode_utf8(a@),
            y@ == encode_utf8(b@),
            forall|k: int| 0 <= k < i ==> fold_byte(#[trigger] x@[k]) == fold_byte(y@[k]),
        decreases x.len() - i,
    {
        if fold(x[i]) != fold(y[i]) {
            return false;
        }
        i += 1;
    }
    true
}

/// The value of the first header named `name`, the case of ASCII letters
/// apart.
pub fn header_value<'a>(headers: &'a Vec<Header>, name: &str) -> (r: Option<&'a String>)
    ensures
        option_view(r) == first_header(views(headers@), name@),
{
    let ghost all = views(headers@);
    let mut i: usize = 0;
    proof {
        assert(all.skip(0) == all);
    }
    while i < headers.len()
        invariant
            i <= headers.len(),
            all == views(headers@),
            first_header(all, name@) == first_header(all.skip(i as int), name@),
        decreases headers.len() - i,
    {
        proof {
            assert(all.skip(i as int)[0] == headers@[i as int]@);
            assert(all.skip(i as int).drop_first() == all.skip(i + 1));
        }
        if names_match(headers[i].name.as_str(), name) {
            return Some(&headers[i].value);
        }
        i += 1;
    }
    None
}

} // verus!
