//! A borrowed view of one message for routing, and the handler identifier.

use vstd::prelude::*;
use crate::message::OwnedMessage;
use crate::text::{str_eq, utf8_decode, utf8_text};
use vstd::utf8::*;
use vstd::string::StringSliceAdditionalSpecFns;

verus! {

broadcast use vstd::utf8::encode_utf8_decode_utf8;

/// Opaque handler identifier: the internal key a message is routed to, which
/// is distinct from the Kafka topic name.
#[derive(Debug, PartialEq, Eq, Hash)]
pub struct HandlerId(String);

impl View for HandlerId {
    type V = Seq<char>;

    closed spec fn view(&self) -> Seq<char> {
        self.0@
    }
}

impl Clone for HandlerId {
    fn clone(&self) -> (r: Self)
        ensures
            r == *self,
    {
        HandlerId(self.0.clone())
    }
}

impl HandlerId {
    /// Creates a handler identifier from its text.
    pub fn new(id: String) -> (r: Self)
        ensures
            r@ == id@,
    {
        HandlerId(id)
    }

    /// Creates a handler identifier from a string slice.
    pub fn from_text(id: &str) -> (r: Self)
        ensures
            r@ == id@,
    {
        HandlerId(String::from_str(id))
    }

    /// The identifier's text.
    pub fn as_str(&self) -> (r: &str)
        ensures
            r@ == self@,
    {
        self.0.as_str()
    }

    /// Whether the identifier is the empty string.
    pub fn is_empty(&self) -> (r: bool)
        ensures
            r == (self@.len() == 0),
    {
        self.0.as_str().is_empty()
    }

    /// Consumes the identifier, returning its text.
    pub fn into_string(self) -> (r: String)
        ensures
            r@ == self@,
    {
        self.0
    }
}

impl From<String> for HandlerId {
    fn from(s: String) -> (r: Self)
        ensures
            r@ == s@,
    {
        HandlerId(s)
    }
}

impl vstd::std_specs::convert::FromSpecImpl<String> for HandlerId {
    open spec fn obeys_from_spec() -> bool {
        true
    }

    closed spec fn from_spec(v: String) -> Self {
        HandlerId(v)
    }
}

impl<'a> From<&'a str> for HandlerId {
    fn from(s: &'a str) -> (r: Self)
        ensures
            r@ == s@,
    {
        HandlerId::from_text(s)
    }
}

impl<'a> vstd::std_specs::convert::FromSpecImpl<&'a str> for HandlerId {
    open spec fn obeys_from_spec() -> bool {
        false
    }

    open spec fn from_spec(v: &'a str) -> Self {
        vstd::pervasive::arbitrary()
    }
}

/// A header as carried by a message: a name and an optional value.
pub type Header = (String, Option<Vec<u8>>);

/// Index of the first header named `name`, if any.
pub open spec fn first_header_index(headers: Seq<Header>, name: Seq<char>) -> Option<int>
    decreases headers.len(),
{
    if headers.len() == 0 {
        None
    } else if headers[0].0@ == name {
        Some(0)
    } else {
        match first_header_index(headers.drop_first(), name) {
            Some(i) => Some(i + 1),
            None => None,
        }
    }
}

/// The value bytes of the first header named `name`; `None` when that header
/// is absent or carries no value.
pub open spec fn header_value(headers: Seq<Header>, name: Seq<char>) -> Option<Seq<u8>> {
    match first_header_index(headers, name) {
        Some(i) => match headers[i].1 {
            Some(v) => Some(v@),
            None => None,
        },
        None => None,
    }
}

/// Borrowed view of a message used during routing.
#[derive(Debug, Clone, Copy)]
pub struct RoutingContext<'a> {
    pub topic: &'a str,
    pub partition: i32,
    pub offset: i64,
    pub key: Option<&'a [u8]>,
    pub payload: Option<&'a [u8]>,
    pub headers: &'a [Header],
}

/// The bytes of an optional borrowed slice.
pub open spec fn opt_bytes(b: Option<&[u8]>) -> Option<Seq<u8>> {
    match b {
        Some(s) => Some(s@),
        None => None,
    }
}

/// The bytes of an optional owned buffer.
pub open spec fn opt_vec_bytes(b: Option<Vec<u8>>) -> Option<Seq<u8>> {
    match b {
        Some(v) => Some(v@),
        None => None,
    }
}

fn opt_vec_as_slice(v: &Option<Vec<u8>>) -> (r: Option<&[u8]>)
    ensures
        opt_bytes(r) == opt_vec_bytes(*v),
{
    match v {
        Some(b) => Some(b.as_slice()),
        None => None,
    }
}

fn decode_opt(b: Option<&[u8]>) -> (r: Option<&str>)
    ensures
        b is None ==> r is None,
        b matches Some(s) ==> (r is Some <==> valid_utf8(s@)),
        b matches Some(s) ==> (r matches Some(t) ==> t@ == decode_utf8(s@)),
{
    match b {
        Some(s) => {
            let r = utf8_decode(s);
            proof {
                if let Some(t) = r {
                    assert(decode_utf8(encode_utf8(t@)) == t@);
                }
            }
            r
        },
        None => None,
    }
}

impl<'a> RoutingContext<'a> {
    /// Borrows a routing view of an owned message.
    pub fn from_message(msg: &'a OwnedMessage) -> (r: RoutingContext<'a>)
        ensures
            r.topic@ == msg.topic@,
            r.partition == msg.partition,
            r.offset == msg.offset,
            opt_bytes(r.key) == opt_vec_bytes(msg.key),
            opt_bytes(r.payload) == opt_vec_bytes(msg.payload),
            r.headers@ == msg.headers@,
    {
        RoutingContext {
            topic: msg.topic.as_str(),
            partition: msg.partition,
            offset: msg.offset,
            key: opt_vec_as_slice(&msg.key),
            payload: opt_vec_as_slice(&msg.payload),
            headers: msg.headers.as_slice(),
        }
    }

    /// The payload decoded as UTF-8, when present and valid.
    pub fn payload_str(&self) -> (r: Option<&'a str>)
        ensures
            match self.payload {
                None => r is None,
                Some(p) => match utf8_text(p@) {
                    None => r is None,
                    Some(t) => r matches Some(s) && s@ == t,
                },
            },
    {
        decode_opt(self.payload)
    }

    /// The key decoded as UTF-8, when present and valid.
    pub fn key_str(&self) -> (r: Option<&'a str>)
        ensures
            match self.key {
                None => r is None,
                Some(k) => match utf8_text(k@) {
                    None => r is None,
                    Some(t) => r matches Some(s) && s@ == t,
                },
            },
    {
        decode_opt(self.key)
    }

    /// The headers as (name, value) pairs, in message order.
    pub fn headers_iter(&self) -> (r: Vec<(&'a str, Option<&'a [u8]>)>)
        ensures
            r.len() == self.headers@.len(),
            forall|i: int|
                0 <= i < r.len() ==> (#[trigger] r@[i]).0@ == self.headers@[i].0@ && opt_bytes(
                    r@[i].1,
                ) == opt_vec_bytes(self.headers@[i].1),
    {
        let headers: &'a [Header] = self.headers;
        let mut out: Vec<(&'a str, Option<&'a [u8]>)> = Vec::new();
        let mut i: usize = 0;
        while i < headers.len()
            invariant
                i <= headers.len(),
                headers@ == self.headers@,
                out.len() == i,
                forall|j: int|
                    0 <= j < i ==> (#[trigger] out@[j]).0@ == headers@[j].0@ && opt_bytes(
                        out@[j].1,
                    ) == opt_vec_bytes(headers@[j].1),
            decreases headers.len() - i,
        {
            let h: &'a Header = &headers[i];
            out.push((h.0.as_str(), opt_vec_as_slice(&h.1)));
            i += 1;
        }
        out
    }

    /// Whether a header with this name is present.
    pub fn has_header(&self, key: &str) -> (r: bool)
        ensures
            r == (first_header_index(self.headers@, key@) is Some),
    {
        self.header_position(key).is_some()
    }

    /// The value of the first header with this name; `None` if it is absent or
    /// has no value.
    pub fn get_header(&self, key: &str) -> (r: Option<&'a [u8]>)
        ensures
            opt_bytes(r) == header_value(self.headers@, key@),
    {
        let headers: &'a [Header] = self.headers;
        match self.header_position(key) {
            Some(i) => opt_vec_as_slice(&headers[i].1),
            None => None,
        }
    }

    fn header_position(&self, key: &str) -> (r: Option<usize>)
        ensures
            match first_header_index(self.headers@, key@) {
                Some(i) => r == Some(i as usize) && 0 <= i < self.headers@.len(),
                None => r is None,
            },
    {
        let headers = self.headers;
        let mut i: usize = 0;
        while i < headers.len()
            invariant
                i <= headers.len(),
                headers@ == self.headers@,
                forall|j: int| 0 <= j < i ==> headers@[j].0@ != key@,
            decreases headers.len() - i,
        {
            if str_eq(headers[i].0.as_str(), key) {
                proof {
                    lemma_first_header_index_at(headers@, key@, i as int);
                }
                return Some(i);
            }
            i += 1;
        }
        proof {
            lemma_first_header_index_none(headers@, key@);
        }
        None
    }
}

proof fn lemma_first_header_index_at(headers: Seq<Header>, name: Seq<char>, i: int)
    requires
        0 <= i < headers.len(),
        headers[i].0@ == name,
        forall|j: int| 0 <= j < i ==> headers[j].0@ != name,
    ensures
        first_header_index(headers, name) == Some(i),
    decreases i,
{
    if i > 0 {
        let rest = headers.drop_first();
        assert forall|j: int| 0 <= j < i - 1 implies rest[j].0@ != name by {
            assert(rest[j] == headers[j + 1]);
        }
        lemma_first_header_index_at(rest, name, i - 1);
    }
}

proof fn lemma_first_header_index_none(headers: Seq<Header>, name: Seq<char>)
    requires
        forall|j: int| 0 <= j < headers.len() ==> headers[j].0@ != name,
    ensures
        first_header_index(headers, name) is None,
    decreases headers.len(),
{
    if headers.len() > 0 {
        let rest = headers.drop_first();
        assert forall|j: int| 0 <= j < rest.len() implies rest[j].0@ != name by {
            assert(rest[j] == headers[j + 1]);
        }
        lemma_first_header_index_none(rest, name);
    }
}

} // verus!
