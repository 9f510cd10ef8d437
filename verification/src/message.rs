//! Messages: a request and a response are metadata plus a body stream.
//! A response body is either the bare stream the handler produced or that
//! stream wrapped in a decorator by an outbound middleware hook.

use vstd::prelude::*;

use crate::decorate::{DecoratorModel, StreamDecorator};
use crate::stream::{BodySize, ByteStream, StreamModel};

verus! {

/// A response body: the handler's bare stream, or the same stream wrapped
/// in a decorator on the way out.
pub enum Body {
    Stream(ByteStream),
    Decorated(StreamDecorator),
}

/// Mathematical model of a response body.
pub enum BodyModel {
    Stream(StreamModel),
    Decorated(DecoratorModel),
}

impl View for Body {
    type V = BodyModel;

    open spec fn view(&self) -> BodyModel {
        match self {
            Body::Stream(s) => BodyModel::Stream(s@),
            Body::Decorated(d) => BodyModel::Decorated(d@),
        }
    }
}

impl BodyModel {
    /// The declared total-size hint the body reports to the transport
    /// layer: a decorator reports exactly the size of the stream it wraps.
    pub open spec fn size_of(self) -> BodySize {
        match self {
            BodyModel::Stream(s) => s.size,
            BodyModel::Decorated(d) => d.inner.size,
        }
    }

    /// A body that no consumer has pulled from yet: middleware passes a
    /// body onward without consuming any of it.
    pub open spec fn intact(self) -> bool {
        match self {
            BodyModel::Stream(s) => s.wf() && s.fresh(),
            BodyModel::Decorated(d) => d.wf() && d.inner.fresh() && !d.log.fired(),
        }
    }
}

impl Body {
    /// The declared total-size hint of this body.
    pub fn size(&self) -> (s: BodySize)
        ensures
            s == self@.size_of(),
    {
        match self {
            Body::Stream(stream) => stream.size(),
            Body::Decorated(d) => d.size(),
        }
    }
}

/// An inbound request: method and path, header metadata, and a body
/// stream.
pub struct Request {
    pub method: String,
    pub path: String,
    pub headers: Vec<(String, String)>,
    pub body: ByteStream,
}

/// Mathematical model of a request.
pub struct RequestModel {
    pub method: Seq<char>,
    pub path: Seq<char>,
    pub headers: Seq<(Seq<char>, Seq<char>)>,
    pub body: StreamModel,
}

impl View for Request {
    type V = RequestModel;

    open spec fn view(&self) -> RequestModel {
        RequestModel {
            method: self.method@,
            path: self.path@,
            headers: self.headers@.map_values(|h: (String, String)| (h.0@, h.1@)),
            body: self.body@,
        }
    }
}

impl RequestModel {
    pub open spec fn wf(self) -> bool {
        self.body.wf()
    }
}

/// An outbound response: status code, header metadata, and a body.
pub struct Response {
    pub status: u16,
    pub headers: Vec<(String, String)>,
    pub body: Body,
}

/// Mathematical model of a response.
pub struct ResponseModel {
    pub status: u16,
    pub headers: Seq<(Seq<char>, Seq<char>)>,
    pub body: BodyModel,
}

impl View for Response {
    type V = ResponseModel;

    open spec fn view(&self) -> ResponseModel {
        ResponseModel {
            status: self.status,
            headers: self.headers@.map_values(|h: (String, String)| (h.0@, h.1@)),
            body: self.body@,
        }
    }
}

impl ResponseModel {
    pub open spec fn wf(self) -> bool {
        self.body.intact()
    }
}

/// Whether some header at index `i` or later carries the given name.
pub open spec fn header_from(headers: Seq<(Seq<char>, Seq<char>)>, name: Seq<char>, i: int) -> bool
    decreases headers.len() - i,
{
    0 <= i < headers.len() && (headers[i].0 == name || header_from(headers, name, i + 1))
}

/// Whether the metadata carries a header of the given name.
pub open spec fn header_present(headers: Seq<(Seq<char>, Seq<char>)>, name: Seq<char>) -> bool {
    header_from(headers, name, 0)
}

/// Look a header name up in the metadata.
pub fn has_header(headers: &Vec<(String, String)>, name: &String) -> (r: bool)
    ensures
        r == header_present(headers@.map_values(|h: (String, String)| (h.0@, h.1@)), name@),
{
    let ghost hs = headers@.map_values(|h: (String, String)| (h.0@, h.1@));
    let mut i: usize = 0;
    while i < headers.len()
        invariant
            0 <= i <= headers.len(),
            hs == headers@.map_values(|h: (String, String)| (h.0@, h.1@)),
            header_present(hs, name@) == header_from(hs, name@, i as int),
        decreases headers.len() - i,
    {
        if headers[i].0 == *name {
            assert(header_from(hs, name@, i as int));
            return true;
        }
        i = i + 1;
    }
    false
}

} // verus!
