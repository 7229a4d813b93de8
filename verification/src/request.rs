use vstd::prelude::*;

use crate::errors::{spec_status_of, SylphError, SylphResult};
use crate::method::Method;
use crate::params::Params;
use crate::response::HttpResponse;
use crate::router::Router;

verus! {

/// The protocol version announced in the request head.
#[derive(PartialEq, Eq, Structural, Clone, Copy, Debug)]
pub enum HttpVersion {
    Http09,
    Http10,
    Http11,
    Http20,
}

/// The phase a connection is in. Within one connection the phases only move
/// forward: request line, optional body reading, dispatch, response head,
/// response body, done.
#[derive(PartialEq, Eq, Structural, Clone, Copy, Debug)]
pub enum LifecycleState {
    AwaitingRequestLine,
    ReadingBody,
    Dispatched,
    WritingStatus,
    WritingBody,
    Done,
}

/// A readiness directive handed back to the event loop: what the transport
/// should wait for next. Suspension is expressed by returning one of these,
/// never by blocking the worker thread.
#[derive(PartialEq, Eq, Structural, Clone, Copy, Debug)]
pub enum Next {
    ReadAndWrite,
    Write,
    End,
}

/// The request head as the transport reports it. `path` is `None` for a
/// request whose URI is not an absolute path.
pub struct RequestHead {
    pub method: Method,
    pub path: Option<String>,
    pub version: HttpVersion,
    pub headers: Vec<(String, String)>,
    pub content_length: Option<u64>,
}

/// The outcome of one readability notification: bytes read (an empty chunk
/// standing for end of stream), a would-block condition, or any other I/O
/// error.
pub enum BodyEvent {
    Data(Vec<u8>),
    WouldBlock,
    IoError,
}

/// The outcome of one writability notification: how many bytes the
/// transport took from the remaining body, a would-block condition, or any
/// other I/O error.
pub enum WriteEvent {
    Wrote(usize),
    WouldBlock,
    IoError,
}

/// The response head to put on the wire: the status code and, when a body
/// follows, its announced length.
pub struct ResponseHead {
    pub status: u16,
    pub content_length: Option<u64>,
}

/// The announced body length: absent counts as zero.
pub open spec fn content_length_of(cl: Option<u64>) -> u64 {
    match cl {
        Some(l) => l,
        None => 0,
    }
}

/// Whether the head announces a body to read.
pub open spec fn announces_body(cl: Option<u64>) -> bool {
    cl matches Some(l) && l > 0
}

/// The per-connection request lifecycle: a state machine driven by the
/// transport's callbacks. The transport adapter reads the fields; all
/// transitions go through the methods, which keep `wf`.
pub struct HttpRequest {
    pub state: LifecycleState,
    pub method: Method,
    pub path: String,
    pub version: HttpVersion,
    pub headers: Vec<(String, String)>,
    pub response: SylphResult<HttpResponse>,
    pub body: Vec<u8>,
    pub body_length: u64,
    pub read_pos: usize,
    pub write_pos: usize,
}

/// The captured request data and cursors that a transition leaves alone.
pub open spec fn same_capture(a: HttpRequest, b: HttpRequest) -> bool {
    &&& a.method == b.method
    &&& a.path == b.path
    &&& a.version == b.version
    &&& a.headers == b.headers
    &&& a.body == b.body
    &&& a.body_length == b.body_length
    &&& a.read_pos == b.read_pos
}

impl HttpRequest {
    /// Well-formedness: the read cursor counts exactly the buffered body
    /// bytes, and the write cursor stays inside the response body and is
    /// untouched before the body-writing phase.
    pub open spec fn wf(self) -> bool {
        &&& self.read_pos == self.body@.len()
        &&& (self.response matches Ok(resp) ==> self.write_pos <= resp.body@.len())
        &&& (self.state != LifecycleState::WritingBody && self.state != LifecycleState::Done
            ==> self.write_pos == 0)
    }

    /// A fresh lifecycle for one accepted connection, waiting for the
    /// request line, with NotFound recorded until a dispatch replaces it.
    pub fn new() -> (r: HttpRequest)
        ensures
            r.wf(),
            r.state == LifecycleState::AwaitingRequestLine,
            r.response == Err::<HttpResponse, SylphError>(SylphError::NotFound),
            r.body@.len() == 0,
            r.body_length == 0,
            r.read_pos == 0,
            r.write_pos == 0,
            r.method == Method::Get,
            r.path@ == Seq::<char>::empty(),
            r.version == HttpVersion::Http11,
            r.headers@.len() == 0,
    {
        HttpRequest {
            state: LifecycleState::AwaitingRequestLine,
            method: Method::Get,
            path: String::new(),
            version: HttpVersion::Http11,
            headers: Vec::new(),
            response: Err(SylphError::NotFound),
            body: Vec::new(),
            body_length: 0,
            read_pos: 0,
            write_pos: 0,
        }
    }

    /// Takes the request head. A request without a usable path goes
    /// straight to writing the default response; with a zero or absent
    /// announced body length the request becomes dispatchable at once,
    /// without waiting for any readability callback; a non-zero announced
    /// length opens the body-reading phase.
    pub fn on_request(&mut self, head: RequestHead) -> (n: Next)
        requires
            old(self).wf(),
            old(self).state == LifecycleState::AwaitingRequestLine,
        ensures
            final(self).wf(),
            final(self).response == old(self).response,
            final(self).body == old(self).body,
            final(self).read_pos == old(self).read_pos,
            final(self).write_pos == old(self).write_pos,
            head.path is None ==> ({
                &&& final(self).state == LifecycleState::WritingStatus
                &&& n == Next::Write
                &&& final(self).method == old(self).method
                &&& final(self).path == old(self).path
                &&& final(self).version == old(self).version
                &&& final(self).headers == old(self).headers
                &&& final(self).body_length == old(self).body_length
            }),
            head.path matches Some(p) ==> ({
                &&& final(self).method == head.method
                &&& final(self).path == p
                &&& final(self).version == head.version
                &&& final(self).headers == head.headers
                &&& final(self).body_length == content_length_of(head.content_length)
                &&& (if announces_body(head.content_length) {
                    final(self).state == LifecycleState::ReadingBody && n == Next::ReadAndWrite
                } else {
                    final(self).state == LifecycleState::Dispatched && n == Next::Write
                })
            }),
    {
        let RequestHead { method, path, version, headers, content_length } = head;
        match path {
            None => {
                self.state = LifecycleState::WritingStatus;
                Next::Write
            },
            Some(p) => {
                self.method = method;
                self.path = p;
                self.version = version;
                self.headers = headers;
                match content_length {
                    Some(l) => {
                        self.body_length = l;
                        if l > 0 {
                            self.state = LifecycleState::ReadingBody;
                            Next::ReadAndWrite
                        } else {
                            self.state = LifecycleState::Dispatched;
                            Next::Write
                        }
                    },
                    None => {
                        self.body_length = 0;
                        self.state = LifecycleState::Dispatched;
                        Next::Write
                    },
                }
            },
        }
    }

    /// One readability notification while the body is read. Bytes are
    /// appended to the internal buffer and advance the read cursor; end of
    /// stream (an empty chunk) or the cursor reaching the announced length
    /// makes the request dispatchable, and nothing short of that does; a
    /// would-block condition re-arms unchanged; any other I/O error
    /// abandons the connection without a response.
    pub fn on_request_readable(&mut self, ev: BodyEvent) -> (n: Next)
        requires
            old(self).wf(),
            old(self).state == LifecycleState::ReadingBody,
            ev matches BodyEvent::Data(b) ==> old(self).read_pos + b@.len() <= usize::MAX,
        ensures
            final(self).wf(),
            final(self).response == old(self).response,
            final(self).write_pos == old(self).write_pos,
            final(self).method == old(self).method,
            final(self).path == old(self).path,
            final(self).version == old(self).version,
            final(self).headers == old(self).headers,
            final(self).body_length == old(self).body_length,
            (match ev {
                BodyEvent::Data(b) => {
                    if b@.len() == 0 {
                        &&& final(self).state == LifecycleState::Dispatched
                        &&& n == Next::Write
                        &&& final(self).body == old(self).body
                    } else {
                        &&& final(self).body@ == old(self).body@ + b@
                        &&& final(self).read_pos == old(self).read_pos + b@.len()
                        &&& (if final(self).body_length <= final(self).read_pos as u64 {
                            final(self).state == LifecycleState::Dispatched && n == Next::Write
                        } else {
                            final(self).state == LifecycleState::ReadingBody && n
                                == Next::ReadAndWrite
                        })
                    }
                },
                BodyEvent::WouldBlock => *final(self) == *old(self) && n == Next::ReadAndWrite,
                BodyEvent::IoError => final(self).state == LifecycleState::Done && final(self).body == old(self).body && n == Next::End,
            }),
    {
        match ev {
            BodyEvent::Data(mut b) => {
                if b.len() == 0 {
                    self.state = LifecycleState::Dispatched;
                    Next::Write
                } else {
                    self.read_pos = self.read_pos + b.len();
                    self.body.append(&mut b);
                    if self.body_length <= self.read_pos as u64 {
                        self.state = LifecycleState::Dispatched;
                        Next::Write
                    } else {
                        Next::ReadAndWrite
                    }
                }
            },
            BodyEvent::WouldBlock => Next::ReadAndWrite,
            BodyEvent::IoError => {
                self.state = LifecycleState::Done;
                Next::End
            },
        }
    }

    /// Resolves the captured method and path against the router. A
    /// resolution failure is recorded and the connection moves on to
    /// writing; on success the handler and the extracted parameters are
    /// handed back, and the lifecycle waits for `complete` with whatever
    /// the handler returns.
    pub fn dispatch<H: Copy>(&mut self, router: &Router<H>) -> (r: Option<(H, Params)>)
        requires
            old(self).wf(),
            old(self).state == LifecycleState::Dispatched,
            router.wf(),
            router.built(),
        ensures
            final(self).wf(),
            same_capture(*final(self), *old(self)),
            r matches Some(hp) ==> ({
                &&& router.spec_find(old(self).method, old(self).path@) matches Ok(sp) && sp.0
                    == hp.0 && sp.1 == hp.1@
                &&& *final(self) == *old(self)
            }),
            r is None ==> ({
                &&& router.spec_find(old(self).method, old(self).path@) matches Err(e) && final(self).response == Err::<HttpResponse, SylphError>(e)
                &&& final(self).state == LifecycleState::WritingStatus
            }),
    {
        match router.find_handler(self.method, self.path.as_str()) {
            Ok((h, params)) => Some((h, params)),
            Err(e) => {
                self.response = Err(e);
                self.state = LifecycleState::WritingStatus;
                None
            },
        }
    }

    /// Records what the handler returned — or the failure caught at the
    /// dispatch boundary — and moves on to writing the response head.
    pub fn complete(&mut self, result: SylphResult<HttpResponse>)
        requires
            old(self).wf(),
            old(self).state == LifecycleState::Dispatched,
        ensures
            final(self).wf(),
            same_capture(*final(self), *old(self)),
            final(self).write_pos == old(self).write_pos,
            final(self).state == LifecycleState::WritingStatus,
            final(self).response == result,
    {
        self.response = result;
        self.state = LifecycleState::WritingStatus;
    }

    /// Prepares the response head. A recorded success keeps its status and
    /// announces a content length only for a non-empty body; a recorded
    /// error maps NotFound to 404, NotAllowed to 405 and
    /// InternalServerError to 500, with no body announced.
    pub fn on_response(&mut self) -> (r: (ResponseHead, Next))
        requires
            old(self).wf(),
            old(self).state == LifecycleState::WritingStatus,
        ensures
            final(self).wf(),
            same_capture(*final(self), *old(self)),
            final(self).write_pos == old(self).write_pos,
            final(self).response == old(self).response,
            final(self).state == LifecycleState::WritingBody,
            r.1 == Next::Write,
            (match old(self).response {
                Ok(resp) => r.0.status == resp.status && r.0.content_length == (if resp.body@.len()
                    > 0 {
                    Some(resp.body@.len() as u64)
                } else {
                    None::<u64>
                }),
                Err(e) => r.0.status == spec_status_of(e) && r.0.content_length is None,
            }),
    {
        let head = match &self.response {
            Ok(resp) => {
                let len = resp.body.len();
                ResponseHead {
                    status: resp.status,
                    content_length: if len > 0 {
                        Some(len as u64)
                    } else {
                        None
                    },
                }
            },
            Err(e) => ResponseHead { status: e.status_code(), content_length: None },
        };
        self.state = LifecycleState::WritingBody;
        (head, Next::Write)
    }

    /// One writability notification. An error response or an empty body
    /// ends the connection at once; otherwise bytes the transport took
    /// advance the write cursor, re-arming until the cursor reaches the
    /// body length; a zero-byte write ends the connection; a would-block
    /// condition re-arms unchanged; any other I/O error abandons the
    /// connection.
    pub fn on_response_writable(&mut self, ev: WriteEvent) -> (n: Next)
        requires
            old(self).wf(),
            old(self).state == LifecycleState::WritingBody,
            ev matches WriteEvent::Wrote(k) ==> (old(self).response matches Ok(resp) ==> old(self).write_pos + k <= resp.body@.len()),
        ensures
            final(self).wf(),
            same_capture(*final(self), *old(self)),
            final(self).response == old(self).response,
            old(self).response is Err ==> n == Next::End && final(self).state
                == LifecycleState::Done && final(self).write_pos == old(self).write_pos,
            old(self).response matches Ok(resp) ==> ({
                if resp.body@.len() == 0 {
                    &&& n == Next::End
                    &&& final(self).state == LifecycleState::Done
                    &&& final(self).write_pos == old(self).write_pos
                } else {
                    match ev {
                        WriteEvent::Wrote(k) => {
                            if k == 0 {
                                &&& n == Next::End
                                &&& final(self).state == LifecycleState::Done
                                &&& final(self).write_pos == old(self).write_pos
                            } else {
                                &&& final(self).write_pos == old(self).write_pos + k
                                &&& (if old(self).write_pos + k == resp.body@.len() {
                                    n == Next::End && final(self).state == LifecycleState::Done
                                } else {
                                    n == Next::Write && final(self).state
                                        == LifecycleState::WritingBody
                                })
                            }
                        },
                        WriteEvent::WouldBlock => n == Next::Write && final(self).state
                            == LifecycleState::WritingBody && final(self).write_pos == old(self).write_pos,
                        WriteEvent::IoError => n == Next::End && final(self).state
                            == LifecycleState::Done && final(self).write_pos == old(self).write_pos,
                    }
                }
            }),
    {
        let body_len = match &self.response {
            Ok(resp) => Some(resp.body.len()),
            Err(_) => None,
        };
        match body_len {
            None => {
                self.state = LifecycleState::Done;
                Next::End
            },
            Some(len) => {
                if len == 0 {
                    self.state = LifecycleState::Done;
                    Next::End
                } else {
                    match ev {
                        WriteEvent::Wrote(k) => {
                            if k == 0 {
                                self.state = LifecycleState::Done;
                                Next::End
                            } else {
                                self.write_pos = self.write_pos + k;
                                if self.write_pos == len {
                                    self.state = LifecycleState::Done;
                                    Next::End
                                } else {
                                    Next::Write
                                }
                            }
                        },
                        WriteEvent::WouldBlock => Next::Write,
                        WriteEvent::IoError => {
                            self.state = LifecycleState::Done;
                            Next::End
                        },
                    }
                }
            },
        }
    }
}

} // verus!
