use vstd::prelude::*;

verus! {

/// The response a handler builds: a status code, a header collection and a
/// byte body. It is mutated freely until it is handed back to the request
/// lifecycle for serialization; from then on it is only read.
pub struct HttpResponse {
    pub status: u16,
    pub headers: Vec<(String, String)>,
    pub body: Vec<u8>,
}

impl HttpResponse {
    /// A fresh `200` response with no headers and an empty body.
    pub fn new() -> (r: HttpResponse)
        ensures
            r.status == 200,
            r.headers@.len() == 0,
            r.body@.len() == 0,
    {
        HttpResponse { status: 200, headers: Vec::new(), body: Vec::new() }
    }

    /// Replaces the status code.
    pub fn set_status(&mut self, status: u16)
        ensures
            final(self).status == status,
            final(self).headers == old(self).headers,
            final(self).body == old(self).body,
    {
        self.status = status;
    }

    /// The header collection, for the handler to extend.
    pub fn headers_mut(&mut self) -> (r: &mut Vec<(String, String)>)
        ensures
            *r == old(self).headers,
            final(self).headers == *final(r),
            final(self).status == old(self).status,
            final(self).body == old(self).body,
    {
        &mut self.headers
    }

    /// Replaces the body.
    pub fn set_body(&mut self, body: Vec<u8>)
        ensures
            final(self).body == body,
            final(self).status == old(self).status,
            final(self).headers == old(self).headers,
    {
        self.body = body;
    }
}

} // verus!
