use vstd::prelude::*;

verus! {

/// An HTTP request method. Together with a path pattern it forms the key
/// under which a handler is registered.
#[derive(PartialEq, Eq, Structural, Clone, Copy, Debug, Hash)]
pub enum Method {
    Get,
    Post,
    Put,
    Patch,
    Delete,
    Options,
    Head,
}

} // verus!
