//! A component wrapper that reports a button request exactly once.

use vstd::prelude::*;

verus! {

/// A request for a hardware button confirmation, identified by a
/// numeric code.
#[derive(Clone, Copy, PartialEq, Eq, Structural, Debug)]
pub struct ButtonRequest {
    pub code: u16,
}

impl ButtonRequest {
    pub fn new(code: u16) -> (r: ButtonRequest)
        ensures
            r.code == code,
    {
        ButtonRequest { code }
    }
}

/// Wraps an inner component and hands its button request out exactly
/// once, on the first attach of the component.
pub struct OneButtonRequest<T> {
    pub button_request: Option<ButtonRequest>,
    pub inner: T,
}

impl<T> OneButtonRequest<T> {
    pub fn new(button_request: ButtonRequest, inner: T) -> (r: OneButtonRequest<T>)
        ensures
            r.button_request == Some(button_request),
            r.inner == inner,
    {
        OneButtonRequest { button_request: Some(button_request), inner }
    }

    /// The attach event's effect: the stored request leaves, once; any
    /// later call finds none.
    pub fn take_request(&mut self) -> (r: Option<ButtonRequest>)
        ensures
            r == old(self).button_request,
            final(self).button_request is None,
            final(self).inner == old(self).inner,
    {
        let mut r: Option<ButtonRequest> = None;
        core::mem::swap(&mut r, &mut self.button_request);
        r
    }
}

/// Lets any component be wrapped with a one-shot button request.
pub trait ButtonRequestExt {
    fn one_button_request(self, br: ButtonRequest) -> OneButtonRequest<Self> where Self: Sized {
        OneButtonRequest::new(br, self)
    }
}

impl<T> ButtonRequestExt for T {
}

} // verus!
