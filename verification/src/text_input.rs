use vstd::prelude::*;

verus! {

/// Relies on str's equality: true exactly when the two character
/// sequences are equal.
#[verifier::external_body]
fn str_eq(a: &str, b: &str) -> (r: bool)
    ensures
        r == (a@ == b@),
{
    a == b
}

/// Decision core of a text-input element's render loop.
///
/// The host polls it on every pass: it decides whether the input element's
/// displayed text must be rewritten from the observable, which happens on
/// the very first pass and then whenever the observed text changed since
/// the last one. Event dispatch decisions live here too; the host performs
/// the actual element writes and handler calls.
pub struct TextInputState {
    set: bool,
}

impl TextInputState {
    /// Whether the element's text has been written at least once.
    pub closed spec fn is_set(&self) -> bool {
        self.set
    }

    pub fn new() -> (r: Self)
        ensures
            !r.is_set(),
    {
        TextInputState { set: false }
    }

    /// One pass of the render loop: given whether the observed text
    /// changed since the previous pass, decide whether the host must
    /// write the current text into the element. The first pass always
    /// writes, so the element never shows stale or empty initial text.
    pub fn poll_step(&mut self, changed: bool) -> (write_out: bool)
        ensures
            write_out == (changed || !old(self).is_set()),
            final(self).is_set(),
    {
        let write_out = changed || !self.set;
        self.set = true;
        write_out
    }
}

/// Whether a key event on the input submits its text: only the enter key
/// does, and only on a single-line input — a multi-line input uses the
/// key to break lines instead.
pub fn submit_on_key(key: &str, multiline: bool) -> (r: bool)
    ensures
        r == (!multiline && key@ == "Enter"@),
{
    !multiline && str_eq(key, "Enter")
}

} // verus!
