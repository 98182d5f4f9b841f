//! The data a parsed command line carries: arguments, redirections, and the
//! rule that picks which redirection governs a stream.

use vstd::prelude::*;

verus! {

/// An output stream a redirection can route.
#[derive(Clone, Copy, PartialEq, Eq, Structural, Debug)]
pub enum Stream {
    Stdout,
    Stderr,
}

/// A directive routing one output stream to a named file, truncating or
/// appending.
#[derive(Clone, Debug)]
pub struct Redirect {
    pub stream: Stream,
    pub target: String,
    pub append: bool,
}

/// The mathematical shape of a redirect: its target as a character sequence.
#[verifier::ext_equal]
pub ghost struct RedirSpec {
    pub stream: Stream,
    pub target: Seq<char>,
    pub append: bool,
}

impl View for Redirect {
    type V = RedirSpec;

    open spec fn view(&self) -> RedirSpec {
        RedirSpec { stream: self.stream, target: self.target@, append: self.append }
    }
}

/// The views of a sequence of redirects, element by element.
pub open spec fn views_of_redirects(v: Seq<Redirect>) -> Seq<RedirSpec> {
    v.map_values(|r: Redirect| r@)
}

/// A tokenized command line: the arguments after the command name, and the
/// redirections in the order they were written.
#[derive(Clone, Debug)]
pub struct ParsedCommand {
    pub args: Vec<String>,
    pub redirects: Vec<Redirect>,
}

/// The index of the first redirect for `stream`, if any: later redirects for
/// the same stream are shadowed when output is written.
pub open spec fn first_redirect_for(redirects: Seq<Redirect>, stream: Stream) -> Option<int> {
    if exists|i: int| 0 <= i < redirects.len() && redirects[i].stream == stream {
        Some(choose|i: int|
            0 <= i < redirects.len() && redirects[i].stream == stream && forall|j: int|
                0 <= j < i ==> redirects[j].stream != stream)
    } else {
        None
    }
}

/// Picks the redirect that governs `stream`: the first one written for that
/// stream wins, later duplicates are shadowed.
pub fn effective_redirect(redirects: &Vec<Redirect>, stream: Stream) -> (r: Option<usize>)
    ensures
        r is Some ==> {
            let i = r->Some_0 as int;
            &&& 0 <= i < redirects@.len()
            &&& redirects@[i].stream == stream
            &&& forall|j: int| 0 <= j < i ==> redirects@[j].stream != stream
        },
        r is None ==> forall|j: int| 0 <= j < redirects@.len() ==> redirects@[j].stream != stream,
{
    let mut i: usize = 0;
    while i < redirects.len()
        invariant
            0 <= i <= redirects@.len(),
            forall|j: int| 0 <= j < i ==> redirects@[j].stream != stream,
        decreases redirects@.len() - i,
    {
        if redirects[i].stream == stream {
            return Some(i);
        }
        i = i + 1;
    }
    None
}

} // verus!
