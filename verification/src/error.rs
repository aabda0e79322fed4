//! The ways in which planning a node can fail.

use vstd::prelude::*;

verus! {

/// What went wrong.
#[derive(Clone, Copy, Debug, PartialEq, Eq, Structural)]
pub enum ErrorKind {
    /// The edges around a node do not match what its definition requires.
    InvalidNodeConnections,
    /// The parameters are well-formed one by one but cannot hold together.
    InvalidNodeParams,
    /// The parameters are of another operation than the definition handles.
    NodeParamsMismatch,
    /// The command translation service rejected the command.
    LayoutError,
}

/// A point at which an error was handed on.
#[derive(Clone, Copy, Debug, PartialEq, Eq, Structural)]
pub enum Site {
    Estimate,
    DecodeCommands,
    TellDecoder,
    Expand,
    ExpandSteps,
}

/// What an error says when a command string's parent has no known frame.
pub const PARENT_NOT_ESTIMABLE: &'static str =
    "CommandString node requires that its parent nodes be perfectly estimable";

/// What an error says when a command string definition meets other parameters.
pub const NEED_COMMAND_STRING: &'static str = "Need CommandString";

/// What an error says when the constrain definition meets other parameters.
pub const NEED_CONSTRAIN: &'static str = "Need Constrain";

/// What an error says when a command string names a decoder and has a parent.
pub const DECODE_WITH_PARENT: &'static str =
    "CommandString must either have decode: null or have no parent nodes. Specifying a value for decode creates a new decoder node.";

/// What an error says when a command string has neither decoder nor parent.
pub const NO_IMAGE_SOURCE: &'static str =
    "CommandString must have a parent node unless 'decode' has a numeric value. Otherwise it has no image source. ";

/// What an error says when the edges around a node are not what its
/// definition requires.
pub const EDGES_NOT_AS_REQUIRED: &'static str =
    "Node does not have the incoming and outgoing edges that its definition requires";

/// A failure reported by the command translation service, with its
/// diagnostic detail.
#[derive(Debug, PartialEq, Eq)]
pub struct LayoutError {
    pub detail: String,
}

/// A planning error: its kind, a message, and the points it passed on its
/// way up.
#[derive(Debug, PartialEq, Eq)]
pub struct FlowError {
    pub kind: ErrorKind,
    pub message: String,
    pub at: Vec<Site>,
}

impl Clone for LayoutError {
    fn clone(&self) -> (r: Self)
        ensures
            r == *self,
    {
        LayoutError { detail: self.detail.clone() }
    }
}

impl Clone for FlowError {
    fn clone(&self) -> (r: Self)
        ensures
            r.reads(self.kind, self.message@, self.at@),
    {
        let mut at: Vec<Site> = Vec::new();
        let mut i: usize = 0;
        while i < self.at.len()
            invariant
                i <= self.at.len(),
                at@ == self.at@.take(i as int),
            decreases self.at.len() - i,
        {
            at.push(self.at[i]);
            proof {
                assert(at@ =~= self.at@.take(i as int + 1));
            }
            i += 1;
        }
        proof {
            self.at@.lemma_take_len();
        }
        FlowError { kind: self.kind, message: self.message.clone(), at }
    }
}

impl FlowError {
    /// Whether the error is of `kind`, says `message` and has passed `at`.
    pub open spec fn reads(&self, kind: ErrorKind, message: Seq<char>, at: Seq<Site>) -> bool {
        &&& self.kind == kind
        &&& self.message@ == message
        &&& self.at@ == at
    }

    /// A new error that has not been handed on yet.
    pub fn new(kind: ErrorKind, message: &str) -> (r: FlowError)
        ensures
            r.reads(kind, message@, Seq::empty()),
    {
        FlowError { kind, message: message.to_owned(), at: Vec::new() }
    }

    /// Wraps a failure of the command translation service.
    pub fn from_layout(e: LayoutError) -> (r: FlowError)
        ensures
            r.reads(ErrorKind::LayoutError, e.detail@, Seq::empty()),
    {
        FlowError { kind: ErrorKind::LayoutError, message: e.detail, at: Vec::new() }
    }

    /// Records one more point that the error passed. Kind and message stay.
    pub fn at(self, site: Site) -> (r: FlowError)
        ensures
            r.reads(self.kind, self.message@, self.at@.push(site)),
    {
        let mut e = self;
        e.at.push(site);
        e
    }
}

} // verus!
