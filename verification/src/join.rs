//! Joining records with a separator, at once or at the end of the stream.

use crate::error::Error;
use crate::postprocessor::{
    append, no_frames, one, one_frame, silent, Call, Outcome, Postprocessor,
};
use vstd::prelude::*;

verus! {

/// Ends every record with a separator. In buffered mode the records are held
/// back and handed out as one frame when the stream is finished.
pub struct Join {
    separator: Vec<u8>,
    buffered: bool,
    pending: Vec<u8>,
}

/// What a `Join` holds.
pub struct JoinView {
    /// The bytes put behind every record.
    pub separator: Seq<u8>,
    /// Whether records are held back until the stream is finished.
    pub buffered: bool,
    /// The records held back so far, each with its separator.
    pub pending: Seq<u8>,
}

impl View for Join {
    type V = JoinView;

    closed spec fn view(&self) -> JoinView {
        JoinView { separator: self.separator@, buffered: self.buffered, pending: self.pending@ }
    }
}

/// The separator of a `Join` that is given none: one newline.
pub open spec fn newline() -> Seq<u8> {
    seq![10u8]
}

impl Join {
    /// A `Join` with the given separator and mode that holds nothing back yet.
    pub fn new(separator: Vec<u8>, buffered: bool) -> (r: Self)
        ensures
            r@ == (JoinView { separator: separator@, buffered, pending: Seq::empty() }),
    {
        Join { separator, buffered, pending: Vec::new() }
    }

    /// The bytes put behind every record.
    pub fn separator(&self) -> (r: &[u8])
        ensures
            r@ == self@.separator,
    {
        self.separator.as_slice()
    }

    /// Whether records are held back until the stream is finished.
    pub fn is_buffered(&self) -> (r: bool)
        ensures
            r == self@.buffered,
    {
        self.buffered
    }

    /// The records held back so far, each with its separator.
    pub fn pending(&self) -> (r: &[u8])
        ensures
            r@ == self@.pending,
    {
        self.pending.as_slice()
    }
}

impl Default for Join {
    /// A `Join` that ends every record with a newline and holds nothing back.
    fn default() -> (r: Self)
        ensures
            r@ == (JoinView { separator: newline(), buffered: false, pending: Seq::empty() }),
    {
        let mut separator: Vec<u8> = Vec::new();
        separator.push(10);
        assert(separator@ =~= newline());
        Join::new(separator, false)
    }
}

impl Postprocessor for Join {
    open spec fn spec_name(&self) -> Seq<char> {
        "join"@
    }

    open spec fn yields(&self, call: Call, outcome: Outcome, next: Self) -> bool {
        let held = self@.pending;
        match call {
            Call::Process { data, .. } => if self@.buffered {
                &&& outcome == silent()
                &&& next@ == (JoinView { pending: held + data + self@.separator, ..self@ })
            } else {
                &&& outcome == one(data + self@.separator)
                &&& next@ == self@
            },
            Call::Finish { flushed } => {
                &&& next@ == (JoinView { pending: Seq::empty(), ..self@ })
                &&& outcome == match flushed {
                    Some(data) => one(held + data + self@.separator),
                    None => if held.len() == 0 {
                        silent()
                    } else {
                        one(held)
                    },
                }
            },
        }
    }

    fn name(&self) -> (r: &str) {
        "join"
    }

    fn process(&mut self, ingres_ns: u64, egress_ns: u64, data: &[u8]) -> (r: Result<
        Vec<Vec<u8>>,
        Error,
    >) {
        if self.buffered {
            append(&mut self.pending, data);
            append(&mut self.pending, self.separator.as_slice());
            Ok(no_frames())
        } else {
            let mut framed: Vec<u8> = Vec::new();
            append(&mut framed, data);
            append(&mut framed, self.separator.as_slice());
            Ok(one_frame(framed))
        }
    }

    fn finish(&mut self, data: Option<&[u8]>) -> (r: Result<Vec<Vec<u8>>, Error>) {
        let mut held: Vec<u8> = Vec::new();
        std::mem::swap(&mut self.pending, &mut held);
        match data {
            Some(last) => {
                append(&mut held, last);
                append(&mut held, self.separator.as_slice());
                Ok(one_frame(held))
            },
            None => if held.len() == 0 {
                Ok(no_frames())
            } else {
                Ok(one_frame(held))
            },
        }
    }
}

} // verus!
