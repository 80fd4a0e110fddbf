//! `Renderer` — replies → nexus text.
//!
//! Each reply produces one top-level text expression; successive
//! expressions are separated by `\n`, so a client sees one self-delimited
//! expression per line. Handshake replies never belong in the user-visible
//! reply stream: meeting one there is a protocol error.
use vstd::prelude::*;
use crate::encode::{
    outcome_text, outcomes_text, push_outcome, push_outcomes, push_quoted, push_records,
    quoted, records_text,
};
use crate::error::{error_code, error_text, Error};
use crate::model::Reply;

verus! {

/// The text of a reply, or `None` for the handshake replies, which have no
/// text form in the user-visible stream.
pub open spec fn reply_text(r: Reply) -> Option<Seq<char>> {
    match r {
        Reply::Outcome(o) => Some(outcome_text(o)),
        Reply::Outcomes(os) => Some(outcomes_text(os@)),
        Reply::Records(rs) => Some(records_text(rs)),
        Reply::HandshakeAccepted(_) => None,
        Reply::HandshakeRejected(_) => None,
    }
}

/// The error that rendering a handshake reply reports.
pub open spec fn handshake_in_stream_error(r: Reply) -> Error {
    match r {
        Reply::HandshakeRejected(_) => Error::HandshakePostReplyShape { got: "HandshakeRejected" },
        _ => Error::HandshakePostReplyShape { got: "HandshakeAccepted" },
    }
}

/// `acc` with the expression `t` appended: after a `\n` unless `acc` is
/// empty.
pub open spec fn append_expression(acc: Seq<char>, t: Seq<char>) -> Seq<char> {
    if acc.len() == 0 {
        t
    } else {
        acc + seq!['\n'] + t
    }
}

/// The `(Diagnostic Error <code> <message>)` text for a daemon-side error.
pub open spec fn local_error_text(e: Error) -> Seq<char> {
    "(Diagnostic Error "@ + quoted(error_code(e)) + " "@ + quoted(error_text(e)) + ")"@
}

/// Accumulates the text of successive replies.
pub struct Renderer {
    output: String,
}

impl Default for Renderer {
    fn default() -> (r: Renderer)
        ensures
            r.text() == Seq::<char>::empty(),
    {
        Self::new()
    }
}

impl Renderer {
    /// The text accumulated so far.
    pub closed spec fn text(&self) -> Seq<char> {
        self.output@
    }

    /// A renderer with no text.
    pub fn new() -> (r: Renderer)
        ensures
            r.text() == Seq::<char>::empty(),
    {
        Renderer { output: String::new() }
    }

    /// Appends the text of `reply`, after a `\n` unless it is the first
    /// expression. A handshake reply is refused and leaves the text as it
    /// was.
    pub fn render_reply(&mut self, reply: &Reply) -> (res: Result<(), Error>)
        ensures
            match reply_text(*reply) {
                Some(t) => res is Ok && final(self).text() == append_expression(old(self).text(), t),
                None => res == Err::<(), Error>(handshake_in_stream_error(*reply))
                    && final(self).text() == old(self).text(),
            },
    {
        let mut encoded = String::new();
        Self::render_into(reply, &mut encoded)?;
        self.push_expression(&encoded);
        Ok(())
    }

    /// Consumes the renderer and returns the accumulated text.
    pub fn into_text(self) -> (s: String)
        ensures
            s@ == self.text(),
    {
        self.output
    }

    fn push_expression(&mut self, encoded: &String)
        ensures
            final(self).text() == append_expression(old(self).text(), encoded@),
    {
        if !self.output.as_str().is_empty() {
            self.output.push('\n');
        }
        self.output.append(encoded.as_str());
        assert(final(self).text() =~= append_expression(old(self).text(), encoded@));
    }

    fn render_into(reply: &Reply, out: &mut String) -> (res: Result<(), Error>)
        ensures
            match reply_text(*reply) {
                Some(t) => res is Ok && final(out)@ == old(out)@ + t,
                None => res == Err::<(), Error>(handshake_in_stream_error(*reply)) && final(out)@
                    == old(out)@,
            },
    {
        match reply {
            Reply::Outcome(outcome) => {
                push_outcome(out, outcome);
                Ok(())
            },
            Reply::Outcomes(outcomes) => {
                push_outcomes(out, outcomes);
                Ok(())
            },
            Reply::Records(records) => {
                push_records(out, records);
                Ok(())
            },
            Reply::HandshakeAccepted(_) => Err(
                Error::HandshakePostReplyShape { got: "HandshakeAccepted" },
            ),
            Reply::HandshakeRejected(_) => Err(
                Error::HandshakePostReplyShape { got: "HandshakeRejected" },
            ),
        }
    }

    /// Appends a daemon-side error (a parser failure, an internal error) as
    /// a `(Diagnostic Error <code> <message>)` expression. Used when the
    /// parser rejects user text before the request can reach criome.
    pub fn render_local_error(&mut self, error: &Error) -> (res: Result<(), Error>)
        ensures
            res is Ok,
            final(self).text() == append_expression(old(self).text(), local_error_text(*error)),
    {
        let mut encoded = String::new();
        encoded.append("(Diagnostic Error ");
        push_quoted(&mut encoded, Self::local_error_code(error));
        encoded.append(" ");
        let message = error.describe();
        push_quoted(&mut encoded, message.as_str());
        encoded.append(")");
        assert(encoded@ =~= local_error_text(*error));
        self.push_expression(&encoded);
        Ok(())
    }

    fn local_error_code(error: &Error) -> (s: &'static str)
        ensures
            s@ == error_code(*error),
    {
        match error {
            Error::Codec(_) => "E0001",
            Error::VerbNotInM0Scope { .. } => "E0099",
            Error::Io(_) => "E0010",
            Error::Frame(_) => "E0011",
            Error::FrameTooLarge { .. } => "E0012",
            Error::HandshakeRejected { .. } => "E0020",
            Error::HandshakePostReplyShape { .. } => "E0021",
            Error::ActorCall(_) => "E0030",
            Error::ActorSpawn(_) => "E0031",
            _ => "E0001",
        }
    }
}

} // verus!
