//! The per-client text shuttle, as a state machine.
//!
//! A connection reads the client's whole text, parses each top-level
//! expression into a request, forwards every request to criome over one
//! paired link (opened lazily, on the first request), renders each reply
//! back as text, and finally writes the accumulated text to the client.
//! Replies pair with requests by position: each request is answered before
//! the next one is read. A parse error is rendered as a diagnostic and ends
//! the shuttle; nothing after it is forwarded.
//!
//! [`Shuttle`] holds the decisions; the daemon performs the actions it asks
//! for (opening the link, sending a request) and hands back each reply.
use vstd::prelude::*;
use crate::encode::quoted;
use crate::error::{codec_error_text, error_code, error_text, Error};
use crate::model::{AssertValue, Reply, Request};
use crate::parser::{lemma_request_advances, request_at, Parser};
use crate::renderer::{append_expression, handshake_in_stream_error, local_error_text, reply_text, Renderer};
use crate::text::CodecFault;

verus! {

/// The requests that `s` holds from `i`, in order, up to its end or up to
/// the first text that does not parse.
pub open spec fn request_stream(s: Seq<char>, i: nat) -> Seq<AssertValue>
    decreases s.len() - i,
{
    match request_at(s, i) {
        Ok(Some((v, e))) => if i < e <= s.len() {
            seq![v] + request_stream(s, e)
        } else {
            seq![v]
        },
        _ => Seq::empty(),
    }
}

/// Where the request stream of `s` from `i` stops: `Some(f)` when it stops
/// at text that does not parse, with the parser's fault; `None` when it
/// stops at the end of the text.
pub open spec fn stream_fault(s: Seq<char>, i: nat) -> Option<CodecFault>
    decreases s.len() - i,
{
    match request_at(s, i) {
        Ok(Some((_, e))) => if i < e <= s.len() {
            stream_fault(s, e)
        } else {
            None
        },
        Ok(None) => None,
        Err(f) => Some(f),
    }
}

/// The text of each reply in `rs`, in order.
pub open spec fn reply_texts(rs: Seq<Reply>) -> Seq<Seq<char>> {
    rs.map_values(|r: Reply| reply_text(r).unwrap())
}

/// The expressions a finished run renders: one per answered reply, then
/// the diagnostic for text that does not parse, if the stream stopped at
/// such text.
pub open spec fn run_expressions(rs: Seq<Reply>, fault: Option<CodecFault>) -> Seq<Seq<char>> {
    match fault {
        Some(f) => reply_texts(rs).push(parse_failure_text(f)),
        None => reply_texts(rs),
    }
}

/// The expressions `texts`, one per line.
pub open spec fn lines_text(texts: Seq<Seq<char>>) -> Seq<char>
    decreases texts.len(),
{
    if texts.len() == 0 {
        Seq::empty()
    } else {
        append_expression(lines_text(texts.drop_last()), texts.last())
    }
}

/// The diagnostic rendered for text that does not parse.
pub open spec fn parse_failure_text(f: CodecFault) -> Seq<char> {
    "(Diagnostic Error "@ + quoted("E0001"@) + " "@ + quoted("nota-codec: "@ + codec_error_text(f))
        + ")"@
}

/// What the daemon must do next for a connection.
#[derive(Debug)]
pub enum ShuttleAction {
    /// Open the link to criome, then send this first request on it.
    OpenLinkAndSend(Request),
    /// Send this request on the open link.
    Send(Request),
    /// Write the accumulated text to the client and close.
    Finish,
}

/// The state of one connection's text shuttle.
pub struct Shuttle {
    parser: Parser,
    renderer: Renderer,
    handled_requests: u64,
    link_open: bool,
    awaiting_reply: bool,
    finished: bool,
    sent: Ghost<Seq<AssertValue>>,
    answered: Ghost<Seq<Reply>>,
    rendered: Ghost<Seq<Seq<char>>>,
}

impl Shuttle {
    /// The client's text.
    pub closed spec fn text(&self) -> Seq<char> {
        self.parser.text()
    }

    /// How far into the text the shuttle has read.
    pub closed spec fn position(&self) -> nat {
        self.parser.position()
    }

    /// The requests forwarded so far, in order.
    pub closed spec fn sent(&self) -> Seq<AssertValue> {
        self.sent@
    }

    /// The replies rendered so far, in order: the i-th answers the i-th
    /// request sent.
    pub closed spec fn answered(&self) -> Seq<Reply> {
        self.answered@
    }

    /// The expressions rendered so far, in order: one per answered request,
    /// then possibly one diagnostic for text that does not parse.
    pub closed spec fn rendered(&self) -> Seq<Seq<char>> {
        self.rendered@
    }

    /// The text accumulated for the client.
    pub closed spec fn output(&self) -> Seq<char> {
        self.renderer.text()
    }

    /// How many requests have been answered, saturating at `u64::MAX`.
    pub closed spec fn handled(&self) -> nat {
        self.handled_requests as nat
    }

    pub closed spec fn link_is_open(&self) -> bool {
        self.link_open
    }

    /// Whether a request has been handed out and its reply not yet given.
    pub closed spec fn is_awaiting_reply(&self) -> bool {
        self.awaiting_reply
    }

    pub closed spec fn is_finished(&self) -> bool {
        self.finished
    }

    /// The shuttle's invariant: it has forwarded exactly the first requests
    /// of the text, in order; it has rendered one expression per answered
    /// request (and, once finished by a parse error, the diagnostic); and
    /// the output is those expressions, one per line.
    pub closed spec fn wf(&self) -> bool {
        &&& self.parser.wf()
        &&& !self.finished ==> self.sent@ + request_stream(self.text(), self.position())
            == request_stream(self.text(), 0)
        &&& self.finished ==> self.sent@ == request_stream(self.text(), 0)
        &&& self.renderer.text() == lines_text(self.rendered@)
        &&& forall|i: int| 0 <= i < self.answered@.len() ==> #[trigger] reply_text(self.answered@[i]) is Some
        &&& !self.finished ==> stream_fault(self.text(), self.position()) == stream_fault(self.text(), 0)
        &&& !self.finished ==> self.rendered@ == reply_texts(self.answered@)
        &&& self.finished ==> self.rendered@ == run_expressions(self.answered@, stream_fault(self.text(), 0))
        &&& self.finished ==> self.answered@.len() == self.sent@.len()
        &&& self.link_open == (self.sent@.len() > 0)
        &&& !self.finished ==> self.rendered@.len() + (if self.awaiting_reply {
            1int
        } else {
            0
        }) == self.sent@.len()
        &&& !(self.finished && self.awaiting_reply)
        &&& self.handled_requests as nat == if self.sent@.len() - (if self.awaiting_reply {
            1int
        } else {
            0
        }) > u64::MAX {
            u64::MAX as int
        } else {
            self.sent@.len() - (if self.awaiting_reply {
                1int
            } else {
                0
            })
        }
    }

    /// A shuttle over the client's whole text, before any request.
    pub fn new(text_input: &str) -> (s: Shuttle)
        ensures
            s.wf(),
            s.text() == text_input@,
            s.position() == 0,
            s.sent() == Seq::<AssertValue>::empty(),
            s.answered() == Seq::<Reply>::empty(),
            s.rendered() == Seq::<Seq<char>>::empty(),
            s.output() == Seq::<char>::empty(),
            s.handled() == 0,
            !s.link_is_open(),
            !s.is_awaiting_reply(),
            !s.is_finished(),
    {
        let s = Shuttle {
            parser: Parser::new(text_input),
            renderer: Renderer::new(),
            handled_requests: 0,
            link_open: false,
            awaiting_reply: false,
            finished: false,
            sent: Ghost(Seq::empty()),
            answered: Ghost(Seq::empty()),
            rendered: Ghost(Seq::empty()),
        };
        assert(s.sent@ + request_stream(s.text(), 0) =~= request_stream(s.text(), 0));
        assert(reply_texts(s.answered@) =~= Seq::<Seq<char>>::empty());
        s
    }

    /// Reads the next request and says what to do with it: open the link
    /// and send it (for the first request), send it, or finish (at the end
    /// of the text, or after rendering a diagnostic for text that does not
    /// parse).
    pub fn next_action(&mut self) -> (action: ShuttleAction)
        requires
            old(self).wf(),
            !old(self).is_finished(),
            !old(self).is_awaiting_reply(),
        ensures
            final(self).wf(),
            final(self).text() == old(self).text(),
            final(self).handled() == old(self).handled(),
            final(self).answered() == old(self).answered(),
            match request_at(old(self).text(), old(self).position()) {
                Ok(None) => action is Finish && final(self).is_finished() && final(self).rendered()
                    == old(self).rendered() && final(self).sent() == old(self).sent(),
                Err(f) => action is Finish && final(self).is_finished() && final(self).rendered()
                    == old(self).rendered().push(parse_failure_text(f)) && final(self).sent()
                    == old(self).sent(),
                Ok(Some((v, e))) => {
                    &&& !final(self).is_finished()
                    &&& final(self).is_awaiting_reply()
                    &&& final(self).sent() == old(self).sent().push(v)
                    &&& final(self).rendered() == old(self).rendered()
                    &&& final(self).position() == e
                    &&& !old(self).link_is_open() ==> (action matches ShuttleAction::OpenLinkAndSend(
                        Request::Assert(op),
                    ) && op@ == v)
                    &&& old(self).link_is_open() ==> (action matches ShuttleAction::Send(
                        Request::Assert(op),
                    ) && op@ == v)
                },
            },
    {
        let ghost text = self.text();
        let ghost p0 = self.position();
        proof {
            self.parser.lemma_position_in_text();
            lemma_request_advances(text, p0);
        }
        match self.parser.next_request() {
            Ok(None) => {
                proof {
                    assert(stream_fault(text, p0) == None::<CodecFault>);
                    assert(request_stream(text, p0) =~= Seq::<AssertValue>::empty());
                    assert(self.sent@ + Seq::<AssertValue>::empty() =~= self.sent@);
                }
                self.finished = true;
                ShuttleAction::Finish
            },
            Ok(Some(request)) => {
                proof {
                    let v = request_at(text, p0)->Ok_0->Some_0.0;
                    let e = request_at(text, p0)->Ok_0->Some_0.1;
                    assert(request_stream(text, p0) == seq![v] + request_stream(text, e));
                    assert(stream_fault(text, p0) == stream_fault(text, e));
                    let before = self.sent@;
                    self.sent@ = self.sent@.push(v);
                    assert(before + (seq![v] + request_stream(text, e)) =~= self.sent@
                        + request_stream(text, e));
                }
                self.awaiting_reply = true;
                if self.link_open {
                    ShuttleAction::Send(request)
                } else {
                    self.link_open = true;
                    ShuttleAction::OpenLinkAndSend(request)
                }
            },
            Err(parse_error) => {
                let ghost before = self.rendered@;
                let _ = self.renderer.render_local_error(&parse_error);
                proof {
                    self.rendered@ = self.rendered@.push(local_error_text(parse_error));
                    assert(self.rendered@.drop_last() =~= before);
                    assert(local_error_text(parse_error) == parse_failure_text(request_at(text, p0)->Err_0));
                    assert(stream_fault(text, p0) == Some(request_at(text, p0)->Err_0));
                    assert(request_stream(text, p0) =~= Seq::<AssertValue>::empty());
                    assert(old(self).sent@ + Seq::<AssertValue>::empty() =~= self.sent@);
                }
                self.finished = true;
                ShuttleAction::Finish
            },
        }
    }

    /// Takes criome's reply to the request handed out last and renders it.
    /// A handshake reply has no place in the reply stream: it is refused,
    /// and the connection must fail.
    pub fn on_reply(&mut self, reply: &Reply) -> (res: Result<(), Error>)
        requires
            old(self).wf(),
            old(self).is_awaiting_reply(),
        ensures
            final(self).wf(),
            final(self).text() == old(self).text(),
            final(self).sent() == old(self).sent(),
            match reply_text(*reply) {
                Some(t) => {
                    &&& res is Ok
                    &&& final(self).answered() == old(self).answered().push(*reply)
                    &&& !final(self).is_awaiting_reply()
                    &&& !final(self).is_finished()
                    &&& final(self).rendered() == old(self).rendered().push(t)
                    &&& final(self).handled() == if old(self).handled() == u64::MAX {
                        u64::MAX as nat
                    } else {
                        old(self).handled() + 1
                    }
                },
                None => {
                    &&& res == Err::<(), Error>(handshake_in_stream_error(*reply))
                    &&& final(self).answered() == old(self).answered()
                    &&& final(self).rendered() == old(self).rendered()
                    &&& final(self).output() == old(self).output()
                    &&& final(self).handled() == old(self).handled()
                    &&& final(self).is_awaiting_reply()
                    &&& !final(self).is_finished()
                },
            },
    {
        match self.renderer.render_reply(reply) {
            Ok(()) => {
                proof {
                    let t = reply_text(*reply)->Some_0;
                    let before = self.rendered@;
                    self.rendered@ = self.rendered@.push(t);
                    assert(self.rendered@.drop_last() =~= before);
                    let answered_before = self.answered@;
                    self.answered@ = self.answered@.push(*reply);
                    assert(reply_texts(self.answered@) =~= reply_texts(answered_before).push(t));
                    assert forall|i: int| 0 <= i < self.answered@.len() implies #[trigger] reply_text(self.answered@[i]) is Some by {
                        if i < answered_before.len() {
                            assert(self.answered@[i] == answered_before[i]);
                        }
                    }
                }
                self.handled_requests = self.handled_requests.saturating_add(1);
                self.awaiting_reply = false;
                Ok(())
            },
            Err(error) => Err(error),
        }
    }

    /// How many requests have been answered.
    pub fn handled_requests(&self) -> (n: u64)
        ensures
            n == self.handled(),
    {
        self.handled_requests
    }

    /// Consumes the shuttle and returns the text for the client.
    pub fn into_text(self) -> (s: String)
        ensures
            s@ == self.output(),
    {
        self.renderer.into_text()
    }

    /// Whole-run law: once the shuttle has finished, it has sent every
    /// request of the client's text, in text order; each was answered by one
    /// reply, the i-th reply answering the i-th request; and the output is
    /// the text of each reply, one per line and in the same order, followed,
    /// when the text stopped at something that does not parse, by that
    /// diagnostic. The count of handled requests is the number sent,
    /// saturating at `u64::MAX`.
    pub proof fn law_whole_run(&self)
        requires
            self.wf(),
            self.is_finished(),
        ensures
            self.sent() == request_stream(self.text(), 0),
            self.answered().len() == self.sent().len(),
            forall|i: int| 0 <= i < self.answered().len() ==> #[trigger] reply_text(self.answered()[i]) is Some,
            self.output() == lines_text(run_expressions(self.answered(), stream_fault(self.text(), 0))),
            self.handled() == if self.sent().len() > u64::MAX {
                u64::MAX as nat
            } else {
                self.sent().len()
            },
    {
    }

    /// Shuttle law: in every state, the requests forwarded so far are the
    /// first requests of the client's text, in text order, and the output
    /// is the rendered expressions, one per line, one for each answered
    /// request and in the same order.
    pub proof fn law_forwards_in_order(&self)
        requires
            self.wf(),
        ensures
            self.sent().len() <= request_stream(self.text(), 0).len(),
            self.sent() == request_stream(self.text(), 0).take(self.sent().len() as int),
            self.output() == lines_text(self.rendered()),
            self.is_finished() ==> self.sent() == request_stream(self.text(), 0),
            !self.is_finished() ==> self.rendered().len() == self.sent().len() - (
            if self.is_awaiting_reply() {
                1int
            } else {
                0
            }),
    {
        let all = request_stream(self.text(), 0);
        if !self.finished {
            assert(all.take(self.sent@.len() as int) =~= self.sent@);
        } else {
            assert(all.take(self.sent@.len() as int) =~= self.sent@);
        }
    }
}

} // verus!
