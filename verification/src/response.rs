//! The response accumulator: the state machine that folds framed lines into
//! a typed result.
//!
//! The spec side models one exchange as a fold of [`step`] over the framed
//! lines; the executable [`POP3Response`] is proved to follow that fold
//! exactly, so a reply's outcome is a pure function of the command tag and
//! the lines received.

use vstd::prelude::*;

use crate::grammar::{
    fits_i32, is_err_line, is_ok_line, is_terminator_line, parse_pair_num_num,
    parse_pair_num_token, parse_stat_line, parse_uidl_one_line, strip_crlf,
};
use crate::grammar::{
    is_err_line_exec, is_ok_line_exec, is_terminator_line_exec, parse_num_num, parse_num_token,
    parse_ok_num_num, parse_ok_num_token, strip_crlf_exec,
};
use crate::results::{
    expects_body, MetaView, POP3Command, POP3EmailMetadata, POP3EmailUidldata, POP3Result,
    ProtocolError, ResultView, UidlView,
};

verus! {

/// The views of a sequence of owned lines.
pub open spec fn lines_view(v: Seq<String>) -> Seq<Seq<char>> {
    v.map_values(|s: String| s@)
}

/// The views of a sequence of unique-id entries.
pub open spec fn uidl_entries_view(v: Seq<POP3EmailUidldata>) -> Seq<UidlView> {
    v.map_values(|e: POP3EmailUidldata| e@)
}

/// The views of a sequence of listing entries.
pub open spec fn meta_entries_view(v: Seq<POP3EmailMetadata>) -> Seq<MetaView> {
    v.map_values(|e: POP3EmailMetadata| e@)
}

/// Mathematical state of one exchange: whether it is complete, the lines
/// recorded so far, and the result once complete.
#[verifier::ext_equal]
pub struct ResponseModel {
    pub complete: bool,
    pub lines: Seq<Seq<char>>,
    pub result: Option<ResultView>,
}

/// The state a fresh accumulator starts in.
pub open spec fn init_model() -> ResponseModel {
    ResponseModel { complete: false, lines: Seq::empty(), result: None }
}

/// A completed exchange holds exactly one result; an incomplete one holds
/// none.
pub open spec fn model_wf(m: ResponseModel) -> bool {
    m.complete <==> m.result is Some
}

/// The listing entry a body line of a full listing reply denotes, if the
/// line is well-formed and its numbers fit the result fields.
pub open spec fn list_entry_of(l: Seq<char>) -> Option<MetaView> {
    match parse_pair_num_num(l) {
        Some(p) => if fits_i32(p.0) && fits_i32(p.1) {
            Some(MetaView { message_id: p.0, message_size: p.1 })
        } else {
            None
        },
        None => None,
    }
}

/// The unique-id entry a body line of a full unique-id reply denotes.
pub open spec fn uidl_entry_of(l: Seq<char>) -> Option<UidlView> {
    match parse_pair_num_token(l) {
        Some(p) => if fits_i32(p.0) {
            Some(UidlView { message_id: p.0, message_uid: p.1 })
        } else {
            None
        },
        None => None,
    }
}

/// All entries of a full listing body, or `None` if any line is malformed.
pub open spec fn parse_list_body(body: Seq<Seq<char>>) -> Option<Seq<MetaView>>
    decreases body.len(),
{
    if body.len() == 0 {
        Some(Seq::empty())
    } else {
        match (parse_list_body(body.drop_last()), list_entry_of(body.last())) {
            (Some(es), Some(e)) => Some(es.push(e)),
            _ => None,
        }
    }
}

/// All entries of a full unique-id body, or `None` if any line is malformed.
pub open spec fn parse_uidl_body(body: Seq<Seq<char>>) -> Option<Seq<UidlView>>
    decreases body.len(),
{
    if body.len() == 0 {
        Some(Seq::empty())
    } else {
        match (parse_uidl_body(body.drop_last()), uidl_entry_of(body.last())) {
            (Some(es), Some(e)) => Some(es.push(e)),
            _ => None,
        }
    }
}

/// The content of a retrieved message: each body line with its line ending
/// removed. Never fails: message content is kept verbatim.
///
/// Open issue, kept deliberately: the protocol's dot-stuffing convention (a
/// body line that begins with a literal dot is sent doubled so it is not
/// mistaken for the terminator) is not reversed here — body lines are kept
/// exactly as received, and a caller that needs un-stuffing must apply it.
pub open spec fn message_body(body: Seq<Seq<char>>) -> Seq<Seq<char>> {
    body.map_values(|l: Seq<char>| strip_crlf(l))
}

/// The result a success status line denotes for a command whose exchange is
/// a single line; `None` if the payload the command calls for is malformed
/// or does not fit the result fields.
pub open spec fn first_line_result(command: POP3Command, l: Seq<char>) -> Option<ResultView> {
    match command {
        POP3Command::Stat => match parse_stat_line(l) {
            Some(p) => if fits_i32(p.0) && fits_i32(p.1) {
                Some(ResultView::Stat { num_email: p.0, mailbox_size: p.1 })
            } else {
                None
            },
            None => None,
        },
        POP3Command::ListOne => match parse_stat_line(l) {
            Some(p) => if fits_i32(p.0) && fits_i32(p.1) {
                Some(
                    ResultView::List {
                        entries: seq![MetaView { message_id: p.0, message_size: p.1 }],
                    },
                )
            } else {
                None
            },
            None => None,
        },
        POP3Command::UidlOne => match parse_uidl_one_line(l) {
            Some(p) => if fits_i32(p.0) {
                Some(
                    ResultView::Uidl {
                        entries: seq![UidlView { message_id: p.0, message_uid: p.1 }],
                    },
                )
            } else {
                None
            },
            None => None,
        },
        _ => Some(ResultView::Acknowledgment),
    }
}

/// The result the accumulated body lines denote once the terminator has
/// arrived; `None` if a body line is malformed for the command.
pub open spec fn body_result(command: POP3Command, body: Seq<Seq<char>>) -> Option<ResultView> {
    match command {
        POP3Command::UidlAll => match parse_uidl_body(body) {
            Some(es) => Some(ResultView::Uidl { entries: es }),
            None => None,
        },
        POP3Command::ListAll => match parse_list_body(body) {
            Some(es) => Some(ResultView::List { entries: es }),
            None => None,
        },
        POP3Command::Retr => Some(ResultView::Message { raw: message_body(body) }),
        _ => Some(ResultView::Acknowledgment),
    }
}

/// One transition of the accumulator on the next framed line. `None` is a
/// protocol error: the line does not fit the grammar the state expects.
pub open spec fn step(m: ResponseModel, line: Seq<char>, command: POP3Command) -> Option<
    ResponseModel,
> {
    if m.lines.len() == 0 {
        if is_ok_line(line) {
            if expects_body(command) {
                Some(
                    ResponseModel { complete: false, lines: m.lines.push(line), result: m.result },
                )
            } else {
                match first_line_result(command, line) {
                    Some(rv) => Some(
                        ResponseModel {
                            complete: true,
                            lines: m.lines.push(line),
                            result: Some(rv),
                        },
                    ),
                    None => None,
                }
            }
        } else if is_err_line(line) {
            Some(
                ResponseModel {
                    complete: true,
                    lines: m.lines.push(line),
                    result: Some(ResultView::Failure),
                },
            )
        } else {
            None
        }
    } else {
        if is_terminator_line(line) {
            match body_result(command, m.lines.skip(1)) {
                Some(rv) => Some(
                    ResponseModel { complete: true, lines: m.lines.push(line), result: Some(rv) },
                ),
                None => None,
            }
        } else {
            Some(ResponseModel { complete: m.complete, lines: m.lines.push(line), result: m.result })
        }
    }
}

/// A whole exchange: fold `step` over the framed lines from the fresh state,
/// ignoring lines after completion. A line the grammar refuses fails the
/// whole transcript with the protocol error of the state it arrived in: a
/// refused first line is a malformed status line, a refused terminator-time
/// body is a malformed body line.
pub open spec fn run(command: POP3Command, lines: Seq<Seq<char>>) -> Result<
    ResponseModel,
    ProtocolError,
>
    decreases lines.len(),
{
    if lines.len() == 0 {
        Ok(init_model())
    } else {
        match run(command, lines.drop_last()) {
            Err(e) => Err(e),
            Ok(m) => if m.complete {
                Ok(m)
            } else {
                match step(m, lines.last(), command) {
                    Some(next) => Ok(next),
                    None => if m.lines.len() == 0 {
                        Err(ProtocolError::MalformedStatusLine)
                    } else {
                        Err(ProtocolError::MalformedBodyLine)
                    },
                }
            },
        }
    }
}

/// Per-exchange accumulator state: created fresh per command, fed one framed
/// line at a time, consumed once `complete` is true.
#[derive(Debug)]
pub struct POP3Response {
    pub complete: bool,
    pub lines: Vec<String>,
    pub result: Option<POP3Result>,
}

impl View for POP3Response {
    type V = ResponseModel;

    open spec fn view(&self) -> ResponseModel {
        ResponseModel {
            complete: self.complete,
            lines: lines_view(self.lines@),
            result: match self.result {
                Option::Some(r) => Some(r@),
                Option::None => None,
            },
        }
    }
}

impl POP3Response {
    /// A fresh accumulator: incomplete, no lines, no result.
    pub fn new() -> (r: POP3Response)
        ensures
            r@ == init_model(),
    {
        let r = POP3Response { complete: false, lines: Vec::new(), result: None };
        proof {
            assert(r@ =~~= init_model());
        }
        r
    }

    /// Feed the next framed line to the accumulator. Follows [`step`]
    /// exactly: the first line must be a status line and decides (with the
    /// command tag) whether the exchange completes at once or a body
    /// follows; body lines accumulate until the terminator, which closes the
    /// exchange with the parsed result. A line the grammar refuses returns a
    /// protocol error and leaves the accumulator unchanged.
    pub fn add_line(&mut self, line: String, command: POP3Command) -> (r: Result<
        (),
        ProtocolError,
    >)
        requires
            !old(self)@.complete,
        ensures
            match step(old(self)@, line@, command) {
                Some(m) => r is Ok && final(self)@ == m,
                None => {
                    &&& r is Err
                    &&& final(self)@ == old(self)@
                    &&& (old(self)@.lines.len() == 0 ==> r == Err::<(), ProtocolError>(
                        ProtocolError::MalformedStatusLine,
                    ))
                    &&& (old(self)@.lines.len() > 0 ==> r == Err::<(), ProtocolError>(
                        ProtocolError::MalformedBodyLine,
                    ))
                },
            },
    {
        let ghost m0 = self@;
        let ghost lv = line@;
        if self.lines.len() == 0 {
            if is_ok_line_exec(line.as_str()) {
                match command {
                    POP3Command::Greet | POP3Command::User | POP3Command::Pass | POP3Command::Quit
                        | POP3Command::Dele | POP3Command::Rset | POP3Command::Noop => {
                        self.lines.push(line);
                        self.result = Some(POP3Result::POP3Ok);
                        self.complete = true;
                        proof {
                            assert(self@.lines =~= m0.lines.push(lv));
                            assert(self@ =~~= step(m0, lv, command).unwrap());
                        }
                        Ok(())
                    },
                    POP3Command::Stat => {
                        self.lines.push(line);
                        proof {
                            assert(self@.lines =~= m0.lines.push(lv));
                        }
                        match self.parse_stat() {
                            Ok(res) => {
                                self.result = Some(res);
                                self.complete = true;
                                proof {
                                    assert(self@ =~~= step(m0, lv, command).unwrap());
                                }
                                Ok(())
                            },
                            Err(e) => {
                                self.lines.pop();
                                proof {
                                    assert(m0.lines.push(lv).drop_last() =~= m0.lines);
                                    assert(self@ =~~= m0);
                                }
                                Err(e)
                            },
                        }
                    },
                    POP3Command::UidlOne => {
                        self.lines.push(line);
                        proof {
                            assert(self@.lines =~= m0.lines.push(lv));
                        }
                        match self.parse_uidl_one() {
                            Ok(res) => {
                                self.result = Some(res);
                                self.complete = true;
                                proof {
                                    assert(self@ =~~= step(m0, lv, command).unwrap());
                                }
                                Ok(())
                            },
                            Err(e) => {
                                self.lines.pop();
                                proof {
                                    assert(m0.lines.push(lv).drop_last() =~= m0.lines);
                                    assert(self@ =~~= m0);
                                }
                                Err(e)
                            },
                        }
                    },
                    POP3Command::ListOne => {
                        self.lines.push(line);
                        proof {
                            assert(self@.lines =~= m0.lines.push(lv));
                        }
                        match self.parse_list_one() {
                            Ok(res) => {
                                self.result = Some(res);
                                self.complete = true;
                                proof {
                                    assert(self@ =~~= step(m0, lv, command).unwrap());
                                }
                                Ok(())
                            },
                            Err(e) => {
                                self.lines.pop();
                                proof {
                                    assert(m0.lines.push(lv).drop_last() =~= m0.lines);
                                    assert(self@ =~~= m0);
                                }
                                Err(e)
                            },
                        }
                    },
                    POP3Command::UidlAll | POP3Command::ListAll | POP3Command::Retr => {
                        self.lines.push(line);
                        proof {
                            assert(self@.lines =~= m0.lines.push(lv));
                            assert(self@ =~~= step(m0, lv, command).unwrap());
                        }
                        Ok(())
                    },
                }
            } else if is_err_line_exec(line.as_str()) {
                self.lines.push(line);
                self.result = Some(POP3Result::POP3Err);
                self.complete = true;
                proof {
                    assert(self@.lines =~= m0.lines.push(lv));
                    assert(self@ =~~= step(m0, lv, command).unwrap());
                }
                Ok(())
            } else {
                Err(ProtocolError::MalformedStatusLine)
            }
        } else {
            if is_terminator_line_exec(line.as_str()) {
                self.lines.push(line);
                proof {
                    assert(self@.lines =~= m0.lines.push(lv));
                    assert(self@.lines.subrange(1, self@.lines.len() - 1) =~= m0.lines.skip(1));
                }
                match command {
                    POP3Command::UidlAll => {
                        match self.parse_uidl_all() {
                            Ok(res) => {
                                self.result = Some(res);
                                self.complete = true;
                                proof {
                                    assert(self@ =~~= step(m0, lv, command).unwrap());
                                }
                                Ok(())
                            },
                            Err(e) => {
                                self.lines.pop();
                                proof {
                                    assert(m0.lines.push(lv).drop_last() =~= m0.lines);
                                    assert(self@ =~~= m0);
                                }
                                Err(e)
                            },
                        }
                    },
                    POP3Command::ListAll => {
                        match self.parse_list_all() {
                            Ok(res) => {
                                self.result = Some(res);
                                self.complete = true;
                                proof {
                                    assert(self@ =~~= step(m0, lv, command).unwrap());
                                }
                                Ok(())
                            },
                            Err(e) => {
                                self.lines.pop();
                                proof {
                                    assert(m0.lines.push(lv).drop_last() =~= m0.lines);
                                    assert(self@ =~~= m0);
                                }
                                Err(e)
                            },
                        }
                    },
                    POP3Command::Retr => {
                        let res = self.parse_message();
                        self.result = Some(res);
                        self.complete = true;
                        proof {
                            assert(self@ =~~= step(m0, lv, command).unwrap());
                        }
                        Ok(())
                    },
                    _ => {
                        self.result = Some(POP3Result::POP3Ok);
                        self.complete = true;
                        proof {
                            assert(self@ =~~= step(m0, lv, command).unwrap());
                        }
                        Ok(())
                    },
                }
            } else {
                self.lines.push(line);
                proof {
                    assert(self@.lines =~= m0.lines.push(lv));
                    assert(self@ =~~= step(m0, lv, command).unwrap());
                }
                Ok(())
            }
        }
    }

    /// Parse the recorded status line as mailbox statistics: message count
    /// and total mailbox size.
    pub fn parse_stat(&self) -> (r: Result<POP3Result, ProtocolError>)
        requires
            self@.lines.len() >= 1,
        ensures
            match first_line_result(POP3Command::Stat, self@.lines[0]) {
                Some(rv) => r matches Ok(res) && res@ == rv,
                None => r == Err::<POP3Result, ProtocolError>(ProtocolError::MalformedStatusLine),
            },
    {
        let line = &self.lines[0];
        match parse_ok_num_num(line.as_str()) {
            Some((a, b)) => Ok(POP3Result::POP3Stat { num_email: a, mailbox_size: b }),
            None => Err(ProtocolError::MalformedStatusLine),
        }
    }

    /// Parse the recorded status line as a single-entry listing.
    pub fn parse_list_one(&self) -> (r: Result<POP3Result, ProtocolError>)
        requires
            self@.lines.len() >= 1,
        ensures
            match first_line_result(POP3Command::ListOne, self@.lines[0]) {
                Some(rv) => r matches Ok(res) && res@ == rv,
                None => r == Err::<POP3Result, ProtocolError>(ProtocolError::MalformedStatusLine),
            },
    {
        let line = &self.lines[0];
        match parse_ok_num_num(line.as_str()) {
            Some((a, b)) => {
                let entry = POP3EmailMetadata { message_id: a, message_size: b };
                let res = POP3Result::POP3List { emails_metadata: vec![entry] };
                proof {
                    assert(meta_entries_view(seq![entry]) =~= seq![entry@]);
                }
                Ok(res)
            },
            None => Err(ProtocolError::MalformedStatusLine),
        }
    }

    /// Parse the recorded status line as a single-entry unique-id listing.
    pub fn parse_uidl_one(&self) -> (r: Result<POP3Result, ProtocolError>)
        requires
            self@.lines.len() >= 1,
        ensures
            match first_line_result(POP3Command::UidlOne, self@.lines[0]) {
                Some(rv) => r matches Ok(res) && res@ == rv,
                None => r == Err::<POP3Result, ProtocolError>(ProtocolError::MalformedStatusLine),
            },
    {
        let line = &self.lines[0];
        match parse_ok_num_token(line.as_str()) {
            Some((a, tok)) => {
                let entry = POP3EmailUidldata { message_id: a, message_uid: tok };
                let res = POP3Result::POP3Uidl { emails_metadata: vec![entry] };
                proof {
                    assert(uidl_entries_view(seq![entry]) =~= seq![entry@]);
                    assert(first_line_result(POP3Command::UidlOne, self@.lines[0])
                        =~~= Some(res@));
                }
                Ok(res)
            },
            None => Err(ProtocolError::MalformedStatusLine),
        }
    }

    /// Parse the recorded body lines (between status line and terminator) as
    /// a full listing.
    pub fn parse_list_all(&self) -> (r: Result<POP3Result, ProtocolError>)
        requires
            self@.lines.len() >= 2,
        ensures
            match parse_list_body(self@.lines.subrange(1, self@.lines.len() - 1)) {
                Some(es) => r matches Ok(res) && res@ == (ResultView::List { entries: es }),
                None => r == Err::<POP3Result, ProtocolError>(ProtocolError::MalformedBodyLine),
            },
    {
        let ghost body = self@.lines.subrange(1, self@.lines.len() - 1);
        let n = self.lines.len();
        let mut metadata: Vec<POP3EmailMetadata> = Vec::new();
        let mut i: usize = 1;
        while i < n - 1
            invariant
                2 <= n == self.lines.len(),
                1 <= i <= n - 1,
                body == self@.lines.subrange(1, n - 1),
                parse_list_body(self@.lines.subrange(1, i as int)) == Some(
                    meta_entries_view(metadata@),
                ),
            decreases n - 1 - i,
        {
            let line = &self.lines[i];
            match parse_num_num(line.as_str(), 0) {
                Some((a, b)) => {
                    let entry = POP3EmailMetadata { message_id: a, message_size: b };
                    proof {
                        let prefix = self@.lines.subrange(1, i as int + 1);
                        assert(line@.skip(0) =~= line@);
                        assert(prefix.drop_last() =~= self@.lines.subrange(1, i as int));
                        assert(prefix.last() == line@);
                        assert(meta_entries_view(metadata@.push(entry)) =~= meta_entries_view(
                            metadata@,
                        ).push(entry@));
                    }
                    metadata.push(entry);
                },
                None => {
                    proof {
                        assert(line@.skip(0) =~= line@);
                        assert(body[i - 1] == line@);
                        lemma_list_body_fail(body, i - 1);
                    }
                    return Err(ProtocolError::MalformedBodyLine);
                },
            }
            i = i + 1;
        }
        assert(self@.lines.subrange(1, i as int) == body);
        let res = POP3Result::POP3List { emails_metadata: metadata };
        proof {
            assert(res@ =~~= (ResultView::List { entries: meta_entries_view(metadata@) }));
        }
        Ok(res)
    }

    /// Parse the recorded body lines as a full unique-id listing.
    pub fn parse_uidl_all(&self) -> (r: Result<POP3Result, ProtocolError>)
        requires
            self@.lines.len() >= 2,
        ensures
            match parse_uidl_body(self@.lines.subrange(1, self@.lines.len() - 1)) {
                Some(es) => r matches Ok(res) && res@ == (ResultView::Uidl { entries: es }),
                None => r == Err::<POP3Result, ProtocolError>(ProtocolError::MalformedBodyLine),
            },
    {
        let ghost body = self@.lines.subrange(1, self@.lines.len() - 1);
        let n = self.lines.len();
        let mut metadata: Vec<POP3EmailUidldata> = Vec::new();
        let mut i: usize = 1;
        while i < n - 1
            invariant
                2 <= n == self.lines.len(),
                1 <= i <= n - 1,
                body == self@.lines.subrange(1, n - 1),
                parse_uidl_body(self@.lines.subrange(1, i as int)) == Some(
                    uidl_entries_view(metadata@),
                ),
            decreases n - 1 - i,
        {
            let line = &self.lines[i];
            match parse_num_token(line.as_str(), 0) {
                Some((a, tok)) => {
                    let entry = POP3EmailUidldata { message_id: a, message_uid: tok };
                    proof {
                        let prefix = self@.lines.subrange(1, i as int + 1);
                        assert(line@.skip(0) =~= line@);
                        assert(prefix.drop_last() =~= self@.lines.subrange(1, i as int));
                        assert(prefix.last() == line@);
                        assert(uidl_entry_of(line@) =~~= Some(entry@));
                        assert(uidl_entries_view(metadata@.push(entry)) =~= uidl_entries_view(
                            metadata@,
                        ).push(entry@));
                    }
                    metadata.push(entry);
                },
                None => {
                    proof {
                        assert(line@.skip(0) =~= line@);
                        assert(body[i - 1] == line@);
                        lemma_uidl_body_fail(body, i - 1);
                    }
                    return Err(ProtocolError::MalformedBodyLine);
                },
            }
            i = i + 1;
        }
        assert(self@.lines.subrange(1, i as int) == body);
        let res = POP3Result::POP3Uidl { emails_metadata: metadata };
        proof {
            assert(res@ =~~= (ResultView::Uidl { entries: uidl_entries_view(metadata@) }));
        }
        Ok(res)
    }

    /// Collect the recorded body lines as message content, line endings
    /// stripped. Message content is kept verbatim, so this cannot fail.
    pub fn parse_message(&self) -> (r: POP3Result)
        requires
            self@.lines.len() >= 2,
        ensures
            r@ == (ResultView::Message {
                raw: message_body(self@.lines.subrange(1, self@.lines.len() - 1)),
            }),
    {
        let ghost body = self@.lines.subrange(1, self@.lines.len() - 1);
        let n = self.lines.len();
        let mut raw: Vec<String> = Vec::new();
        let mut i: usize = 1;
        while i < n - 1
            invariant
                2 <= n == self.lines.len(),
                1 <= i <= n - 1,
                body == self@.lines.subrange(1, n - 1),
                lines_view(raw@) == message_body(self@.lines.subrange(1, i as int)),
            decreases n - 1 - i,
        {
            let line = &self.lines[i];
            let stripped = strip_crlf_exec(line);
            proof {
                let sofar = self@.lines.subrange(1, i as int);
                let prefix = self@.lines.subrange(1, i as int + 1);
                assert(prefix.drop_last() =~= sofar);
                assert(prefix.last() == line@);
                let lhs = lines_view(raw@.push(stripped));
                let rhs = message_body(prefix);
                assert(lines_view(raw@).len() == raw@.len());
                assert(message_body(sofar).len() == sofar.len());
                assert(raw@.len() == sofar.len());
                assert forall|j: int| 0 <= j < lhs.len() implies lhs[j] == rhs[j] by {
                    assert(rhs[j] == strip_crlf(prefix[j]));
                    assert(lhs[j] == raw@.push(stripped)[j]@);
                    if j < lhs.len() - 1 {
                        assert(raw@.push(stripped)[j] == raw@[j]);
                        assert(lines_view(raw@)[j] == raw@[j]@);
                        assert(message_body(sofar)[j] == strip_crlf(sofar[j]));
                        assert(prefix[j] == sofar[j]);
                    } else {
                        assert(raw@.push(stripped)[j] == stripped);
                        assert(prefix[j] == line@);
                    }
                }
                assert(lhs =~= rhs);
            }
            raw.push(stripped);
            i = i + 1;
        }
        assert(self@.lines.subrange(1, i as int) == body);
        let res = POP3Result::POP3Message { raw };
        proof {
            assert(res@ =~~= (ResultView::Message { raw: message_body(body) }));
        }
        res
    }
}

/// Once a run has completed, the lines that follow do not change it.
pub proof fn lemma_run_complete_stable(command: POP3Command, lines: Seq<Seq<char>>, i: int)
    requires
        0 <= i <= lines.len(),
        run(command, lines.take(i)) matches Ok(m) && m.complete,
    ensures
        run(command, lines) == run(command, lines.take(i)),
    decreases lines.len() - i,
{
    if i < lines.len() {
        assert(lines.take(i + 1).drop_last() =~= lines.take(i));
        lemma_run_complete_stable(command, lines, i + 1);
    } else {
        assert(lines.take(i) =~= lines);
    }
}

/// Once a run has failed, the lines that follow cannot mend it, nor change
/// which error it failed with.
pub proof fn lemma_run_err_stable(command: POP3Command, lines: Seq<Seq<char>>, i: int)
    requires
        0 <= i <= lines.len(),
        run(command, lines.take(i)) is Err,
    ensures
        run(command, lines) == run(command, lines.take(i)),
    decreases lines.len() - i,
{
    if i < lines.len() {
        assert(lines.take(i + 1).drop_last() =~= lines.take(i));
        lemma_run_err_stable(command, lines, i + 1);
    } else {
        assert(lines.take(i) =~= lines);
    }
}

/// Drive one whole exchange over a captured transcript: fold the framed
/// lines into a fresh accumulator until it completes. Lines after completion
/// are ignored, as [`run`] ignores them; a transcript the grammar refuses
/// returns the protocol error of the offending line.
pub fn run_exchange(command: POP3Command, lines: &Vec<String>) -> (r: Result<
    POP3Response,
    ProtocolError,
>)
    ensures
        match run(command, lines_view(lines@)) {
            Ok(m) => r matches Ok(resp) && resp@ == m,
            Err(e) => r == Err::<POP3Response, ProtocolError>(e),
        },
{
    let ghost lv = lines_view(lines@);
    let mut resp = POP3Response::new();
    proof {
        assert(lv.take(0) =~= Seq::<Seq<char>>::empty());
    }
    let n = lines.len();
    let mut i: usize = 0;
    while i < n
        invariant
            0 <= i <= n,
            n == lines@.len(),
            lv == lines_view(lines@),
            run(command, lv.take(i as int)) == Ok::<ResponseModel, ProtocolError>(resp@),
        decreases n - i,
    {
        if resp.complete {
            proof {
                lemma_run_complete_stable(command, lv, i as int);
            }
            return Ok(resp);
        }
        let line = lines[i].clone();
        match resp.add_line(line, command) {
            Ok(()) => {
                proof {
                    assert(lv.take(i as int + 1).drop_last() =~= lv.take(i as int));
                    assert(lv.take(i as int + 1).last() == line@);
                }
            },
            Err(e) => {
                proof {
                    assert(lv.take(i as int + 1).drop_last() =~= lv.take(i as int));
                    assert(lv.take(i as int + 1).last() == line@);
                    assert(run(command, lv.take(i as int + 1)) == Err::<
                        ResponseModel,
                        ProtocolError,
                    >(e));
                    lemma_run_err_stable(command, lv, i as int + 1);
                }
                return Err(e);
            },
        }
        i = i + 1;
    }
    proof {
        assert(lv.take(i as int) =~= lv);
    }
    Ok(resp)
}

/// A malformed line anywhere in a listing body makes the whole body parse
/// fail.
pub proof fn lemma_list_body_fail(body: Seq<Seq<char>>, k: int)
    requires
        0 <= k < body.len(),
        list_entry_of(body[k]) is None,
    ensures
        parse_list_body(body) is None,
    decreases body.len(),
{
    if k < body.len() - 1 {
        lemma_list_body_fail(body.drop_last(), k);
    }
}

/// A malformed line anywhere in a unique-id body makes the whole body parse
/// fail.
pub proof fn lemma_uidl_body_fail(body: Seq<Seq<char>>, k: int)
    requires
        0 <= k < body.len(),
        uidl_entry_of(body[k]) is None,
    ensures
        parse_uidl_body(body) is None,
    decreases body.len(),
{
    if k < body.len() - 1 {
        lemma_uidl_body_fail(body.drop_last(), k);
    }
}

} // verus!
