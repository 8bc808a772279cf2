//! Protocol-level laws of the accumulator, stated and proved over the
//! mathematical model of an exchange.

use vstd::prelude::*;

use crate::grammar::{is_err_line, is_ok_line, is_terminator_line};
use crate::response::{init_model, model_wf, run, step, ResponseModel};
use crate::results::{expects_body, POP3Command, ProtocolError, ResultView};

verus! {

/// Law: the greeting alone decides connection setup. A greeting that begins
/// with the success marker completes the exchange with an acknowledgment; one
/// that begins with the failure marker completes it with the server's
/// failure; any other greeting is a protocol error.
pub proof fn lemma_greeting_decides(l: Seq<char>)
    ensures
        is_ok_line(l) ==> run(POP3Command::Greet, seq![l]) == Ok::<ResponseModel, ProtocolError>(
            ResponseModel {
                complete: true,
                lines: seq![l],
                result: Some(ResultView::Acknowledgment),
            },
        ),
        !is_ok_line(l) && is_err_line(l) ==> run(POP3Command::Greet, seq![l]) == Ok::<
            ResponseModel,
            ProtocolError,
        >(ResponseModel { complete: true, lines: seq![l], result: Some(ResultView::Failure) }),
        !is_ok_line(l) && !is_err_line(l) ==> run(POP3Command::Greet, seq![l]) == Err::<
            ResponseModel,
            ProtocolError,
        >(ProtocolError::MalformedStatusLine),
{
    let ls = seq![l];
    assert(ls.drop_last() =~= Seq::<Seq<char>>::empty());
    assert(init_model().lines.push(l) =~= ls);
    assert(run(POP3Command::Greet, ls.drop_last()) == Ok::<ResponseModel, ProtocolError>(
        init_model(),
    ));
    if is_ok_line(l) {
        let m = ResponseModel {
            complete: true,
            lines: ls,
            result: Some(ResultView::Acknowledgment),
        };
        assert((ResponseModel {
            complete: true,
            lines: init_model().lines.push(l),
            result: Some(ResultView::Acknowledgment),
        }) =~~= m);
        assert(step(init_model(), l, POP3Command::Greet) == Some(m));
        assert(run(POP3Command::Greet, ls) == Ok::<ResponseModel, ProtocolError>(m));
    } else if is_err_line(l) {
        let m = ResponseModel { complete: true, lines: ls, result: Some(ResultView::Failure) };
        assert((ResponseModel {
            complete: true,
            lines: init_model().lines.push(l),
            result: Some(ResultView::Failure),
        }) =~~= m);
        assert(step(init_model(), l, POP3Command::Greet) == Some(m));
        assert(run(POP3Command::Greet, ls) == Ok::<ResponseModel, ProtocolError>(m));
    } else {
        assert(step(init_model(), l, POP3Command::Greet) is None);
        assert(run(POP3Command::Greet, ls) == Err::<ResponseModel, ProtocolError>(
            ProtocolError::MalformedStatusLine,
        ));
    }
}

/// Law: parsing is pure. The outcome of an exchange is a function of the
/// command tag and the framed lines alone — there is no other state — so
/// parsing the same captured transcript twice yields identical outcomes.
pub proof fn lemma_exchange_deterministic(
    command: POP3Command,
    first: Seq<Seq<char>>,
    second: Seq<Seq<char>>,
)
    requires
        first == second,
    ensures
        run(command, first) == run(command, second),
{
}

/// Law: a multi-line exchange whose body never receives the terminator line
/// never completes, however many lines arrive. Every line is recorded, no
/// result is produced, and only a bound imposed outside the grammar can end
/// the wait.
pub proof fn lemma_no_terminator_never_completes(command: POP3Command, lines: Seq<Seq<char>>)
    requires
        expects_body(command),
        lines.len() >= 1,
        is_ok_line(lines[0]),
        forall|i: int| 1 <= i < lines.len() ==> !is_terminator_line(#[trigger] lines[i]),
    ensures
        run(command, lines) == Ok::<ResponseModel, ProtocolError>(
            ResponseModel { complete: false, lines: lines, result: None },
        ),
    decreases lines.len(),
{
    let m = ResponseModel { complete: false, lines: lines, result: None };
    if lines.len() == 1 {
        assert(lines.drop_last() =~= Seq::<Seq<char>>::empty());
        assert(init_model().lines.push(lines[0]) =~= lines);
        assert(run(command, lines.drop_last()) == Ok::<ResponseModel, ProtocolError>(
            init_model(),
        ));
        assert((ResponseModel {
            complete: false,
            lines: init_model().lines.push(lines[0]),
            result: None,
        }) =~~= m);
        assert(step(init_model(), lines[0], command) == Some(m));
        assert(run(command, lines) == Ok::<ResponseModel, ProtocolError>(m));
    } else {
        let front = lines.drop_last();
        assert(front[0] == lines[0]);
        assert(forall|i: int| 1 <= i < front.len() ==> !is_terminator_line(#[trigger] front[i]));
        lemma_no_terminator_never_completes(command, front);
        let fm = ResponseModel { complete: false, lines: front, result: None };
        assert(!is_terminator_line(lines.last()));
        assert(front.push(lines.last()) =~= lines);
        assert((ResponseModel { complete: false, lines: front.push(lines.last()), result: None })
            =~~= m);
        assert(step(fm, lines.last(), command) == Some(m));
        assert(run(command, lines) == Ok::<ResponseModel, ProtocolError>(m));
    }
}

/// Law: exactly one result per completed exchange. However a run ends, a
/// completed state holds a result and an incomplete state holds none — the
/// accumulator never holds a partially-populated result.
pub proof fn lemma_run_well_formed(command: POP3Command, lines: Seq<Seq<char>>)
    ensures
        run(command, lines) matches Ok(m) ==> model_wf(m),
    decreases lines.len(),
{
    if lines.len() > 0 {
        lemma_run_well_formed(command, lines.drop_last());
    }
}

} // verus!
