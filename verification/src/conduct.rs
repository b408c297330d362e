//! What can be relied on about how messages are dealt with.

use crate::actionrun::action_for;
use crate::chat::{chat_reply, no_chat_reply, ChatView};
use crate::devloop::is_high_risk;
use crate::dispatch::{
    next, possible_start, report_fits, start, start_retry, start_terminal, step_failed, with_plan,
    DispatchView, EventView, NextView, PhaseView, RequestView, Turn,
};
use crate::intent::{is_action, IntentView};
use crate::parser::{intent_of, settled_text_ignores_classifier, unclassified};
use crate::phrases::{
    chat_number_is_read, lemma_confirm_words, lemma_retry_word, terminal_text_is_command,
};
use crate::session::{is_meaningful, SessionMode, SessionView};
use crate::text::{
    decimal, is_blank, lemma_decimal_value, lemma_trim_end_join, lemma_trim_end_trim, trim,
    trim_end, trim_start,
};
use vstd::prelude::*;

verus! {

/// The request of a turn, where there is one.
pub open spec fn request_of(turn: Turn) -> Option<RequestView> {
    match turn.1 {
        NextView::Ask(request) => Some(request),
        NextView::Done { .. } => None,
    }
}

/// "继续" carries out the first of the steps that are left and keeps the others in
/// order.
pub proof fn continue_takes_first_step(
    text: Seq<char>,
    s: SessionView,
    again: Option<IntentView>,
    now: u64,
)
    requires
        s.pending_steps.len() > 0,
    ensures
        ({
            let turn = start(text, s, Some(IntentView::Continue), again, now);
            &&& request_of(turn) == Some(RequestView::RunStep(s.pending_steps[0]))
            &&& turn.0.session.pending_steps == s.pending_steps.skip(1)
        }),
{
}

/// "继续" carries out one step and no more.
pub proof fn continue_runs_one_step(d: DispatchView, event: EventView, now: u64)
    requires
        d.phase is Step || d.phase is StepSaved,
        report_fits(d.phase, event),
    ensures
        !(request_of(next(d, event, now)) matches Some(RequestView::RunStep(_))),
        next(d, event, now).0.session.pending_steps == d.session.pending_steps,
        d.phase is Step ==> next(d, event, now).0.session.last_result == Some(event->Text_0),
{
}

/// The session after one "继续" at a time `now`, given what came of the step.
pub open spec fn continued(s: SessionView, result: Seq<char>, now: u64) -> SessionView {
    next(
        start(seq![], s, Some(IntentView::Continue), None, now).0,
        EventView::Text(result),
        now,
    ).0.session
}

/// The session after several times "继续".
pub open spec fn continued_all(s: SessionView, results: Seq<Seq<char>>, now: u64) -> SessionView
    decreases results.len(),
{
    if results.len() == 0 {
        s
    } else {
        continued(continued_all(s, results.drop_last(), now), results.last(), now)
    }
}

/// By "继续" the steps of a plan are carried out in the order in which they were given,
/// none is left out, and none is carried out twice, whatever comes of each.
pub proof fn steps_run_in_order(s: SessionView, results: Seq<Seq<char>>, now: u64)
    requires
        results.len() < s.pending_steps.len(),
    ensures
        ({
            let t = continued_all(s, results, now);
            let turn = start(seq![], t, Some(IntentView::Continue), None, now);
            &&& t.pending_steps == s.pending_steps.skip(results.len() as int)
            &&& request_of(turn) == Some(
                RequestView::RunStep(s.pending_steps[results.len() as int]),
            )
        }),
    decreases results.len(),
{
    if results.len() == 0 {
        assert(s.pending_steps.skip(0) =~= s.pending_steps);
    } else {
        steps_run_in_order(s, results.drop_last(), now);
        assert(s.pending_steps.skip(results.len() - 1).skip(1) =~= s.pending_steps.skip(
            results.len() as int,
        ));
    }
}

/// "执行全部" goes through the steps in order: after a step that has not failed the
/// next one is carried out, with all outputs so far kept.
pub proof fn continue_all_goes_on(d: DispatchView, event: EventView, now: u64)
    requires
        d.phase is AllStep,
        report_fits(d.phase, event),
        !step_failed(event->Text_0),
        d.session.pending_steps.len() > 0,
    ensures
        ({
            let turn = next(d, event, now);
            &&& request_of(turn) == Some(RequestView::RunStep(d.session.pending_steps[0]))
            &&& turn.0.session.pending_steps == d.session.pending_steps.skip(1)
            &&& turn.0.phase matches PhaseView::AllStep(step, outputs)
            &&& step == d.session.pending_steps[0]
            &&& outputs.drop_last() == d.phase->AllStep_1
        }),
{
    let outputs = d.phase->AllStep_1;
    let noted = next(d, event, now).0.phase->AllStep_1;
    assert(noted.drop_last() =~= outputs);
}

/// "执行全部" stops at the first step that fails, and what is left of the plan stays.
pub proof fn continue_all_stops_at_failure(d: DispatchView, event: EventView, now: u64)
    requires
        d.phase is AllStep,
        report_fits(d.phase, event),
        step_failed(event->Text_0),
    ensures
        !(request_of(next(d, event, now)) matches Some(RequestView::RunStep(_))),
        next(d, event, now).0.session.pending_steps == d.session.pending_steps,
        next(d, event, now).0.session.last_result == Some(event->Text_0),
{
}

/// "执行全部" ends: with every step that is carried out there is one less.
pub proof fn continue_all_ends(d: DispatchView, event: EventView, now: u64)
    requires
        d.phase is AllStep,
        report_fits(d.phase, event),
    ensures
        next(d, event, now).0.phase is AllStep ==> next(d, event, now).0.session.pending_steps.len()
            < d.session.pending_steps.len(),
{
}

/// A step of a plan is carried out only at the word of the user, or because the one
/// before it has not failed.
pub proof fn steps_run_only_when_asked(
    text: Seq<char>,
    s: SessionView,
    intent: Option<IntentView>,
    again: Option<IntentView>,
    d: DispatchView,
    event: EventView,
    now: u64,
    step: Seq<char>,
)
    requires
        report_fits(d.phase, event),
    ensures
        request_of(start(text, s, intent, again, now)) == Some(RequestView::RunStep(step)) ==> (
        intent == Some(IntentView::Continue) || intent == Some(IntentView::ContinueAll)),
        request_of(next(d, event, now)) == Some(RequestView::RunStep(step)) ==> d.phase is AllStep
            && !step_failed(event->Text_0),
{
}

/// A terminal command that a message gives is run at once only if it is harmless. One
/// that is not waits, and is run only when a message confirms it.
pub proof fn risky_command_is_confirmed(
    text: Seq<char>,
    s: SessionView,
    intent: Option<IntentView>,
    again: Option<IntentView>,
    d: DispatchView,
    event: EventView,
    now: u64,
    command: Seq<char>,
)
    requires
        report_fits(d.phase, event),
    ensures
        request_of(start(text, s, intent, again, now)) == Some(RequestView::RunTerminal(command))
            ==> (intent == Some(IntentView::TerminalRun(command)) && !is_high_risk(command)) || (
        intent == Some(IntentView::Retry) && again == Some(IntentView::TerminalRun(command))
            && !is_high_risk(command)) || (intent == Some(IntentView::TerminalConfirm)
            && s.pending_terminal_command == Some(command)),
        request_of(next(d, event, now)) != Some(RequestView::RunTerminal(command)),
        is_high_risk(command) ==> ({
            let turn = start(text, s, Some(IntentView::TerminalRun(command)), again, now);
            &&& turn.1 is Done
            &&& turn.0.session == (SessionView {
                pending_terminal_command: Some(command),
                updated_at: now,
                ..s
            })
        }),
{
}

/// A command that was confirmed waits no longer, so that it is run once.
pub proof fn confirmed_command_runs_once(
    text: Seq<char>,
    s: SessionView,
    again: Option<IntentView>,
    now: u64,
)
    ensures
        ({
            let turn = start(text, s, Some(IntentView::TerminalConfirm), again, now);
            &&& turn.0.session.pending_terminal_command is None
            &&& turn.1 is Ask <==> s.pending_terminal_command is Some
        }),
{
}

/// A command that is cancelled is neither run nor kept.
pub proof fn cancelled_command_is_dropped(
    text: Seq<char>,
    s: SessionView,
    again: Option<IntentView>,
    now: u64,
)
    ensures
        ({
            let turn = start(text, s, Some(IntentView::TerminalCancel), again, now);
            &&& turn.1 is Done
            &&& turn.0.session.pending_terminal_command is None
        }),
{
}

/// A new plan replaces the old one: the task and the steps are those of the message,
/// and what was worth keeping is saved first.
pub proof fn plan_is_recorded(
    text: Seq<char>,
    s: SessionView,
    again: Option<IntentView>,
    description: Seq<char>,
    steps: Seq<Seq<char>>,
    saved: EventView,
    now: u64,
)
    requires
        saved is Saved,
    ensures
        ({
            let plan = IntentView::SetPlan { description, steps };
            let first = start(text, s, Some(plan), again, now);
            let last = if is_meaningful(s) {
                next(first.0, saved, now)
            } else {
                first
            };
            &&& is_meaningful(s) ==> request_of(first) == Some(
                RequestView::SaveSnapshot(Some("auto-before-new-plan"@)),
            ) && first.0.session == s
            &&& last.1 is Done
            &&& last.0.session == with_plan(s, description, steps, now)
        }),
{
}

/// Asking how things stand changes nothing.
pub proof fn status_changes_nothing(
    text: Seq<char>,
    s: SessionView,
    again: Option<IntentView>,
    now: u64,
)
    ensures
        ({
            let turn = start(text, s, Some(IntentView::Status), again, now);
            &&& turn.1 is Done
            &&& turn.0.session == s
        }),
{
}

/// An action is remembered with its text and its result, so that it can be carried out
/// again, and brings the session back to coding.
pub proof fn action_is_remembered(
    text: Seq<char>,
    s: SessionView,
    intent: IntentView,
    again: Option<IntentView>,
    result: Seq<char>,
    now: u64,
)
    requires
        is_action(intent),
    ensures
        ({
            let first = start(text, s, Some(intent), again, now);
            let last = next(first.0, EventView::Text(result), now);
            &&& request_of(first) matches Some(RequestView::RunAction(_))
            &&& last.1 == NextView::Done { reply: result, restart: None, save: true }
            &&& last.0.session == SessionView {
                last_action: Some(text),
                last_result: Some(result),
                mode: SessionMode::Coding,
                updated_at: now,
                ..s
            }
        }),
{
}

/// Carrying out the last action again keeps it the last action, so that it can be
/// carried out once more.
pub proof fn retry_keeps_last_action(
    text: Seq<char>,
    s: SessionView,
    again: IntentView,
    result: Seq<char>,
    now: u64,
)
    requires
        s.last_action is Some,
        is_action(again),
    ensures
        ({
            let first = start(text, s, Some(IntentView::Retry), Some(again), now);
            let last = next(first.0, EventView::Text(result), now);
            &&& request_of(first) == Some(RequestView::RunAction(action_for(again)->0))
            &&& last.0.session == SessionView {
                last_result: Some(result),
                updated_at: now,
                ..s
            }
        }),
{
}

/// A session that is cleared is removed from the store and not saved again, and what
/// was worth keeping of it is saved as a snapshot first.
pub proof fn cleared_session_is_gone(
    text: Seq<char>,
    s: SessionView,
    again: Option<IntentView>,
    saved: EventView,
    now: u64,
)
    requires
        saved is Saved,
    ensures
        ({
            let first = start(text, s, Some(IntentView::Clear), again, now);
            let removal = if is_meaningful(s) {
                next(first.0, saved, now)
            } else {
                first
            };
            let last = next(removal.0, EventView::Cleared, now);
            &&& is_meaningful(s) ==> request_of(first) == Some(
                RequestView::SaveSnapshot(Some("auto-before-clear"@)),
            ) && first.0.session == s
            &&& request_of(removal) == Some(RequestView::ClearSession)
            &&& last.1 matches NextView::Done { reply, restart, save }
            &&& !save
        }),
{
}

/// Whatever is done about a message, the session is saved at the end, unless the
/// message has cleared it.
pub proof fn session_is_saved_unless_cleared(
    text: Seq<char>,
    s: SessionView,
    intent: Option<IntentView>,
    again: Option<IntentView>,
    d: DispatchView,
    event: EventView,
    now: u64,
)
    requires
        report_fits(d.phase, event),
    ensures
        start(text, s, intent, again, now).1 matches NextView::Done { reply, restart, save }
            ==> save,
        next(d, event, now).1 matches NextView::Done { reply, restart, save } ==> (save <==> !(
        d.phase is Clearing)),
{
}

/// The session stays that of its user, whatever the message asks for. (A snapshot is
/// loaded under the id that it comes with.)
pub proof fn session_keeps_user(
    text: Seq<char>,
    s: SessionView,
    intent: Option<IntentView>,
    again: Option<IntentView>,
    d: DispatchView,
    event: EventView,
    now: u64,
)
    requires
        report_fits(d.phase, event),
        event matches EventView::Loaded(Ok(loaded)) ==> loaded.user_id == d.session.user_id,
    ensures
        start(text, s, intent, again, now).0.session.user_id == s.user_id,
        next(d, event, now).0.session.user_id == d.session.user_id,
{
}

/// A new program is started only where a restart was asked for and the report about it
/// says so.
pub proof fn restart_only_when_asked(
    text: Seq<char>,
    s: SessionView,
    intent: Option<IntentView>,
    again: Option<IntentView>,
    d: DispatchView,
    event: EventView,
    now: u64,
)
    requires
        report_fits(d.phase, event),
    ensures
        start(text, s, intent, again, now).1 matches NextView::Done { reply, restart, save }
            ==> restart is None,
        request_of(start(text, s, intent, again, now)) == Some(RequestView::Restart) ==> intent
            == Some(IntentView::SelfRestart),
        next(d, event, now).1 matches NextView::Done { reply, restart, save } ==> (restart is Some
            ==> d.phase is Restarting),
{
}

/// Dealing with a message waits for a report exactly as long as it wants something.
pub proof fn waits_only_for_what_is_asked(
    text: Seq<char>,
    s: SessionView,
    intent: Option<IntentView>,
    again: Option<IntentView>,
    d: DispatchView,
    event: EventView,
    now: u64,
)
    requires
        report_fits(d.phase, event),
    ensures
        start(text, s, intent, again, now).1 is Done <==> start(
            text,
            s,
            intent,
            again,
            now,
        ).0.phase is Over,
        next(d, event, now).1 is Done <==> next(d, event, now).0.phase is Over,
        start(text, s, intent, again, now).0.text == text,
        next(d, event, now).0.text == d.text,
{
}

// ---------------------------------------------------------------------------
// From the text of a message on
// ---------------------------------------------------------------------------

/// A text that means one thing, whatever the classifier says, is dealt with as that.
proof fn lemma_settled_start(
    text: Seq<char>,
    s: SessionView,
    now: u64,
    turn: Turn,
    intent: IntentView,
)
    requires
        possible_start(text, s, now, turn),
        forall|inferred: Option<IntentView>|
            #[trigger] intent_of(trim(text), inferred) == Some(intent),
        intent != IntentView::Retry,
    ensures
        turn == start(trim(text), s, Some(intent), None, now),
{
}

proof fn lemma_terminal_text(c: Seq<char>)
    requires
        !is_blank(c),
    ensures
        forall|inferred: Option<IntentView>|
            #[trigger] intent_of(trim("/terminal "@ + c), inferred) == Some(
                IntentView::TerminalRun(trim(c)),
            ),
{
    reveal_strlit("/terminal ");
    let text = "/terminal "@ + c;
    assert(text[0] == '/');
    assert(trim_start(text) == text);
    lemma_trim_end_join("/terminal "@, c);
    lemma_trim_end_trim(c);
    let kept = trim_end(c);
    assert(kept.len() > 0) by {
        if kept.len() == 0 {
            assert(trim(kept) =~= seq![]);
        }
    }
    assert(trim(text) == "/terminal "@ + kept);
    assert forall|inferred: Option<IntentView>|
        #[trigger] intent_of(trim(text), inferred) == Some(IntentView::TerminalRun(trim(c))) by {
        terminal_text_is_command(kept, inferred);
    }
}

/// A message `/terminal <c>` runs `<c>` at once if it is harmless. If it is not, nothing
/// is run, and all that is noted is that `<c>` waits.
pub proof fn terminal_text_is_dealt_with(c: Seq<char>, s: SessionView, now: u64, turn: Turn)
    requires
        !is_blank(c),
        possible_start("/terminal "@ + c, s, now, turn),
    ensures
        is_high_risk(trim(c)) ==> {
            &&& turn.1 is Done
            &&& turn.0.session == (SessionView {
                pending_terminal_command: Some(trim(c)),
                updated_at: now,
                ..s
            })
        },
        !is_high_risk(trim(c)) ==> {
            &&& request_of(turn) == Some(RequestView::RunTerminal(trim(c)))
            &&& turn.0.session == s
        },
{
    lemma_terminal_text(c);
    lemma_settled_start(
        "/terminal "@ + c,
        s,
        now,
        turn,
        IntentView::TerminalRun(trim(c)),
    );
}

proof fn lemma_own_trim()
    ensures
        trim("确认执行"@) == "确认执行"@,
        trim("取消执行"@) == "取消执行"@,
        trim("重试"@) == "重试"@,
{
    reveal_strlit("确认执行");
    reveal_strlit("取消执行");
    reveal_strlit("重试");
}

/// "确认执行" runs the command that waits, and it waits no longer, neither then nor when
/// it has been run. Where none waits, nothing is done.
pub proof fn confirmation_runs_what_waits(
    s: SessionView,
    now: u64,
    turn: Turn,
    output: Seq<char>,
    later: u64,
)
    requires
        possible_start("确认执行"@, s, now, turn),
    ensures
        s.pending_terminal_command matches Some(command) ==> {
            let last = next(turn.0, EventView::Text(output), later);
            &&& request_of(turn) == Some(RequestView::RunTerminal(command))
            &&& turn.0.session.pending_terminal_command is None
            &&& request_of(last) is None
            &&& last.0.session == (SessionView {
                pending_terminal_command: None,
                last_action: Some("/terminal "@ + command),
                last_result: Some(output),
                updated_at: later,
                ..s
            })
        },
        s.pending_terminal_command is None ==> turn.1 is Done && turn.0.session == s,
{
    lemma_own_trim();
    assert forall|inferred: Option<IntentView>|
        #[trigger] intent_of(trim("确认执行"@), inferred) == Some(
            IntentView::TerminalConfirm,
        ) by {
        lemma_confirm_words(inferred);
    }
    lemma_settled_start("确认执行"@, s, now, turn, IntentView::TerminalConfirm);
}

/// "取消执行" runs nothing, and afterwards no command waits.
pub proof fn cancellation_runs_nothing(s: SessionView, now: u64, turn: Turn)
    requires
        possible_start("取消执行"@, s, now, turn),
    ensures
        turn.1 is Done,
        turn.0.session.pending_terminal_command is None,
{
    lemma_own_trim();
    assert forall|inferred: Option<IntentView>|
        #[trigger] intent_of(trim("取消执行"@), inferred) == Some(
            IntentView::TerminalCancel,
        ) by {
        lemma_confirm_words(inferred);
    }
    lemma_settled_start("取消执行"@, s, now, turn, IntentView::TerminalCancel);
}

/// A risky command that a message gives is not run. When it is confirmed, exactly it is
/// run, and once: a further confirmation runs nothing. When it is cancelled instead, it
/// is not run, nor by a confirmation after that.
pub proof fn risky_command_runs_once_confirmed(
    c: Seq<char>,
    s: SessionView,
    given: (u64, Turn),
    confirmed: (u64, Turn),
    output: (u64, Seq<char>),
    confirmed_again: (u64, Turn),
    cancelled: (u64, Turn),
    confirmed_late: (u64, Turn),
)
    requires
        !is_blank(c),
        is_high_risk(trim(c)),
        possible_start("/terminal "@ + c, s, given.0, given.1),
        possible_start("确认执行"@, given.1.0.session, confirmed.0, confirmed.1),
        possible_start(
            "确认执行"@,
            next(confirmed.1.0, EventView::Text(output.1), output.0).0.session,
            confirmed_again.0,
            confirmed_again.1,
        ),
        possible_start("取消执行"@, given.1.0.session, cancelled.0, cancelled.1),
        possible_start("确认执行"@, cancelled.1.0.session, confirmed_late.0, confirmed_late.1),
    ensures
        request_of(given.1) is None,
        given.1.0.session == (SessionView {
            pending_terminal_command: Some(trim(c)),
            updated_at: given.0,
            ..s
        }),
        request_of(confirmed.1) == Some(RequestView::RunTerminal(trim(c))),
        request_of(next(confirmed.1.0, EventView::Text(output.1), output.0)) is None,
        request_of(confirmed_again.1) is None,
        request_of(cancelled.1) is None,
        request_of(confirmed_late.1) is None,
{
    terminal_text_is_dealt_with(c, s, given.0, given.1);
    let waiting = given.1.0.session;
    confirmation_runs_what_waits(waiting, confirmed.0, confirmed.1, output.1, output.0);
    let done = next(confirmed.1.0, EventView::Text(output.1), output.0).0.session;
    confirmation_runs_what_waits(done, confirmed_again.0, confirmed_again.1, seq![], 0);
    cancellation_runs_nothing(waiting, cancelled.0, cancelled.1);
    let dropped = cancelled.1.0.session;
    confirmation_runs_what_waits(dropped, confirmed_late.0, confirmed_late.1, seq![], 0);
}

proof fn lemma_retry_start(s: SessionView, now: u64, turn: Turn, last: Seq<char>, i: IntentView)
    requires
        s.last_action == Some(last),
        possible_start("重试"@, s, now, turn),
        forall|inferred: Option<IntentView>|
            #[trigger] intent_of(trim(last), inferred) == Some(i),
    ensures
        turn == start_retry("重试"@, s, Some(i), now),
{
    lemma_own_trim();
    assert forall|inferred: Option<IntentView>|
        #[trigger] intent_of(trim("重试"@), inferred) == Some(IntentView::Retry) by {
        lemma_retry_word(inferred);
    }
}

/// "重试" after the terminal command `<c>` is dealt with like the message `/terminal <c>`:
/// a harmless one is run again, and what comes of it is the last result; a risky one
/// waits again.
pub proof fn retry_runs_terminal_again(
    c: Seq<char>,
    s: SessionView,
    now: u64,
    turn: Turn,
    output: Seq<char>,
    later: u64,
)
    requires
        !is_blank(c),
        s.last_action == Some("/terminal "@ + c),
        possible_start("重试"@, s, now, turn),
    ensures
        turn == start_terminal("重试"@, s, trim(c), now),
        !is_high_risk(trim(c)) ==> {
            let last = next(turn.0, EventView::Text(output), later);
            &&& request_of(turn) == Some(RequestView::RunTerminal(trim(c)))
            &&& last.0.session == (SessionView {
                last_action: Some("/terminal "@ + trim(c)),
                last_result: Some(output),
                updated_at: later,
                ..s
            })
        },
{
    lemma_terminal_text(c);
    lemma_retry_start(s, now, turn, "/terminal "@ + c, IntentView::TerminalRun(trim(c)));
}

/// "重试" after an action carries out what the text of that action asks for.
pub proof fn retry_means_last_text(
    s: SessionView,
    last: Seq<char>,
    now: u64,
    turn: Turn,
    output: Seq<char>,
    later: u64,
)
    requires
        s.last_action == Some(last),
        unclassified(trim(last)) is None,
        intent_of(trim(last), None) matches Some(i) && is_action(i),
        possible_start("重试"@, s, now, turn),
    ensures
        request_of(turn) == Some(
            RequestView::RunAction(action_for(intent_of(trim(last), None)->0)->0),
        ),
        next(turn.0, EventView::Text(output), later).0.session == (SessionView {
            last_result: Some(output),
            updated_at: later,
            ..s
        }),
{
    let i = intent_of(trim(last), None)->0;
    assert forall|inferred: Option<IntentView>|
        #[trigger] intent_of(trim(last), inferred) == Some(i) by {
        settled_text_ignores_classifier(trim(last), inferred, None);
    }
    lemma_retry_start(s, now, turn, last, i);
}

/// `chat 历史 <n>` shows the title of the session `<n>` in the list, and what was asked
/// in that session and no other.
pub proof fn chat_shows_its_own_prompts(
    n: nat,
    s: SessionView,
    now: u64,
    turn: Turn,
    chats: Seq<ChatView>,
    prompts: Seq<Seq<char>>,
    later: u64,
)
    requires
        0 < n <= usize::MAX,
        possible_start("chat 历史 "@ + decimal(n), s, now, turn),
    ensures
        ({
            let picked = next(turn.0, EventView::Chats(chats), later);
            &&& request_of(turn) == Some(RequestView::ReadChats)
            &&& n <= chats.len() ==> {
                &&& request_of(picked) == Some(RequestView::ReadPrompts(chats[n - 1].id))
                &&& next(picked.0, EventView::Messages(prompts), later).1 == NextView::Done {
                    reply: chat_reply(chats[n - 1].title, prompts),
                    restart: None,
                    save: true,
                }
            }
            &&& n > chats.len() ==> picked.1 == NextView::Done {
                reply: no_chat_reply(n),
                restart: None,
                save: true,
            }
        }),
{
    reveal_strlit("chat 历史 ");
    let text = "chat 历史 "@ + decimal(n);
    lemma_decimal_value(n);
    assert(trim(text) == text) by {
        assert(text[0] == 'c');
        assert(text.last() == decimal(n).last());
    }
    assert forall|inferred: Option<IntentView>|
        #[trigger] intent_of(trim(text), inferred) == Some(IntentView::CopilotHistory(n)) by {
        chat_number_is_read(n, inferred);
    }
    lemma_settled_start(text, s, now, turn, IntentView::CopilotHistory(n));
}

} // verus!
