//! The command dispatcher: the two-phase reply to one interaction.
//!
//! An interaction is answered in two phases. The acknowledgment goes out at
//! once and never waits for the completion service; the completion call is
//! only asked for when the acknowledgment has been handed over, and its
//! outcome travels in a follow-up message. The dispatcher is the rule behind
//! this, written as a machine: the caller performs the action the machine
//! names and reports what happened as the next event.

use crate::commands::gpt4::{
    is_recognized, prompt, prompt_of, reply_text, run, CommandOption, COMMAND_NAME,
};
use crate::completion::{result_view, CompletionError};
use vstd::prelude::*;

verus! {

/// The fixed reply to a command the dispatcher does not know.
pub const UNKNOWN_COMMAND: &'static str = "Unknown command.";

/// The conversational context of one interaction. Whoever holds it may send
/// the acknowledgment of that interaction and follow-up messages to the
/// channel it came from. The dispatcher only passes it on.
#[derive(Debug, Clone, Copy, PartialEq, Eq, Structural)]
pub struct ReplyHandle {
    pub interaction: u64,
    pub channel: u64,
}

/// One invocation of a slash command.
#[derive(Debug, PartialEq, Eq)]
pub struct IncomingCommand {
    pub handle: ReplyHandle,
    pub name: String,
    pub options: Vec<CommandOption>,
}

/// What the platform delivers to the dispatcher.
#[derive(Debug, PartialEq, Eq)]
pub enum Interaction {
    /// A slash command.
    Command(IncomingCommand),
    /// Any other kind of interaction.
    Other,
}

/// What the caller reports to the machine.
#[derive(Debug, PartialEq, Eq)]
pub enum Event {
    /// The platform delivered an interaction.
    Received(Interaction),
    /// The acknowledgment was handed to the platform, which took it or not.
    Acknowledged { delivered: bool },
    /// The completion call is over.
    Completed(Result<String, CompletionError>),
    /// The follow-up was handed to the platform, which took it or not.
    FollowedUp { delivered: bool },
}

/// What the machine asks of the caller.
#[derive(Debug, Clone, PartialEq, Eq)]
pub enum Action {
    /// Do nothing.
    Nothing,
    /// Send `text` as the initial acknowledgment of the interaction `to`.
    Acknowledge { to: ReplyHandle, text: String },
    /// Start the completion call for `prompt`, detached from the
    /// acknowledgment path.
    Complete { prompt: String },
    /// Send `text` as a follow-up message to the context `to`.
    FollowUp { to: ReplyHandle, text: String },
}

/// The mathematical value of an [`Action`].
pub ghost enum ActionView {
    Nothing,
    Acknowledge { to: ReplyHandle, text: Seq<char> },
    Complete { prompt: Seq<char> },
    FollowUp { to: ReplyHandle, text: Seq<char> },
}

impl View for Action {
    type V = ActionView;

    open spec fn view(&self) -> ActionView {
        match self {
            Action::Nothing => ActionView::Nothing,
            Action::Acknowledge { to, text } => ActionView::Acknowledge { to: *to, text: text@ },
            Action::Complete { prompt } => ActionView::Complete { prompt: prompt@ },
            Action::FollowUp { to, text } => ActionView::FollowUp { to: *to, text: text@ },
        }
    }
}

/// How far the reply to one interaction has come.
#[derive(Debug, Clone, PartialEq, Eq)]
pub enum State {
    /// Nothing has been received.
    Idle,
    /// The acknowledgment is with the platform. `prompt` is the prompt that
    /// waits for it, and is absent where the command was not recognized.
    Acknowledging { handle: ReplyHandle, prompt: Option<String> },
    /// The completion call is under way.
    Completing { handle: ReplyHandle },
    /// The follow-up is with the platform.
    FollowingUp,
    /// Nothing is left to do.
    Finished,
}

/// The mathematical value of a [`State`].
pub ghost enum StateView {
    Idle,
    Acknowledging { handle: ReplyHandle, prompt: Option<Seq<char>> },
    Completing { handle: ReplyHandle },
    FollowingUp,
    Finished,
}

impl View for State {
    type V = StateView;

    open spec fn view(&self) -> StateView {
        match self {
            State::Idle => StateView::Idle,
            State::Acknowledging { handle, prompt: Some(text) } => StateView::Acknowledging {
                handle: *handle,
                prompt: Some(text@),
            },
            State::Acknowledging { handle, prompt: None } => StateView::Acknowledging {
                handle: *handle,
                prompt: None,
            },
            State::Completing { handle } => StateView::Completing { handle: *handle },
            State::FollowingUp => StateView::FollowingUp,
            State::Finished => StateView::Finished,
        }
    }
}

/// The transition rule.
///
/// * A recognized command is acknowledged with its own prompt, an unknown one
///   with the fixed reply; any other interaction ends the matter.
/// * Once the acknowledgment has been handed over, delivered or not, the
///   completion call is asked for, unless the command was unknown.
/// * The outcome of the call, success or failure, becomes the follow-up.
/// * Once the follow-up has been handed over, delivered or not, the machine
///   is finished. Nothing is ever sent a second time.
/// * An event that the current state does not wait for changes nothing.
pub open spec fn next(state: StateView, event: Event) -> (StateView, ActionView) {
    match (state, event) {
        (StateView::Idle, Event::Received(Interaction::Command(command))) => {
            if command.name@ == COMMAND_NAME@ {
                let prompt = prompt_of(command.options@);
                (
                    StateView::Acknowledging { handle: command.handle, prompt: Some(prompt) },
                    ActionView::Acknowledge { to: command.handle, text: prompt },
                )
            } else {
                (
                    StateView::Acknowledging { handle: command.handle, prompt: None },
                    ActionView::Acknowledge { to: command.handle, text: UNKNOWN_COMMAND@ },
                )
            }
        },
        (StateView::Idle, Event::Received(Interaction::Other)) => (
            StateView::Finished,
            ActionView::Nothing,
        ),
        (
            StateView::Acknowledging { handle, prompt: Some(prompt) },
            Event::Acknowledged { .. },
        ) => (StateView::Completing { handle }, ActionView::Complete { prompt }),
        (StateView::Acknowledging { prompt: None, .. }, Event::Acknowledged { .. }) => (
            StateView::Finished,
            ActionView::Nothing,
        ),
        (StateView::Completing { handle }, Event::Completed(outcome)) => (
            StateView::FollowingUp,
            ActionView::FollowUp { to: handle, text: reply_text(result_view(outcome)) },
        ),
        (StateView::FollowingUp, Event::FollowedUp { .. }) => (
            StateView::Finished,
            ActionView::Nothing,
        ),
        (state, _) => (state, ActionView::Nothing),
    }
}

/// The dispatcher. It holds nothing: all that is known of one interaction is
/// in the [`State`] that the caller keeps for it, so one dispatcher serves any
/// number of interactions at once.
#[derive(Debug, Clone, Copy, PartialEq, Eq, Default)]
pub struct Dispatcher {}

impl Dispatcher {
    /// The state in which every interaction starts.
    pub fn start(&self) -> (state: State)
        ensures
            state@ == StateView::Idle,
    {
        State::Idle
    }

    /// Takes one step: from the state of an interaction and what has just
    /// happened to the next state and what to do now.
    pub fn step(&self, state: State, event: Event) -> (result: (State, Action))
        ensures
            (result.0@, result.1@) == next(state@, event),
    {
        match (state, event) {
            (State::Idle, Event::Received(Interaction::Command(command))) => {
                let handle = command.handle;
                if is_recognized(command.name.as_str()) {
                    let text = prompt(command.options.as_slice());
                    (
                        State::Acknowledging { handle, prompt: Some(text.to_owned()) },
                        Action::Acknowledge { to: handle, text: text.to_owned() },
                    )
                } else {
                    (
                        State::Acknowledging { handle, prompt: None },
                        Action::Acknowledge { to: handle, text: UNKNOWN_COMMAND.to_owned() },
                    )
                }
            },
            (State::Idle, Event::Received(Interaction::Other)) => {
                (State::Finished, Action::Nothing)
            },
            (State::Acknowledging { handle, prompt: Some(text) }, Event::Acknowledged { .. }) => (
                State::Completing { handle },
                Action::Complete { prompt: text },
            ),
            (State::Acknowledging { prompt: None, .. }, Event::Acknowledged { .. }) => (
                State::Finished,
                Action::Nothing,
            ),
            (State::Completing { handle }, Event::Completed(outcome)) => (
                State::FollowingUp,
                Action::FollowUp { to: handle, text: run(outcome) },
            ),
            (State::FollowingUp, Event::FollowedUp { .. }) => (State::Finished, Action::Nothing),
            (state, _) => (state, Action::Nothing),
        }
    }
}

/// The actions the machine names, one for each event, when it is fed
/// `events` in order from `state`.
pub open spec fn actions(state: StateView, events: Seq<Event>) -> Seq<ActionView>
    decreases events.len(),
{
    if events.len() == 0 {
        Seq::empty()
    } else {
        let (following, action) = next(state, events.first());
        seq![action] + actions(following, events.drop_first())
    }
}

/// The state the machine is in when it has been fed `events` in order from
/// `state`.
pub open spec fn state_after(state: StateView, events: Seq<Event>) -> StateView
    decreases events.len(),
{
    if events.len() == 0 {
        state
    } else {
        state_after(next(state, events.first()).0, events.drop_first())
    }
}

/// How far a state is along the way from idle to finished.
pub open spec fn progress(state: StateView) -> int {
    match state {
        StateView::Idle => 0,
        StateView::Acknowledging { .. } => 1,
        StateView::Completing { .. } => 2,
        StateView::FollowingUp => 3,
        StateView::Finished => 4,
    }
}

/// The phase an action belongs to: 1 for the acknowledgment, 2 for the start
/// of the completion call, 3 for the follow-up, and 0 for doing nothing.
pub open spec fn phase(action: ActionView) -> int {
    match action {
        ActionView::Nothing => 0,
        ActionView::Acknowledge { .. } => 1,
        ActionView::Complete { .. } => 2,
        ActionView::FollowUp { .. } => 3,
    }
}

/// One step never goes back, and an action other than doing nothing belongs
/// to the phase that the step enters.
pub proof fn lemma_step_advances(state: StateView, event: Event)
    ensures
        progress(state) <= progress(next(state, event).0),
        phase(next(state, event).1) != 0 ==> phase(next(state, event).1) == progress(state) + 1,
        phase(next(state, event).1) != 0 ==> progress(next(state, event).0) == progress(state)
            + 1,
{
}

/// The phases come in order and none comes twice: along any run, from any
/// state, every action other than doing nothing belongs to a later phase than
/// the state the run began in and than every such action before it.
pub proof fn law_phases_in_order(state: StateView, events: Seq<Event>)
    ensures
        actions(state, events).len() == events.len(),
        forall|i: int|
            #![trigger actions(state, events)[i]]
            0 <= i < events.len() && phase(actions(state, events)[i]) != 0 ==> progress(state)
                < phase(actions(state, events)[i]),
        forall|i: int, j: int|
            #![trigger actions(state, events)[i], actions(state, events)[j]]
            0 <= i < j < events.len() && phase(actions(state, events)[i]) != 0 && phase(
                actions(state, events)[j],
            ) != 0 ==> phase(actions(state, events)[i]) < phase(actions(state, events)[j]),
    decreases events.len(),
{
    if events.len() > 0 {
        let (following, action) = next(state, events.first());
        let rest = events.drop_first();
        let later = actions(following, rest);
        lemma_step_advances(state, events.first());
        law_phases_in_order(following, rest);
        let all = actions(state, events);
        assert(all =~= seq![action] + later);
        assert forall|i: int| 0 <= i < events.len() && phase(all[i]) != 0 implies progress(state)
            < phase(all[i]) by {
            if i > 0 {
                assert(all[i] == later[i - 1]);
            }
        }
        assert forall|i: int, j: int|
            0 <= i < j < events.len() && phase(all[i]) != 0 && phase(all[j]) != 0 implies phase(
            all[i],
        ) < phase(all[j]) by {
            assert(all[j] == later[j - 1]);
            if i > 0 {
                assert(all[i] == later[i - 1]);
            }
        }
    }
}

/// No phase is skipped: along any run, an action of a phase more than one
/// beyond the state the run began in comes after an action of the phase
/// before it.
pub proof fn law_no_phase_skipped(state: StateView, events: Seq<Event>, j: int)
    requires
        0 <= j < events.len(),
        phase(actions(state, events)[j]) > progress(state) + 1,
    ensures
        exists|i: int|
            0 <= i < j && phase(#[trigger] actions(state, events)[i]) + 1 == phase(
                actions(state, events)[j],
            ),
    decreases events.len(),
{
    let (following, action) = next(state, events.first());
    let rest = events.drop_first();
    let later = actions(following, rest);
    let all = actions(state, events);
    lemma_step_advances(state, events.first());
    law_phases_in_order(following, rest);
    assert(all =~= seq![action] + later);
    assert(all[j] == later[j - 1]);
    if phase(later[j - 1]) > progress(following) + 1 {
        law_no_phase_skipped(following, rest, j - 1);
        let i = choose|i: int|
            0 <= i < j - 1 && phase(#[trigger] later[i]) + 1 == phase(later[j - 1]);
        assert(all[i + 1] == later[i]);
    } else {
        assert(phase(all[0]) + 1 == phase(all[j]));
    }
}

/// The context a state will send its pending messages to, where it still
/// has any to send.
pub open spec fn handle_of(state: StateView) -> Option<ReplyHandle> {
    match state {
        StateView::Acknowledging { handle, .. } => Some(handle),
        StateView::Completing { handle } => Some(handle),
        _ => None,
    }
}

/// A follow-up always reports the outcome of the completion call: along any
/// run, an action that is a follow-up answers the event that ended the call,
/// and its text is the reply for that outcome.
pub proof fn law_follow_up_reports_outcome(state: StateView, events: Seq<Event>, j: int)
    requires
        0 <= j < events.len(),
        actions(state, events)[j] is FollowUp,
    ensures
        events[j] matches Event::Completed(outcome) && actions(state, events)[j]->FollowUp_text
            == reply_text(result_view(outcome)),
    decreases events.len(),
{
    let (following, action) = next(state, events.first());
    let rest = events.drop_first();
    let later = actions(following, rest);
    law_phases_in_order(following, rest);
    assert(actions(state, events) =~= seq![action] + later);
    if j > 0 {
        assert(actions(state, events)[j] == later[j - 1]);
        law_follow_up_reports_outcome(following, rest, j - 1);
    }
}

/// Once a command has been received, everything that is still sent goes to
/// the context it came from, and a completion call that is still asked for
/// carries the prompt that waits.
proof fn lemma_pending_work_keeps_context(state: StateView, events: Seq<Event>)
    requires
        handle_of(state) is Some,
    ensures
        forall|i: int|
            #![trigger actions(state, events)[i]]
            0 <= i < events.len() ==> (match actions(state, events)[i] {
                ActionView::Nothing => true,
                ActionView::Acknowledge { .. } => false,
                ActionView::Complete { prompt } => state == (StateView::Acknowledging {
                    handle: handle_of(state)->0,
                    prompt: Some(prompt),
                }),
                ActionView::FollowUp { to, .. } => to == handle_of(state)->0,
            }),
    decreases events.len(),
{
    if events.len() > 0 {
        let (following, action) = next(state, events.first());
        let rest = events.drop_first();
        let later = actions(following, rest);
        let all = actions(state, events);
        law_phases_in_order(following, rest);
        assert(all =~= seq![action] + later);
        if handle_of(following) is Some {
            lemma_pending_work_keeps_context(following, rest);
        }
        assert forall|i: int| 0 <= i < events.len() implies match #[trigger] all[i] {
            ActionView::Nothing => true,
            ActionView::Acknowledge { .. } => false,
            ActionView::Complete { prompt } => state == (StateView::Acknowledging {
                handle: handle_of(state)->0,
                prompt: Some(prompt),
            }),
            ActionView::FollowUp { to, .. } => to == handle_of(state)->0,
        } by {
            if i > 0 {
                assert(all[i] == later[i - 1]);
            }
        }
    }
}

/// Once an unknown command has been answered, the machine asks for nothing
/// more, whatever is reported to it.
proof fn lemma_unknown_command_rests(handle: ReplyHandle, events: Seq<Event>)
    ensures
        forall|i: int|
            #![trigger actions(StateView::Acknowledging { handle, prompt: None }, events)[i]]
            0 <= i < events.len() ==> actions(
                StateView::Acknowledging { handle, prompt: None },
                events,
            )[i] == ActionView::Nothing,
    decreases events.len(),
{
    let state = StateView::Acknowledging { handle, prompt: None };
    if events.len() > 0 {
        let (following, action) = next(state, events.first());
        let rest = events.drop_first();
        let later = actions(following, rest);
        let all = actions(state, events);
        law_phases_in_order(following, rest);
        assert(all =~= seq![action] + later);
        if following == state {
            lemma_unknown_command_rests(handle, rest);
        }
        assert forall|i: int| 0 <= i < events.len() implies all[i] == ActionView::Nothing by {
            if i > 0 {
                assert(all[i] == later[i - 1]);
            }
        }
    }
}

/// A recognized command gets exactly one acknowledgment, and gets it first.
/// Whatever is reported after the command has been received, the run begins
/// with the acknowledgment, which echoes the prompt to the context of the
/// command; no later action is an acknowledgment; the completion call is
/// asked for at most once, after the acknowledgment and for that very prompt;
/// and there is at most one follow-up, after the call was asked for and to
/// the same context.
pub proof fn law_recognized_command_acknowledged_once_first(
    command: IncomingCommand,
    later: Seq<Event>,
)
    requires
        command.name@ == COMMAND_NAME@,
    ensures
        ({
            let events = seq![Event::Received(Interaction::Command(command))] + later;
            let run = actions(StateView::Idle, events);
            let prompt = prompt_of(command.options@);
            &&& run.len() == events.len()
            &&& run[0] == ActionView::Acknowledge { to: command.handle, text: prompt }
            &&& forall|i: int| 0 < i < run.len() ==> !(#[trigger] run[i] is Acknowledge)
            &&& forall|i: int|
                0 <= i < run.len() && #[trigger] run[i] is Complete ==> run[i]
                    == ActionView::Complete { prompt }
            &&& forall|i: int|
                0 <= i < run.len() && #[trigger] run[i] is FollowUp ==> run[i]->FollowUp_to
                    == command.handle
            &&& forall|i: int, j: int|
                0 <= i < run.len() && 0 <= j < run.len() && #[trigger] run[i] is Complete
                    && #[trigger] run[j] is Complete ==> i == j
            &&& forall|i: int, j: int|
                0 <= i < run.len() && 0 <= j < run.len() && #[trigger] run[i] is FollowUp
                    && #[trigger] run[j] is FollowUp ==> i == j
            &&& forall|i: int, j: int|
                0 <= i < run.len() && 0 <= j < run.len() && #[trigger] run[i] is Complete
                    && #[trigger] run[j] is FollowUp ==> i < j
        }),
{
    let events = seq![Event::Received(Interaction::Command(command))] + later;
    let run = actions(StateView::Idle, events);
    let prompt = prompt_of(command.options@);
    let waiting = StateView::Acknowledging { handle: command.handle, prompt: Some(prompt) };
    assert(events.drop_first() =~= later);
    assert(run =~= seq![ActionView::Acknowledge { to: command.handle, text: prompt }] + actions(
        waiting,
        later,
    ));
    law_phases_in_order(StateView::Idle, events);
    law_phases_in_order(waiting, later);
    lemma_pending_work_keeps_context(waiting, later);
    assert forall|i: int| 0 < i < run.len() implies !(#[trigger] run[i] is Acknowledge) by {
        assert(run[i] == actions(waiting, later)[i - 1]);
    }
    assert forall|i: int| 0 <= i < run.len() && #[trigger] run[i] is Complete implies run[i]
        == (ActionView::Complete { prompt }) by {
        assert(run[i] == actions(waiting, later)[i - 1]);
    }
    assert forall|i: int|
        0 <= i < run.len() && #[trigger] run[i] is FollowUp implies run[i]->FollowUp_to
        == command.handle by {
        assert(run[i] == actions(waiting, later)[i - 1]);
    }
    assert forall|i: int, j: int|
        0 <= i < run.len() && 0 <= j < run.len() && #[trigger] run[i] is Complete
            && #[trigger] run[j] is Complete implies i == j by {
        if i < j {
            assert(phase(run[i]) < phase(run[j]));
        } else if j < i {
            assert(phase(run[j]) < phase(run[i]));
        }
    }
    assert forall|i: int, j: int|
        0 <= i < run.len() && 0 <= j < run.len() && #[trigger] run[i] is FollowUp
            && #[trigger] run[j] is FollowUp implies i == j by {
        if i < j {
            assert(phase(run[i]) < phase(run[j]));
        } else if j < i {
            assert(phase(run[j]) < phase(run[i]));
        }
    }
    assert forall|i: int, j: int|
        0 <= i < run.len() && 0 <= j < run.len() && #[trigger] run[i] is Complete
            && #[trigger] run[j] is FollowUp implies i < j by {
        if j < i {
            assert(phase(run[j]) < phase(run[i]));
        }
    }
}

/// A run that is reported in turn sends exactly one acknowledgment and exactly
/// one follow-up, in that order, and the follow-up bears the outcome of the
/// call: for a recognized command, whether or not the platform took either
/// message, the four steps are to acknowledge with the prompt, to ask for the
/// completion of that prompt, to follow up with the reply for the outcome,
/// and to rest; and the machine is then finished.
pub proof fn law_run_in_turn(
    command: IncomingCommand,
    acknowledged: bool,
    outcome: Result<String, CompletionError>,
    followed_up: bool,
)
    requires
        command.name@ == COMMAND_NAME@,
    ensures
        ({
            let events = seq![
                Event::Received(Interaction::Command(command)),
                Event::Acknowledged { delivered: acknowledged },
                Event::Completed(outcome),
                Event::FollowedUp { delivered: followed_up },
            ];
            let prompt = prompt_of(command.options@);
            let reply = reply_text(result_view(outcome));
            &&& actions(StateView::Idle, events) == seq![
                ActionView::Acknowledge { to: command.handle, text: prompt },
                ActionView::Complete { prompt },
                ActionView::FollowUp { to: command.handle, text: reply },
                ActionView::Nothing,
            ]
            &&& state_after(StateView::Idle, events) == StateView::Finished
        }),
{
    let e0 = Event::Received(Interaction::Command(command));
    let e1 = Event::Acknowledged { delivered: acknowledged };
    let e2 = Event::Completed(outcome);
    let e3 = Event::FollowedUp { delivered: followed_up };
    let prompt = prompt_of(command.options@);
    let s1 = StateView::Acknowledging { handle: command.handle, prompt: Some(prompt) };
    let s2 = StateView::Completing { handle: command.handle };
    assert(seq![e0, e1, e2, e3].drop_first() =~= seq![e1, e2, e3]);
    assert(seq![e1, e2, e3].drop_first() =~= seq![e2, e3]);
    assert(seq![e2, e3].drop_first() =~= seq![e3]);
    assert(seq![e3].drop_first() =~= Seq::<Event>::empty());
    assert(actions(StateView::Finished, Seq::<Event>::empty()) =~= Seq::<ActionView>::empty());
    assert(state_after(StateView::Finished, Seq::<Event>::empty()) == StateView::Finished);
    assert(state_after(StateView::FollowingUp, seq![e3]) == StateView::Finished);
    assert(state_after(s2, seq![e2, e3]) == StateView::Finished);
    assert(state_after(s1, seq![e1, e2, e3]) == StateView::Finished);
    assert(actions(StateView::FollowingUp, seq![e3]) =~= seq![ActionView::Nothing]);
    assert(actions(s2, seq![e2, e3]) =~= seq![
        ActionView::FollowUp { to: command.handle, text: reply_text(result_view(outcome)) },
        ActionView::Nothing,
    ]);
    assert(actions(s1, seq![e1, e2, e3]) =~= seq![
        ActionView::Complete { prompt },
        ActionView::FollowUp { to: command.handle, text: reply_text(result_view(outcome)) },
        ActionView::Nothing,
    ]);
    assert(actions(StateView::Idle, seq![e0, e1, e2, e3]) =~= seq![
        ActionView::Acknowledge { to: command.handle, text: prompt },
        ActionView::Complete { prompt },
        ActionView::FollowUp { to: command.handle, text: reply_text(result_view(outcome)) },
        ActionView::Nothing,
    ]);
}

/// An unknown command is answered with the fixed reply and nothing else:
/// whatever is reported after it has been received, the run begins with the
/// acknowledgment that carries the fixed reply, and every later action is to
/// do nothing, so no completion call is ever asked for and no follow-up sent.
pub proof fn law_unknown_command_never_completed(command: IncomingCommand, later: Seq<Event>)
    requires
        command.name@ != COMMAND_NAME@,
    ensures
        ({
            let events = seq![Event::Received(Interaction::Command(command))] + later;
            let run = actions(StateView::Idle, events);
            &&& run.len() == events.len()
            &&& run[0] == ActionView::Acknowledge { to: command.handle, text: UNKNOWN_COMMAND@ }
            &&& forall|i: int| 0 < i < run.len() ==> #[trigger] run[i] == ActionView::Nothing
        }),
{
    let events = seq![Event::Received(Interaction::Command(command))] + later;
    let run = actions(StateView::Idle, events);
    let resting = StateView::Acknowledging { handle: command.handle, prompt: None };
    assert(events.drop_first() =~= later);
    assert(run =~= seq![
        ActionView::Acknowledge { to: command.handle, text: UNKNOWN_COMMAND@ },
    ] + actions(resting, later));
    law_phases_in_order(resting, later);
    lemma_unknown_command_rests(command.handle, later);
    assert forall|i: int| 0 < i < run.len() implies #[trigger] run[i] == ActionView::Nothing by {
        assert(run[i] == actions(resting, later)[i - 1]);
    }
}

/// Every follow-up comes after an acknowledgment: along any run from the
/// idle state, an action that is a follow-up has an acknowledgment before it.
pub proof fn law_follow_up_after_acknowledgment(events: Seq<Event>, j: int)
    requires
        0 <= j < events.len(),
        actions(StateView::Idle, events)[j] is FollowUp,
    ensures
        exists|i: int| 0 <= i < j && #[trigger] actions(StateView::Idle, events)[i] is Acknowledge,
{
    let run = actions(StateView::Idle, events);
    law_phases_in_order(StateView::Idle, events);
    law_no_phase_skipped(StateView::Idle, events, j);
    let k = choose|k: int| 0 <= k < j && phase(#[trigger] run[k]) + 1 == phase(run[j]);
    law_no_phase_skipped(StateView::Idle, events, k);
    let i = choose|i: int| 0 <= i < k && phase(#[trigger] run[i]) + 1 == phase(run[k]);
    assert(run[i] is Acknowledge);
}

} // verus!
