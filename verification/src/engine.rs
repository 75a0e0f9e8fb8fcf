//! The evaluation state machine.
//!
//! Evaluating an action is a dialogue with three external services: a shell
//! (spawn a command, either capturing its output or interactively), a
//! selector (present candidate lines, get back at most one), and a text
//! prompt.  The machine never performs those requests itself: each step
//! returns an [`Effect`] describing the one request to perform, and the
//! embedding program answers it with an [`Event`].  [`begin`] starts the
//! dialogue for an action; [`step`] consumes one answer.
//!
//! Cancellation (the user backing out of a selection or prompt) ends the
//! dialogue with [`Outcome::Cancelled`]; service failures end it with
//! [`Outcome::Failed`]; otherwise it ends with [`Outcome::Executed`] right
//! after requesting the one interactive command run.

use vstd::prelude::*;

use crate::template::arg_views;
use crate::template::subst;
use crate::template::substitute;
use crate::widget::find;
use crate::widget::find_action;
use crate::widget::join_labels;
use crate::widget::labels_input;
use crate::widget::Action;
use crate::widget::Widget;

verus! {

/// Why an evaluation failed.
#[derive(Clone, Copy, PartialEq, Eq, Structural, Debug)]
pub enum Failure {
    /// A shell process could not be spawned.
    Spawn,
    /// The selector backend itself failed.
    Selector,
    /// The text-input stream closed unexpectedly.
    EndOfInput,
    /// The text prompt failed in some other way.
    Input,
}

/// How an evaluation ended.
#[derive(Clone, Copy, PartialEq, Eq, Structural, Debug)]
pub enum Outcome {
    /// The final command was handed to the shell.
    Executed,
    /// The user backed out of a selection or prompt; no command was run.
    Cancelled,
    /// An external service failed.
    Failed { kind: Failure },
}

/// The answer of the text prompt.
#[derive(PartialEq, Eq, Debug)]
pub enum LineResult {
    /// One line was read.
    Text { line: String },
    /// The user interrupted the prompt.
    Interrupted,
    /// The input stream ended.
    EndOfInput,
    /// The prompt failed in some other way.
    Failed,
}

/// One external request the evaluation asks the embedding program to
/// perform.
#[derive(PartialEq, Eq, Debug)]
pub enum Effect {
    /// Run the command through the shell, capturing its standard output.
    CaptureOutput { command: String },
    /// Show the selector over the newline-separated candidate lines, with
    /// the given preview template, where there is one.
    ShowSelector { input: String, preview: Option<String> },
    /// Prompt for one line of free text.
    PromptLine,
    /// Run the command through the shell interactively.
    RunInteractive { command: String },
}

/// The answer an effect produced.
#[derive(PartialEq, Eq, Debug)]
pub enum Event {
    /// The captured standard output of a `CaptureOutput` command.
    Output { text: String },
    /// The selector's choice: a line, or nothing when the user cancelled.
    Choice { selected: Option<String> },
    /// The text prompt's answer.
    Line { result: LineResult },
    /// An interactive command was spawned (its exit status is not
    /// inspected).
    Ran,
    /// The shell process could not be spawned.
    SpawnFailed,
    /// The selector backend failed.
    SelectorFailed,
}

/// Where an evaluation stands while it waits for one event.
#[derive(Debug)]
pub enum EvalState {
    /// Waiting for the choice among a `Select`'s labels.
    Selecting { options: Vec<(String, Action)> },
    /// Waiting for the captured output of the widget at `index`.
    Capturing { command: String, widgets: Vec<Widget>, index: usize, args: Vec<String> },
    /// Waiting for the choice among the captured lines of the widget at
    /// `index`.
    Choosing { command: String, widgets: Vec<Widget>, index: usize, args: Vec<String> },
    /// Waiting for the free-text line of the widget at `index`.
    Prompting { command: String, widgets: Vec<Widget>, index: usize, args: Vec<String> },
    /// Waiting for the final, rendered command to be spawned.
    Running,
}

/// One step of an evaluation: an effect to perform together with the state
/// to resume from, or the outcome.
#[derive(Debug)]
pub enum Step {
    Perform { effect: Effect, state: EvalState },
    Done { outcome: Outcome },
}

/// Ghost mirror of [`Effect`]: produced strings appear by their views.
pub enum EffectModel {
    CaptureOutput { command: Seq<char> },
    ShowSelector { input: Seq<char>, preview: Option<Seq<char>> },
    PromptLine,
    RunInteractive { command: Seq<char> },
}

/// Ghost mirror of [`EvalState`]: the carried collections appear as
/// sequences.
pub enum StateModel {
    Selecting { options: Seq<(String, Action)> },
    Capturing { command: String, widgets: Seq<Widget>, index: int, args: Seq<String> },
    Choosing { command: String, widgets: Seq<Widget>, index: int, args: Seq<String> },
    Prompting { command: String, widgets: Seq<Widget>, index: int, args: Seq<String> },
    Running,
}

/// Ghost mirror of [`Step`].
pub enum StepModel {
    Perform { effect: EffectModel, state: StateModel },
    Done { outcome: Outcome },
}

impl View for Effect {
    type V = EffectModel;

    open spec fn view(&self) -> EffectModel {
        match self {
            Effect::CaptureOutput { command } => EffectModel::CaptureOutput {
                command: command@,
            },
            Effect::ShowSelector { input, preview } => EffectModel::ShowSelector {
                input: input@,
                preview: match preview {
                    Some(p) => Some(p@),
                    None => None,
                },
            },
            Effect::PromptLine => EffectModel::PromptLine,
            Effect::RunInteractive { command } => EffectModel::RunInteractive {
                command: command@,
            },
        }
    }
}

impl View for EvalState {
    type V = StateModel;

    open spec fn view(&self) -> StateModel {
        match self {
            EvalState::Selecting { options } => StateModel::Selecting { options: options@ },
            EvalState::Capturing { command, widgets, index, args } => StateModel::Capturing {
                command: *command,
                widgets: widgets@,
                index: *index as int,
                args: args@,
            },
            EvalState::Choosing { command, widgets, index, args } => StateModel::Choosing {
                command: *command,
                widgets: widgets@,
                index: *index as int,
                args: args@,
            },
            EvalState::Prompting { command, widgets, index, args } => StateModel::Prompting {
                command: *command,
                widgets: widgets@,
                index: *index as int,
                args: args@,
            },
            EvalState::Running => StateModel::Running,
        }
    }
}

impl View for Step {
    type V = StepModel;

    open spec fn view(&self) -> StepModel {
        match self {
            Step::Perform { effect, state } => StepModel::Perform {
                effect: effect@,
                state: state@,
            },
            Step::Done { outcome } => StepModel::Done { outcome: *outcome },
        }
    }
}

/// The widget list of a `Command` action; a missing list reads as empty.
pub open spec fn widgets_of(widgets: Option<Vec<Widget>>) -> Seq<Widget> {
    match widgets {
        Some(w) => w@,
        None => Seq::empty(),
    }
}

/// The preview template of the widget at `index`, where it has one.
pub open spec fn preview_of(widgets: Seq<Widget>, index: int) -> Option<Seq<char>> {
    if 0 <= index < widgets.len() {
        match widgets[index] {
            Widget::FromCommand { command, preview } => match preview {
                Some(p) => Some(p@),
                None => None,
            },
            Widget::FreeText => None,
        }
    } else {
        None
    }
}

/// Begin resolving the widget at `index`, or, once every widget is
/// resolved, request the run of the rendered final command.  Rendering
/// always happens against the arguments of the completed steps alone.
pub open spec fn advance_model(
    command: String,
    widgets: Seq<Widget>,
    index: int,
    args: Seq<String>,
) -> StepModel {
    if 0 <= index < widgets.len() {
        match widgets[index] {
            Widget::FromCommand { command: wcmd, preview } => StepModel::Perform {
                effect: EffectModel::CaptureOutput { command: subst(wcmd@, arg_views(args)) },
                state: StateModel::Capturing { command, widgets, index, args },
            },
            Widget::FreeText => StepModel::Perform {
                effect: EffectModel::PromptLine,
                state: StateModel::Prompting { command, widgets, index, args },
            },
        }
    } else {
        StepModel::Perform {
            effect: EffectModel::RunInteractive { command: subst(command@, arg_views(args)) },
            state: StateModel::Running,
        }
    }
}

/// The first step of evaluating an action.
pub open spec fn begin_model(action: Action) -> StepModel {
    match action {
        Action::Command { command, widgets } => advance_model(
            command,
            widgets_of(widgets),
            0,
            Seq::empty(),
        ),
        Action::Select { options } => StepModel::Perform {
            effect: EffectModel::ShowSelector { input: labels_input(options@), preview: None },
            state: StateModel::Selecting { options: options@ },
        },
    }
}

/// Whether a waiting state can take the event.
pub open spec fn accepts_model(state: StateModel, event: Event) -> bool {
    match state {
        StateModel::Selecting { .. } => event is Choice || event is SelectorFailed,
        StateModel::Capturing { .. } => event is Output || event is SpawnFailed,
        StateModel::Choosing { .. } => event is Choice || event is SelectorFailed,
        StateModel::Prompting { .. } => event is Line,
        StateModel::Running => event is Ran || event is SpawnFailed,
    }
}

/// Apply one event to a waiting state.
///
/// A selection the user backed out of, and a chosen label that no option
/// carries, both read as cancellation.  On a pair that `accepts_model`
/// refuses the result is a plain failure; such a pair never arises from a
/// driver that answers the requested effect.
pub open spec fn step_model(state: StateModel, event: Event) -> StepModel {
    match state {
        StateModel::Selecting { options } => match event {
            Event::Choice { selected } => match selected {
                Some(label) => match find(options, label@) {
                    Some(action) => begin_model(action),
                    None => StepModel::Done { outcome: Outcome::Cancelled },
                },
                None => StepModel::Done { outcome: Outcome::Cancelled },
            },
            Event::SelectorFailed => StepModel::Done {
                outcome: Outcome::Failed { kind: Failure::Selector },
            },
            _ => StepModel::Done { outcome: Outcome::Failed { kind: Failure::Input } },
        },
        StateModel::Capturing { command, widgets, index, args } => match event {
            Event::Output { text } => StepModel::Perform {
                effect: EffectModel::ShowSelector {
                    input: text@,
                    preview: preview_of(widgets, index),
                },
                state: StateModel::Choosing { command, widgets, index, args },
            },
            Event::SpawnFailed => StepModel::Done {
                outcome: Outcome::Failed { kind: Failure::Spawn },
            },
            _ => StepModel::Done { outcome: Outcome::Failed { kind: Failure::Input } },
        },
        StateModel::Choosing { command, widgets, index, args } => match event {
            Event::Choice { selected } => match selected {
                Some(line) => advance_model(command, widgets, index + 1, args.push(line)),
                None => StepModel::Done { outcome: Outcome::Cancelled },
            },
            Event::SelectorFailed => StepModel::Done {
                outcome: Outcome::Failed { kind: Failure::Selector },
            },
            _ => StepModel::Done { outcome: Outcome::Failed { kind: Failure::Input } },
        },
        StateModel::Prompting { command, widgets, index, args } => match event {
            Event::Line { result } => match result {
                LineResult::Text { line } => advance_model(
                    command,
                    widgets,
                    index + 1,
                    args.push(line),
                ),
                LineResult::Interrupted => StepModel::Done { outcome: Outcome::Cancelled },
                LineResult::EndOfInput => StepModel::Done {
                    outcome: Outcome::Failed { kind: Failure::EndOfInput },
                },
                LineResult::Failed => StepModel::Done {
                    outcome: Outcome::Failed { kind: Failure::Input },
                },
            },
            _ => StepModel::Done { outcome: Outcome::Failed { kind: Failure::Input } },
        },
        StateModel::Running => match event {
            Event::Ran => StepModel::Done { outcome: Outcome::Executed },
            Event::SpawnFailed => StepModel::Done {
                outcome: Outcome::Failed { kind: Failure::Spawn },
            },
            _ => StepModel::Done { outcome: Outcome::Failed { kind: Failure::Input } },
        },
    }
}

/// A waiting state keeps its widget index within the widget list.
pub open spec fn state_wf(state: StateModel) -> bool {
    match state {
        StateModel::Selecting { .. } => true,
        StateModel::Capturing { widgets, index, .. } => 0 <= index < widgets.len(),
        StateModel::Choosing { widgets, index, .. } => 0 <= index < widgets.len(),
        StateModel::Prompting { widgets, index, .. } => 0 <= index < widgets.len(),
        StateModel::Running => true,
    }
}

pub open spec fn step_wf(st: StepModel) -> bool {
    match st {
        StepModel::Perform { state, .. } => state_wf(state),
        StepModel::Done { .. } => true,
    }
}

pub proof fn lemma_begin_wf(action: Action)
    ensures
        step_wf(begin_model(action)),
{
}

pub proof fn lemma_step_wf(state: StateModel, event: Event)
    requires
        state_wf(state),
    ensures
        step_wf(step_model(state, event)),
{
    if let StateModel::Selecting { options } = state {
        if let Event::Choice { selected } = event {
            if let Some(label) = selected {
                if let Some(action) = find(options, label@) {
                    lemma_begin_wf(action);
                }
            }
        }
    }
}

/// Begin resolving the widget at `index`, or, once every widget is
/// resolved, request the run of the rendered final command.
fn advance(command: String, widgets: Vec<Widget>, index: usize, args: Vec<String>) -> (r: Step)
    ensures
        r@ == advance_model(command, widgets@, index as int, args@),
{
    if index < widgets.len() {
        let is_capture = match &widgets[index] {
            Widget::FromCommand { .. } => true,
            Widget::FreeText => false,
        };
        if is_capture {
            let rendered = match &widgets[index] {
                Widget::FromCommand { command: wcmd, preview } => substitute(
                    wcmd.as_str(),
                    &args,
                ),
                Widget::FreeText => String::new(),
            };
            Step::Perform {
                effect: Effect::CaptureOutput { command: rendered },
                state: EvalState::Capturing { command, widgets, index, args },
            }
        } else {
            Step::Perform {
                effect: Effect::PromptLine,
                state: EvalState::Prompting { command, widgets, index, args },
            }
        }
    } else {
        let rendered = substitute(command.as_str(), &args);
        Step::Perform {
            effect: Effect::RunInteractive { command: rendered },
            state: EvalState::Running,
        }
    }
}

/// The first step of evaluating an action.
pub fn begin(action: Action) -> (r: Step)
    ensures
        r@ == begin_model(action),
        step_wf(r@),
{
    proof {
        lemma_begin_wf(action);
    }
    match action {
        Action::Command { command, widgets } => {
            let w = match widgets {
                Some(w) => w,
                None => Vec::new(),
            };
            advance(command, w, 0, Vec::new())
        },
        Action::Select { options } => {
            let input = join_labels(&options);
            Step::Perform {
                effect: Effect::ShowSelector { input, preview: None },
                state: EvalState::Selecting { options },
            }
        },
    }
}

impl EvalState {
    /// Whether this state waits for the given event.
    pub fn accepts(&self, event: &Event) -> (b: bool)
        ensures
            b == accepts_model(self@, *event),
    {
        match self {
            EvalState::Selecting { .. } => match event {
                Event::Choice { .. } => true,
                Event::SelectorFailed => true,
                _ => false,
            },
            EvalState::Capturing { .. } => match event {
                Event::Output { .. } => true,
                Event::SpawnFailed => true,
                _ => false,
            },
            EvalState::Choosing { .. } => match event {
                Event::Choice { .. } => true,
                Event::SelectorFailed => true,
                _ => false,
            },
            EvalState::Prompting { .. } => match event {
                Event::Line { .. } => true,
                _ => false,
            },
            EvalState::Running => match event {
                Event::Ran => true,
                Event::SpawnFailed => true,
                _ => false,
            },
        }
    }

    /// Whether this state keeps its widget index within its widget list;
    /// every state [`begin`] or [`step`] hands out does.
    pub fn is_wf(&self) -> (b: bool)
        ensures
            b == state_wf(self@),
    {
        match self {
            EvalState::Capturing { widgets, index, .. } => *index < widgets.len(),
            EvalState::Choosing { widgets, index, .. } => *index < widgets.len(),
            EvalState::Prompting { widgets, index, .. } => *index < widgets.len(),
            _ => true,
        }
    }
}

/// Apply one event to a waiting state.
pub fn step(state: EvalState, event: Event) -> (r: Step)
    requires
        state_wf(state@),
        accepts_model(state@, event),
    ensures
        r@ == step_model(state@, event),
        step_wf(r@),
{
    proof {
        lemma_step_wf(state@, event);
    }
    match state {
        EvalState::Selecting { options } => match event {
            Event::Choice { selected } => match selected {
                Some(label) => match find_action(options, &label) {
                    Some(action) => begin(action),
                    None => Step::Done { outcome: Outcome::Cancelled },
                },
                None => Step::Done { outcome: Outcome::Cancelled },
            },
            Event::SelectorFailed => Step::Done {
                outcome: Outcome::Failed { kind: Failure::Selector },
            },
            _ => Step::Done { outcome: Outcome::Failed { kind: Failure::Input } },
        },
        EvalState::Capturing { command, widgets, index, args } => match event {
            Event::Output { text } => {
                let preview = match &widgets[index] {
                    Widget::FromCommand { command: _, preview } => match preview {
                        Some(p) => Some(p.clone()),
                        None => None,
                    },
                    Widget::FreeText => None,
                };
                Step::Perform {
                    effect: Effect::ShowSelector { input: text, preview },
                    state: EvalState::Choosing { command, widgets, index, args },
                }
            },
            Event::SpawnFailed => Step::Done {
                outcome: Outcome::Failed { kind: Failure::Spawn },
            },
            _ => Step::Done { outcome: Outcome::Failed { kind: Failure::Input } },
        },
        EvalState::Choosing { command, widgets, index, args } => match event {
            Event::Choice { selected } => match selected {
                Some(line) => {
                    let n = widgets.len();
                    proof {
                        assert((index as int) < widgets@.len());
                        assert(index < n);
                    }
                    let mut args = args;
                    args.push(line);
                    advance(command, widgets, index + 1, args)
                },
                None => Step::Done { outcome: Outcome::Cancelled },
            },
            Event::SelectorFailed => Step::Done {
                outcome: Outcome::Failed { kind: Failure::Selector },
            },
            _ => Step::Done { outcome: Outcome::Failed { kind: Failure::Input } },
        },
        EvalState::Prompting { command, widgets, index, args } => match event {
            Event::Line { result } => match result {
                LineResult::Text { line } => {
                    let n = widgets.len();
                    proof {
                        assert((index as int) < widgets@.len());
                        assert(index < n);
                    }
                    let mut args = args;
                    args.push(line);
                    advance(command, widgets, index + 1, args)
                },
                LineResult::Interrupted => Step::Done { outcome: Outcome::Cancelled },
                LineResult::EndOfInput => Step::Done {
                    outcome: Outcome::Failed { kind: Failure::EndOfInput },
                },
                LineResult::Failed => Step::Done {
                    outcome: Outcome::Failed { kind: Failure::Input },
                },
            },
            _ => Step::Done { outcome: Outcome::Failed { kind: Failure::Input } },
        },
        EvalState::Running => match event {
            Event::Ran => Step::Done { outcome: Outcome::Executed },
            Event::SpawnFailed => Step::Done {
                outcome: Outcome::Failed { kind: Failure::Spawn },
            },
            _ => Step::Done { outcome: Outcome::Failed { kind: Failure::Input } },
        },
    }
}

/// The views of a list of effects, in order.
pub open spec fn effect_views(effects: Seq<Effect>) -> Seq<EffectModel> {
    effects.map_values(|e: Effect| e@)
}

/// Ghost record of one evaluation run: the outcome, where one was reached,
/// and the effects requested along the way, in order.
pub struct RunModel {
    pub outcome: Option<Outcome>,
    pub effects: Seq<EffectModel>,
}

/// Evaluation against scripted answers: from a step, feed the events in
/// order.  The run ends at an outcome, or without one when the answers run
/// out or the next one does not fit the waiting state.
pub open spec fn run_model(st: StepModel, events: Seq<Event>) -> RunModel
    decreases events.len(),
{
    match st {
        StepModel::Done { outcome } => RunModel {
            outcome: Some(outcome),
            effects: Seq::empty(),
        },
        StepModel::Perform { effect, state } => {
            if events.len() == 0 || !accepts_model(state, events[0]) {
                RunModel { outcome: None, effects: seq![effect] }
            } else {
                let rest = run_model(step_model(state, events[0]), events.skip(1));
                RunModel { outcome: rest.outcome, effects: seq![effect] + rest.effects }
            }
        },
    }
}

/// The record of one evaluation run against scripted answers.
#[derive(Debug)]
pub struct RunOutcome {
    pub outcome: Option<Outcome>,
    pub effects: Vec<Effect>,
}

impl Action {
    /// Evaluate this action against a scripted list of service answers,
    /// consuming them in order, and record the effects requested and the
    /// outcome, where the answers sufficed to reach one.
    pub fn run(self, events: Vec<Event>) -> (r: RunOutcome)
        ensures
            r.outcome == run_model(begin_model(self), events@).outcome,
            effect_views(r.effects@) == run_model(begin_model(self), events@).effects,
    {
        let ghost orig = begin_model(self);
        let ghost all = events@;
        let mut evs = events;
        let mut effects: Vec<Effect> = Vec::new();
        let mut cur = begin(self);
        proof {
            assert(effect_views(effects@) + run_model(cur@, evs@).effects =~= run_model(
                cur@,
                evs@,
            ).effects);
        }
        loop
            invariant
                step_wf(cur@),
                orig == begin_model(self),
                all == events@,
                run_model(orig, all).outcome == run_model(cur@, evs@).outcome,
                run_model(orig, all).effects == effect_views(effects@) + run_model(
                    cur@,
                    evs@,
                ).effects,
            decreases evs@.len(),
        {
            match cur {
                Step::Done { outcome } => {
                    proof {
                        assert(effect_views(effects@) + Seq::<EffectModel>::empty()
                            =~= effect_views(effects@));
                    }
                    return RunOutcome { outcome: Some(outcome), effects };
                },
                Step::Perform { effect, state } => {
                    let ghost old_effects = effects@;
                    effects.push(effect);
                    proof {
                        assert(effect_views(effects@) =~= effect_views(old_effects) + seq![
                            effects@.last()@,
                        ]);
                    }
                    if evs.len() == 0 {
                        return RunOutcome { outcome: None, effects };
                    }
                    let ghost before = evs@;
                    let ev = evs.remove(0);
                    proof {
                        assert(before.remove(0) =~= before.skip(1));
                    }
                    if !state.accepts(&ev) {
                        return RunOutcome { outcome: None, effects };
                    }
                    proof {
                        let rest = run_model(step_model(state@, ev), evs@);
                        assert((effect_views(old_effects) + (seq![effects@.last()@]
                            + rest.effects)) =~= (effect_views(old_effects) + seq![
                            effects@.last()@,
                        ]) + rest.effects);
                    }
                    cur = step(state, ev);
                },
            }
        }
    }
}

} // verus!
