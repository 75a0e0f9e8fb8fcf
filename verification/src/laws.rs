//! Laws of the evaluation machine.
//!
//! These proof functions state, over the ghost model of the machine, what
//! an evaluation run can and cannot do: `Select` steps are pure dispatch by
//! label lookup, a cancelled run never requests the final command, and a
//! successful `DynamicSelect`-shaped run requests exactly one capture and
//! one selection per argument template — each capture rendered against the
//! arguments of the completed steps alone — and one final interactive run.

use vstd::prelude::*;

use crate::engine::accepts_model;
use crate::engine::advance_model;
use crate::engine::begin_model;
use crate::engine::preview_of;
use crate::engine::run_model;
use crate::engine::step_model;
use crate::engine::widgets_of;
use crate::engine::EffectModel;
use crate::engine::Event;
use crate::engine::Outcome;
use crate::engine::StateModel;
use crate::engine::StepModel;
use crate::template::arg_views;
use crate::template::subst;
use crate::widget::find;
use crate::widget::Action;
use crate::widget::Widget;

verus! {

/// Law: `Select` evaluation is pure dispatch by label lookup.  When the
/// chosen label maps to an action, the step continues exactly as evaluating
/// that action from its start, with nothing added or changed.
pub proof fn lemma_select_dispatch(options: Seq<(String, Action)>, label: String, action: Action)
    requires
        find(options, label@) == Some(action),
    ensures
        step_model(
            StateModel::Selecting { options },
            Event::Choice { selected: Some(label) },
        ) == begin_model(action),
{
}

/// Law: a `Select` without options never dispatches.  Whatever line the
/// selector hands back, no label can be looked up, and the evaluation ends
/// cancelled.
pub proof fn lemma_select_empty(options: Seq<(String, Action)>, selected: Option<String>)
    requires
        options.len() == 0,
    ensures
        step_model(StateModel::Selecting { options }, Event::Choice { selected }) == (
        StepModel::Done { outcome: Outcome::Cancelled }),
{
}

/// No requested effect in the list is an interactive command run.
pub open spec fn no_interactive_run(effects: Seq<EffectModel>) -> bool {
    forall|i: int| 0 <= i < effects.len() ==> !((#[trigger] effects[i]) is RunInteractive)
}

/// In a step the machine hands out, a requested interactive run is always
/// paired with the `Running` state, which can only end the evaluation.
pub open spec fn step_paired(st: StepModel) -> bool {
    match st {
        StepModel::Perform { effect, state } => effect is RunInteractive ==> state is Running,
        StepModel::Done { .. } => true,
    }
}

pub proof fn lemma_begin_paired(action: Action)
    ensures
        step_paired(begin_model(action)),
{
}

pub proof fn lemma_step_paired(state: StateModel, event: Event)
    ensures
        step_paired(step_model(state, event)),
{
    if let StateModel::Selecting { options } = state {
        if let Event::Choice { selected } = event {
            if let Some(label) = selected {
                if let Some(action) = find(options, label@) {
                    lemma_begin_paired(action);
                }
            }
        }
    }
}

/// Law: cancelling prevents the final command.  A run that ended cancelled
/// never requested an interactive command run, wherever in the walk the
/// cancellation happened.
pub proof fn lemma_cancelled_no_execution(st: StepModel, events: Seq<Event>)
    requires
        step_paired(st),
        run_model(st, events).outcome == Some(Outcome::Cancelled),
    ensures
        no_interactive_run(run_model(st, events).effects),
    decreases events.len(),
{
    match st {
        StepModel::Done { outcome } => {
        },
        StepModel::Perform { effect, state } => {
            if events.len() == 0 || !accepts_model(state, events[0]) {
                assert(false);
            } else {
                let next = step_model(state, events[0]);
                let rest = run_model(next, events.skip(1));
                if effect is RunInteractive {
                    assert(state is Running);
                    assert(rest.outcome != Some(Outcome::Cancelled));
                    assert(false);
                }
                lemma_step_paired(state, events[0]);
                lemma_cancelled_no_execution(next, events.skip(1));
                let all = run_model(st, events).effects;
                assert forall|i: int| 0 <= i < all.len() implies !((#[trigger] all[i])
                    is RunInteractive) by {
                    if i > 0 {
                        assert(all[i] == rest.effects[i - 1]);
                    }
                }
            }
        },
    }
}

/// Law: cancelling at an argument-resolution step aborts the chain on the
/// spot.  The machine answers a cancelled selection with the cancelled
/// outcome and requests nothing further, whatever answers were still
/// scripted.
pub proof fn lemma_cancel_aborts(
    effect: EffectModel,
    command: String,
    widgets: Seq<Widget>,
    index: int,
    args: Seq<String>,
    events: Seq<Event>,
)
    requires
        events.len() > 0,
        events[0] == (Event::Choice { selected: Option::<String>::None }),
    ensures
        run_model(
            StepModel::Perform {
                effect,
                state: StateModel::Choosing { command, widgets, index, args },
            },
            events,
        ).outcome == Some(Outcome::Cancelled),
        run_model(
            StepModel::Perform {
                effect,
                state: StateModel::Choosing { command, widgets, index, args },
            },
            events,
        ).effects == seq![effect],
{
    let state = StateModel::Choosing { command, widgets, index, args };
    let st = StepModel::Perform { effect, state };
    assert(accepts_model(state, events[0]));
    assert(step_model(state, events[0]) == (StepModel::Done { outcome: Outcome::Cancelled }));
    let rest = run_model(StepModel::Done { outcome: Outcome::Cancelled }, events.skip(1));
    assert(rest.outcome == Some(Outcome::Cancelled));
    assert(rest.effects =~= Seq::<EffectModel>::empty());
    assert(run_model(st, events).effects =~= seq![effect]);
}

/// The command template of a `FromCommand` widget.
pub open spec fn widget_template(w: Widget) -> Seq<char> {
    match w {
        Widget::FromCommand { command, preview } => command@,
        Widget::FreeText => Seq::empty(),
    }
}

/// Every widget is a `FromCommand` step: the shape a `DynamicSelect`
/// configuration has.
pub open spec fn all_from_command(widgets: Seq<Widget>) -> bool {
    forall|i: int| 0 <= i < widgets.len() ==> ((#[trigger] widgets[i]) is FromCommand)
}

/// The captured text of an output event.
pub open spec fn output_text(e: Event) -> Seq<char> {
    match e {
        Event::Output { text } => text@,
        _ => Seq::empty(),
    }
}

/// The chosen line of a selection event.
pub open spec fn chosen_line(e: Event) -> String {
    match e {
        Event::Choice { selected } => match selected {
            Some(line) => line,
            None => arbitrary(),
        },
        _ => arbitrary(),
    }
}

/// The effects a `DynamicSelect`-shaped evaluation requests on its success
/// path, from step `index` on: for each remaining widget, capture the
/// widget's template rendered against the arguments of the completed steps
/// alone — a later argument's placeholder is still unresolved then and kept
/// verbatim — and select among the captured lines; at the end, run the
/// command rendered against the full argument list.  Captured output and
/// chosen lines are read off the event script.
pub open spec fn dynamic_trace(
    command: String,
    widgets: Seq<Widget>,
    index: int,
    args: Seq<String>,
    events: Seq<Event>,
) -> Seq<EffectModel>
    decreases widgets.len() - index,
{
    if 0 <= index < widgets.len() {
        seq![
            EffectModel::CaptureOutput {
                command: subst(widget_template(widgets[index]), arg_views(args)),
            },
            EffectModel::ShowSelector {
                input: output_text(events[0]),
                preview: preview_of(widgets, index),
            },
        ] + dynamic_trace(
            command,
            widgets,
            index + 1,
            args.push(chosen_line(events[1])),
            events.skip(2),
        )
    } else {
        seq![EffectModel::RunInteractive { command: subst(command@, arg_views(args)) }]
    }
}

/// Law: a successful `DynamicSelect`-shaped run requests exactly the
/// dynamic trace.  In particular, the capture for step i is rendered
/// against the first i arguments alone: no argument is referenced before
/// the step that resolves it has completed.
pub proof fn lemma_dynamic_success_trace(
    command: String,
    widgets: Seq<Widget>,
    index: int,
    args: Seq<String>,
    events: Seq<Event>,
)
    requires
        all_from_command(widgets),
        0 <= index,
        run_model(advance_model(command, widgets, index, args), events).outcome == Some(
            Outcome::Executed,
        ),
    ensures
        run_model(advance_model(command, widgets, index, args), events).effects
            == dynamic_trace(command, widgets, index, args, events),
    decreases events.len(),
{
    let st = advance_model(command, widgets, index, args);
    let r = run_model(st, events);
    if index < widgets.len() {
        assert(widgets[index] is FromCommand);
        let capture = EffectModel::CaptureOutput {
            command: subst(widget_template(widgets[index]), arg_views(args)),
        };
        let waiting = StateModel::Capturing { command, widgets, index, args };
        assert(st == (StepModel::Perform { effect: capture, state: waiting }));
        assert(events.len() > 0 && accepts_model(waiting, events[0]));
        match events[0] {
            Event::Output { text } => {
                let show = EffectModel::ShowSelector {
                    input: text@,
                    preview: preview_of(widgets, index),
                };
                let choosing = StateModel::Choosing { command, widgets, index, args };
                let mid = StepModel::Perform { effect: show, state: choosing };
                assert(step_model(waiting, events[0]) == mid);
                let tail = events.skip(1);
                let r1 = run_model(mid, tail);
                assert(tail.len() > 0 && accepts_model(choosing, tail[0]));
                assert(tail[0] == events[1]);
                match events[1] {
                    Event::Choice { selected } => {
                        match selected {
                            Some(line) => {
                                let next = advance_model(
                                    command,
                                    widgets,
                                    index + 1,
                                    args.push(line),
                                );
                                assert(step_model(choosing, tail[0]) == next);
                                assert(tail.skip(1) =~= events.skip(2));
                                let r2 = run_model(next, events.skip(2));
                                assert(r.outcome == r2.outcome);
                                lemma_dynamic_success_trace(
                                    command,
                                    widgets,
                                    index + 1,
                                    args.push(line),
                                    events.skip(2),
                                );
                                assert(line == chosen_line(events[1]));
                                assert(r.effects =~= seq![capture, show] + r2.effects);
                                assert(dynamic_trace(command, widgets, index, args, events)
                                    == seq![capture, show] + dynamic_trace(
                                    command,
                                    widgets,
                                    index + 1,
                                    args.push(chosen_line(events[1])),
                                    events.skip(2),
                                ));
                            },
                            None => {
                                let halt = run_model(
                                    StepModel::Done { outcome: Outcome::Cancelled },
                                    tail.skip(1),
                                );
                                assert(halt.outcome == Some(Outcome::Cancelled));
                                assert(false);
                            },
                        }
                    },
                    Event::SelectorFailed => {
                        let halt = run_model(
                            StepModel::Done {
                                outcome: Outcome::Failed {
                                    kind: crate::engine::Failure::Selector,
                                },
                            },
                            tail.skip(1),
                        );
                        assert(halt.outcome != Some(Outcome::Executed));
                        assert(false);
                    },
                    _ => {
                        assert(false);
                    },
                }
            },
            Event::SpawnFailed => {
                let halt = run_model(
                    StepModel::Done {
                        outcome: Outcome::Failed { kind: crate::engine::Failure::Spawn },
                    },
                    events.skip(1),
                );
                assert(halt.outcome != Some(Outcome::Executed));
                assert(false);
            },
            _ => {
                assert(false);
            },
        }
    } else {
        let run_effect = EffectModel::RunInteractive {
            command: subst(command@, arg_views(args)),
        };
        assert(st == (StepModel::Perform { effect: run_effect, state: StateModel::Running }));
        assert(events.len() > 0 && accepts_model(StateModel::Running, events[0]));
        match events[0] {
            Event::Ran => {
                let halt = run_model(
                    StepModel::Done { outcome: Outcome::Executed },
                    events.skip(1),
                );
                assert(halt.effects =~= Seq::<EffectModel>::empty());
                assert(r.effects =~= seq![run_effect]);
            },
            Event::SpawnFailed => {
                let halt = run_model(
                    StepModel::Done {
                        outcome: Outcome::Failed { kind: crate::engine::Failure::Spawn },
                    },
                    events.skip(1),
                );
                assert(halt.outcome != Some(Outcome::Executed));
                assert(false);
            },
            _ => {
                assert(false);
            },
        }
    }
}

/// The number of selector invocations among the requested effects.
pub open spec fn selector_count(effects: Seq<EffectModel>) -> nat
    decreases effects.len(),
{
    if effects.len() == 0 {
        0
    } else {
        (if effects[0] is ShowSelector {
            1nat
        } else {
            0nat
        }) + selector_count(effects.skip(1))
    }
}

proof fn lemma_selector_count_concat(a: Seq<EffectModel>, b: Seq<EffectModel>)
    ensures
        selector_count(a + b) == selector_count(a) + selector_count(b),
    decreases a.len(),
{
    if a.len() == 0 {
        assert(a + b =~= b);
    } else {
        assert((a + b).skip(1) =~= a.skip(1) + b);
        assert((a + b)[0] == a[0]);
        lemma_selector_count_concat(a.skip(1), b);
    }
}

proof fn lemma_dynamic_trace_count(
    command: String,
    widgets: Seq<Widget>,
    index: int,
    args: Seq<String>,
    events: Seq<Event>,
)
    requires
        0 <= index,
    ensures
        selector_count(dynamic_trace(command, widgets, index, args, events)) == if index
            < widgets.len() {
            widgets.len() - index
        } else {
            0
        },
    decreases widgets.len() - index,
{
    if index < widgets.len() {
        let head = seq![
            EffectModel::CaptureOutput {
                command: subst(widget_template(widgets[index]), arg_views(args)),
            },
            EffectModel::ShowSelector {
                input: output_text(events[0]),
                preview: preview_of(widgets, index),
            },
        ];
        let rest = dynamic_trace(
            command,
            widgets,
            index + 1,
            args.push(chosen_line(events[1])),
            events.skip(2),
        );
        lemma_selector_count_concat(head, rest);
        let s1 = head.skip(1);
        assert(s1 =~= seq![head[1]]);
        assert(s1.skip(1) =~= Seq::<EffectModel>::empty());
        assert(selector_count(Seq::<EffectModel>::empty()) == 0);
        assert(selector_count(s1) == 1);
        assert(selector_count(head) == 1);
        lemma_dynamic_trace_count(
            command,
            widgets,
            index + 1,
            args.push(chosen_line(events[1])),
            events.skip(2),
        );
    } else {
        let whole = dynamic_trace(command, widgets, index, args, events);
        assert(whole.skip(1) =~= Seq::<EffectModel>::empty());
        assert(selector_count(Seq::<EffectModel>::empty()) == 0);
    }
}

/// Law: a `DynamicSelect` with N argument templates makes exactly N
/// selector invocations on its success path.
pub proof fn lemma_dynamic_selector_count(
    command: String,
    widgets: Seq<Widget>,
    args: Seq<String>,
    events: Seq<Event>,
)
    requires
        all_from_command(widgets),
        run_model(advance_model(command, widgets, 0, args), events).outcome == Some(
            Outcome::Executed,
        ),
    ensures
        selector_count(run_model(advance_model(command, widgets, 0, args), events).effects)
            == widgets.len(),
    decreases events.len(),
{
    lemma_dynamic_success_trace(command, widgets, 0, args, events);
    lemma_dynamic_trace_count(command, widgets, 0, args, events);
    if widgets.len() == 0 {
        let whole = dynamic_trace(command, widgets, 0, args, events);
        assert(whole.skip(1) =~= Seq::<EffectModel>::empty());
        assert(selector_count(Seq::<EffectModel>::empty()) == 0);
    }
}

/// Law: a successful evaluation of a whole `DynamicSelect`-shaped action
/// requests exactly the dynamic trace from its first step.
pub proof fn lemma_dynamic_action_trace(
    command: String,
    widgets: Option<Vec<Widget>>,
    events: Seq<Event>,
)
    requires
        all_from_command(widgets_of(widgets)),
        run_model(begin_model(Action::Command { command, widgets }), events).outcome == Some(
            Outcome::Executed,
        ),
    ensures
        run_model(begin_model(Action::Command { command, widgets }), events).effects
            == dynamic_trace(command, widgets_of(widgets), 0, Seq::empty(), events),
{
    lemma_dynamic_success_trace(command, widgets_of(widgets), 0, Seq::empty(), events);
}

} // verus!
