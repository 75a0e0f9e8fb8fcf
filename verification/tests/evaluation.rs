use jaime::engine::{Effect, Event, Failure, LineResult, Outcome};
use jaime::widget::{Action, Config, Widget};

fn command(cmd: &str) -> Action {
    Action::Command { command: cmd.to_string(), widgets: None }
}

fn select(options: Vec<(&str, Action)>) -> Action {
    Action::Select {
        options: options.into_iter().map(|(l, a)| (l.to_string(), a)).collect(),
    }
}

fn pick(line: &str) -> Event {
    Event::Choice { selected: Some(line.to_string()) }
}

fn cancel() -> Event {
    Event::Choice { selected: None }
}

fn output(text: &str) -> Event {
    Event::Output { text: text.to_string() }
}

#[test]
fn select_dispatches_to_chosen_label() {
    let action = select(vec![("a", command("echo A")), ("b", command("echo B"))]);
    let r = action.run(vec![pick("b"), Event::Ran]);
    assert_eq!(r.outcome, Some(Outcome::Executed));
    assert_eq!(
        r.effects,
        vec![
            Effect::ShowSelector { input: "a\nb".to_string(), preview: None },
            Effect::RunInteractive { command: "echo B".to_string() },
        ]
    );
}

#[test]
fn dynamic_select_threads_chosen_line() {
    let action = Action::Command {
        command: "cat {0}".to_string(),
        widgets: Some(vec![Widget::FromCommand { command: "ls".to_string(), preview: None }]),
    };
    let r = action.run(vec![output("x\ny\n"), pick("y"), Event::Ran]);
    assert_eq!(r.outcome, Some(Outcome::Executed));
    assert_eq!(
        r.effects,
        vec![
            Effect::CaptureOutput { command: "ls".to_string() },
            Effect::ShowSelector { input: "x\ny\n".to_string(), preview: None },
            Effect::RunInteractive { command: "cat y".to_string() },
        ]
    );
}

#[test]
fn free_text_feeds_the_command() {
    let action = Action::Command {
        command: "echo {0}".to_string(),
        widgets: Some(vec![Widget::FreeText]),
    };
    let r = action.run(vec![
        Event::Line { result: LineResult::Text { line: "hi".to_string() } },
        Event::Ran,
    ]);
    assert_eq!(r.outcome, Some(Outcome::Executed));
    assert_eq!(
        r.effects,
        vec![
            Effect::PromptLine,
            Effect::RunInteractive { command: "echo hi".to_string() },
        ]
    );
}

#[test]
fn free_text_interrupt_cancels_without_execution() {
    let action = Action::Command {
        command: "echo {0}".to_string(),
        widgets: Some(vec![Widget::FreeText]),
    };
    let r = action.run(vec![Event::Line { result: LineResult::Interrupted }]);
    assert_eq!(r.outcome, Some(Outcome::Cancelled));
    assert_eq!(r.effects, vec![Effect::PromptLine]);
}

#[test]
fn free_text_end_of_input_is_a_failure() {
    let action = Action::Command {
        command: "echo {0}".to_string(),
        widgets: Some(vec![Widget::FreeText]),
    };
    let r = action.run(vec![Event::Line { result: LineResult::EndOfInput }]);
    assert_eq!(r.outcome, Some(Outcome::Failed { kind: Failure::EndOfInput }));
    assert_eq!(r.effects, vec![Effect::PromptLine]);
}

#[test]
fn other_prompt_failure_is_reported() {
    let action = Action::Command {
        command: "echo {0}".to_string(),
        widgets: Some(vec![Widget::FreeText]),
    };
    let r = action.run(vec![Event::Line { result: LineResult::Failed }]);
    assert_eq!(r.outcome, Some(Outcome::Failed { kind: Failure::Input }));
}

#[test]
fn select_cancel_ends_without_execution() {
    let action = select(vec![("a", command("echo A")), ("b", command("echo B"))]);
    let r = action.run(vec![cancel()]);
    assert_eq!(r.outcome, Some(Outcome::Cancelled));
    assert_eq!(
        r.effects,
        vec![Effect::ShowSelector { input: "a\nb".to_string(), preview: None }]
    );
}

#[test]
fn cancelling_an_argument_step_aborts_the_chain() {
    let action = Action::Command {
        command: "diff {0} {1}".to_string(),
        widgets: Some(vec![
            Widget::FromCommand { command: "ls".to_string(), preview: None },
            Widget::FromCommand { command: "grep {0} index".to_string(), preview: None },
        ]),
    };
    let r = action.run(vec![output("a\nb"), pick("a"), output("c\nd"), cancel()]);
    assert_eq!(r.outcome, Some(Outcome::Cancelled));
    // The second capture was rendered against the first argument alone, and
    // the final command was never requested.
    assert_eq!(
        r.effects,
        vec![
            Effect::CaptureOutput { command: "ls".to_string() },
            Effect::ShowSelector { input: "a\nb".to_string(), preview: None },
            Effect::CaptureOutput { command: "grep a index".to_string() },
            Effect::ShowSelector { input: "c\nd".to_string(), preview: None },
        ]
    );
}

#[test]
fn later_arguments_stay_verbatim_in_earlier_captures() {
    let action = Action::Command {
        command: "mv {0} {1}".to_string(),
        widgets: Some(vec![
            Widget::FromCommand { command: "ls {1}".to_string(), preview: None },
            Widget::FromCommand { command: "ls {0}".to_string(), preview: None },
        ]),
    };
    let r = action.run(vec![output("a"), pick("a"), output("b"), pick("b"), Event::Ran]);
    assert_eq!(r.outcome, Some(Outcome::Executed));
    assert_eq!(
        r.effects[0],
        Effect::CaptureOutput { command: "ls {1}".to_string() }
    );
    assert_eq!(
        r.effects[2],
        Effect::CaptureOutput { command: "ls a".to_string() }
    );
    assert_eq!(
        r.effects[4],
        Effect::RunInteractive { command: "mv a b".to_string() }
    );
}

#[test]
fn missing_label_is_cancellation() {
    let action = select(vec![("a", command("echo A"))]);
    let r = action.run(vec![pick("zzz")]);
    assert_eq!(r.outcome, Some(Outcome::Cancelled));
}

#[test]
fn empty_select_never_dispatches() {
    let action = select(vec![]);
    let r = action.run(vec![pick("anything")]);
    assert_eq!(r.outcome, Some(Outcome::Cancelled));
    assert_eq!(
        r.effects,
        vec![Effect::ShowSelector { input: "".to_string(), preview: None }]
    );
}

#[test]
fn nested_select_recurses() {
    let inner = select(vec![("y", command("echo Y"))]);
    let action = select(vec![("x", inner)]);
    let r = action.run(vec![pick("x"), pick("y"), Event::Ran]);
    assert_eq!(r.outcome, Some(Outcome::Executed));
    assert_eq!(
        r.effects,
        vec![
            Effect::ShowSelector { input: "x".to_string(), preview: None },
            Effect::ShowSelector { input: "y".to_string(), preview: None },
            Effect::RunInteractive { command: "echo Y".to_string() },
        ]
    );
}

#[test]
fn spawn_failure_is_reported() {
    let action = command("echo A");
    let r = action.run(vec![Event::SpawnFailed]);
    assert_eq!(r.outcome, Some(Outcome::Failed { kind: Failure::Spawn }));
}

#[test]
fn capture_spawn_failure_is_reported() {
    let action = Action::Command {
        command: "cat {0}".to_string(),
        widgets: Some(vec![Widget::FromCommand { command: "ls".to_string(), preview: None }]),
    };
    let r = action.run(vec![Event::SpawnFailed]);
    assert_eq!(r.outcome, Some(Outcome::Failed { kind: Failure::Spawn }));
    assert_eq!(r.effects, vec![Effect::CaptureOutput { command: "ls".to_string() }]);
}

#[test]
fn selector_failure_is_reported() {
    let action = select(vec![("a", command("echo A"))]);
    let r = action.run(vec![Event::SelectorFailed]);
    assert_eq!(r.outcome, Some(Outcome::Failed { kind: Failure::Selector }));
}

#[test]
fn preview_template_is_handed_to_the_selector() {
    let action = Action::Command {
        command: "open {0}".to_string(),
        widgets: Some(vec![Widget::FromCommand {
            command: "ls".to_string(),
            preview: Some("head {}".to_string()),
        }]),
    };
    let r = action.run(vec![output("f\ng")]);
    assert_eq!(r.outcome, None);
    assert_eq!(
        r.effects,
        vec![
            Effect::CaptureOutput { command: "ls".to_string() },
            Effect::ShowSelector {
                input: "f\ng".to_string(),
                preview: Some("head {}".to_string()),
            },
        ]
    );
}

#[test]
fn run_without_answers_reports_no_outcome() {
    let action = command("echo A");
    let r = action.run(vec![]);
    assert_eq!(r.outcome, None);
    assert_eq!(
        r.effects,
        vec![Effect::RunInteractive { command: "echo A".to_string() }]
    );
}

#[test]
fn unfitting_answer_stops_the_run() {
    let action = command("echo A");
    let r = action.run(vec![output("not what was asked")]);
    assert_eq!(r.outcome, None);
}

#[test]
fn config_becomes_a_top_level_select() {
    let config = Config {
        options: vec![
            ("hello".to_string(), command("echo hello")),
            ("bye".to_string(), command("echo bye")),
        ],
    };
    let action = config.into_action();
    let r = action.run(vec![pick("bye"), Event::Ran]);
    assert_eq!(r.outcome, Some(Outcome::Executed));
    assert_eq!(
        r.effects,
        vec![
            Effect::ShowSelector { input: "hello\nbye".to_string(), preview: None },
            Effect::RunInteractive { command: "echo bye".to_string() },
        ]
    );
}

#[test]
fn command_without_widgets_runs_verbatim() {
    let action = command("echo {0}");
    let r = action.run(vec![Event::Ran]);
    assert_eq!(r.outcome, Some(Outcome::Executed));
    // With no widgets there are no arguments, so the placeholder stays.
    assert_eq!(
        r.effects,
        vec![Effect::RunInteractive { command: "echo {0}".to_string() }]
    );
}

#[test]
fn mixed_widgets_resolve_in_order() {
    let action = Action::Command {
        command: "scp {1} {0}".to_string(),
        widgets: Some(vec![
            Widget::FreeText,
            Widget::FromCommand { command: "hosts {0}".to_string(), preview: None },
        ]),
    };
    let r = action.run(vec![
        Event::Line { result: LineResult::Text { line: "dest".to_string() } },
        output("h1\nh2"),
        pick("h2"),
        Event::Ran,
    ]);
    assert_eq!(r.outcome, Some(Outcome::Executed));
    assert_eq!(
        r.effects,
        vec![
            Effect::PromptLine,
            Effect::CaptureOutput { command: "hosts dest".to_string() },
            Effect::ShowSelector { input: "h1\nh2".to_string(), preview: None },
            Effect::RunInteractive { command: "scp h2 dest".to_string() },
        ]
    );
}
