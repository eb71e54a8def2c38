//! The dispatcher that turns focus changes into input source switches.
//!
//! The dispatcher is a state machine. Its owner feeds it one focus event at a
//! time, performs what the dispatcher plans on the platform's main context,
//! and reports the outcome back. The dispatcher never waits and never fails:
//! an outcome that is an error leaves it as it was.

use vstd::prelude::*;
use crate::config::{preferred_for, AppConfigView, ConfigManager};
use crate::error::AppError;
use crate::text::{opt_str_text, opt_text, text_eq};

verus! {

/// The longest that the owner waits for the main context to answer a switch,
/// in milliseconds.
pub const SWITCH_REPLY_TIMEOUT_MS: u64 = 500;

/// The longest that the owner waits for the main context to enumerate the
/// input sources, in milliseconds.
pub const SCAN_REPLY_TIMEOUT_MS: u64 = 5000;

/// One notification that an application came to the front.
#[derive(Debug)]
pub struct AppFocusedEvent {
    pub bundle_id: String,
    pub app_name: String,
}

/// The mathematical value of an [`AppFocusedEvent`].
pub struct AppFocusedEventView {
    pub bundle_id: Seq<char>,
    pub app_name: Seq<char>,
}

impl View for AppFocusedEvent {
    type V = AppFocusedEventView;

    open spec fn view(&self) -> AppFocusedEventView {
        AppFocusedEventView { bundle_id: self.bundle_id@, app_name: self.app_name@ }
    }
}

impl Clone for AppFocusedEvent {
    fn clone(&self) -> (copy: Self)
        ensures
            copy@ == self@,
    {
        AppFocusedEvent { bundle_id: self.bundle_id.clone(), app_name: self.app_name.clone() }
    }
}

/// The name that stands for a property the platform did not report.
pub open spec fn unknown_name() -> Seq<char> {
    "unknown"@
}

impl AppFocusedEvent {
    /// The event for a notification; a property that the platform did not
    /// report reads "unknown".
    pub fn from_properties(bundle_id: Option<String>, app_name: Option<String>) -> (event: Self)
        ensures
            event@.bundle_id == (match bundle_id {
                Some(b) => b@,
                None => unknown_name(),
            }),
            event@.app_name == (match app_name {
                Some(n) => n@,
                None => unknown_name(),
            }),
    {
        AppFocusedEvent {
            bundle_id: match bundle_id {
                Some(b) => b,
                None => "unknown".to_owned(),
            },
            app_name: match app_name {
                Some(n) => n,
                None => "unknown".to_owned(),
            },
        }
    }
}

/// What the dispatcher remembers between events.
pub struct DispatcherState {
    /// The bundle of the last event that was not discarded.
    pub last_bundle_id: Seq<char>,
    /// The input source that the last successful switch applied.
    pub last_applied_input: Option<Seq<char>>,
}

/// The outcome of one unit of work on the main context, as the dispatcher
/// sees it: the input that is now applied, nothing to apply, or a failure.
pub enum SwitchOutcome {
    /// The target input is applied, by a switch or because it already was.
    Applied(Seq<char>),
    /// No target: switching is off or the bundle has no rule.
    NoTarget,
    /// The switch failed, could not be scheduled, or timed out.
    Failed,
}

impl DispatcherState {
    /// The state of a dispatcher that has seen no event.
    pub open spec fn initial() -> DispatcherState {
        DispatcherState { last_bundle_id: Seq::empty(), last_applied_input: None }
    }

    /// Whether an event for the bundle is processed rather than discarded.
    pub open spec fn admits(self, bundle_id: Seq<char>) -> bool {
        bundle_id != self.last_bundle_id
    }

    /// The state after an event for the bundle arrived.
    pub open spec fn after_event(self, bundle_id: Seq<char>) -> DispatcherState {
        DispatcherState { last_bundle_id: bundle_id, ..self }
    }

    /// The state after the outcome of a unit of work was reported.
    pub open spec fn after_outcome(self, outcome: SwitchOutcome) -> DispatcherState {
        match outcome {
            SwitchOutcome::Applied(input) => DispatcherState {
                last_applied_input: Some(input),
                ..self
            },
            SwitchOutcome::NoTarget => self,
            SwitchOutcome::Failed => self,
        }
    }
}

/// How the dispatcher reads the result of a unit of work.
pub open spec fn outcome_of(result: Result<Option<String>, String>) -> SwitchOutcome {
    match result {
        Ok(Some(input)) => SwitchOutcome::Applied(input@),
        Ok(None) => SwitchOutcome::NoTarget,
        Err(_) => SwitchOutcome::Failed,
    }
}

/// The input that the rules ask for while a bundle is in front: none while
/// switching is turned off or without a rule for the bundle.
pub open spec fn target_input(config: AppConfigView, bundle_id: Seq<char>) -> Option<Seq<char>> {
    if config.global_switch {
        preferred_for(config.rules, bundle_id)
    } else {
        None
    }
}

/// What a unit of work on the main context has to do.
#[derive(Debug)]
pub enum SwitchPlan {
    /// No target: do nothing.
    Nothing,
    /// The target is the input that was applied last: leave it.
    Keep(String),
    /// Select this input source.
    Select(String),
}

/// The plan for a target and the input that was applied last.
pub open spec fn plan_for(target: Option<Seq<char>>, previous: Option<Seq<char>>) -> (Option<
    Seq<char>,
>, bool) {
    match target {
        None => (None, false),
        Some(input) => (Some(input), previous != Some(input)),
    }
}

impl SwitchPlan {
    /// The target of the plan, and whether the platform must be called.
    pub open spec fn view(self) -> (Option<Seq<char>>, bool) {
        match self {
            SwitchPlan::Nothing => (None, false),
            SwitchPlan::Keep(input) => (Some(input@), false),
            SwitchPlan::Select(input) => (Some(input@), true),
        }
    }
}

/// The input that the rules ask for while the bundle is in front.
pub fn resolve_target_input_source(manager: &ConfigManager, bundle_id: &str) -> (target: Option<
    String,
>)
    ensures
        opt_text(target) == target_input(manager@, bundle_id@),
{
    manager.get_rule(bundle_id)
}

/// Plans the unit of work for a bundle: nothing without a target, no call
/// when the target is the input applied last, else a call that selects it.
pub fn plan_switch(manager: &ConfigManager, bundle_id: &str, previous_selected_input: Option<&str>) -> (plan:
    SwitchPlan)
    ensures
        plan.view() == plan_for(
            target_input(manager@, bundle_id@),
            opt_str_text(previous_selected_input),
        ),
{
    match resolve_target_input_source(manager, bundle_id) {
        None => SwitchPlan::Nothing,
        Some(target_input) => {
            let unchanged = match previous_selected_input {
                Some(current) => text_eq(current, target_input.as_str()),
                None => false,
            };
            if unchanged {
                SwitchPlan::Keep(target_input)
            } else {
                SwitchPlan::Select(target_input)
            }
        },
    }
}

/// The result of a unit of work: the planned target once it is applied, or
/// the message of the error that the platform's select call gave. The select
/// result is read only for a plan that selects.
pub fn finish_switch(plan: SwitchPlan, select_result: Result<(), AppError>) -> (result: Result<
    Option<String>,
    String,
>)
    ensures
        match plan {
            SwitchPlan::Nothing => result == Ok::<Option<String>, String>(None),
            SwitchPlan::Keep(input) => result == Ok::<Option<String>, String>(Some(input)),
            SwitchPlan::Select(input) => match select_result {
                Ok(_) => result == Ok::<Option<String>, String>(Some(input)),
                Err(e) => result is Err && result->Err_0@ == e.message_text(),
            },
        },
{
    match plan {
        SwitchPlan::Nothing => Ok(None),
        SwitchPlan::Keep(input) => Ok(Some(input)),
        SwitchPlan::Select(input) => match select_result {
            Ok(_) => Ok(Some(input)),
            Err(e) => Err(e.message()),
        },
    }
}

/// The dispatcher: the state of the single consumer of focus events.
pub struct FocusDispatcher {
    last_bundle_id: String,
    last_selected_input: Option<String>,
}

impl View for FocusDispatcher {
    type V = DispatcherState;

    closed spec fn view(&self) -> DispatcherState {
        DispatcherState {
            last_bundle_id: self.last_bundle_id@,
            last_applied_input: opt_text(self.last_selected_input),
        }
    }
}

impl FocusDispatcher {
    /// A dispatcher that has seen no event.
    pub fn new() -> (dispatcher: Self)
        ensures
            dispatcher@ == DispatcherState::initial(),
    {
        FocusDispatcher { last_bundle_id: String::new(), last_selected_input: None }
    }

    /// Takes the next event. Answers whether it is to be processed: an event
    /// for the bundle of the event before it is discarded.
    pub fn take_event(&mut self, event: &AppFocusedEvent) -> (fresh: bool)
        ensures
            fresh == old(self)@.admits(event@.bundle_id),
            final(self)@ == old(self)@.after_event(event@.bundle_id),
    {
        if text_eq(event.bundle_id.as_str(), self.last_bundle_id.as_str()) {
            return false;
        }
        self.last_bundle_id = event.bundle_id.clone();
        true
    }

    /// The input that the last successful switch applied.
    pub fn last_applied_input(&self) -> (input: Option<&str>)
        ensures
            opt_str_text(input) == self@.last_applied_input,
    {
        match &self.last_selected_input {
            Some(input) => Some(input.as_str()),
            None => None,
        }
    }

    /// The bundle of the last event that was not discarded.
    pub fn last_bundle_id(&self) -> (bundle_id: &str)
        ensures
            bundle_id@ == self@.last_bundle_id,
    {
        self.last_bundle_id.as_str()
    }

    /// Takes the result of the unit of work for the event admitted last. An
    /// applied input is remembered; no target, a failure or a timeout leave
    /// the dispatcher as it was.
    pub fn complete(&mut self, result: Result<Option<String>, String>)
        ensures
            final(self)@ == old(self)@.after_outcome(outcome_of(result)),
    {
        match result {
            Ok(Some(selected_input)) => {
                self.last_selected_input = Some(selected_input);
            },
            Ok(None) => {},
            Err(_) => {},
        }
    }
}

/// Of two events in a row for the same bundle, the second is discarded and
/// changes nothing, whatever the outcome of the first was.
pub proof fn repeated_event_is_discarded(
    state: DispatcherState,
    bundle_id: Seq<char>,
    outcome: SwitchOutcome,
)
    ensures
        !state.after_event(bundle_id).after_outcome(outcome).admits(bundle_id),
        !state.after_event(bundle_id).admits(bundle_id),
        state.after_event(bundle_id).after_event(bundle_id) == state.after_event(bundle_id),
{
}

/// A dispatcher that has seen no event processes its first event, unless
/// the event's bundle id is the empty text, which is what a new dispatcher
/// remembers as the last bundle.
pub proof fn first_event_is_processed_unless_its_bundle_is_empty(bundle_id: Seq<char>)
    ensures
        DispatcherState::initial().admits(bundle_id) <==> bundle_id.len() > 0,
{
    if bundle_id.len() == 0 {
        assert(bundle_id =~= Seq::<char>::empty());
    }
}

/// A unit of work that fails or times out leaves the applied input as it
/// was, and the next event for another bundle is processed all the same.
pub proof fn failure_changes_nothing(
    state: DispatcherState,
    bundle_id: Seq<char>,
    next_bundle_id: Seq<char>,
)
    requires
        next_bundle_id != bundle_id,
    ensures
        state.after_event(bundle_id).after_outcome(SwitchOutcome::Failed).last_applied_input
            == state.last_applied_input,
        state.after_event(bundle_id).after_outcome(SwitchOutcome::Failed) == state.after_event(
            bundle_id,
        ),
        state.after_event(bundle_id).after_outcome(SwitchOutcome::Failed).admits(next_bundle_id),
{
}

/// Only an applied input changes what the dispatcher remembers as applied,
/// and no outcome changes the bundle it remembers.
pub proof fn outcome_touches_only_the_applied_input(state: DispatcherState, outcome: SwitchOutcome)
    ensures
        state.after_outcome(outcome).last_bundle_id == state.last_bundle_id,
        state.after_outcome(outcome).last_applied_input == (match outcome {
            SwitchOutcome::Applied(input) => Some(input),
            _ => state.last_applied_input,
        }),
{
}

} // verus!
