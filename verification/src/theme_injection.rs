//! Enabling the injected theme: write the theme record, inject Explorer, try
//! the Start menu host, recolour the system palette, and mark the injection
//! active. [`ThemeEnabling`] holds the decisions; the desktop shell performs
//! each [`EnableAction`] and reports the outcome back as an [`EnableEvent`].

use vstd::prelude::*;
use vstd::string::StringExecFns;
use crate::desktop::{
    describe_injection_error, injection_error_text, is_selected_theme, select_injected_theme,
    sys_colors_dark_for,
};
use crate::injector::InjectorError;
use crate::theme::{theme_error_text, InjectedTheme, ThemeError};

verus! {

/// Why enabling the injected theme failed.
#[derive(Debug)]
pub enum EnableFailure {
    /// The theme record could not be written to shared memory.
    ThemeWrite(ThemeError),
    /// The DLL could not be injected into Explorer.
    Injection(InjectorError),
}

impl EnableFailure {
    /// The message shown for the failure: the theme-write error text, or the
    /// message of an injection error that has one of its own; `None` for the
    /// other injection errors, which are shown as "Injection failed: " and
    /// their debug form.
    pub fn message(&self) -> (m: Option<String>)
        ensures
            match self {
                EnableFailure::ThemeWrite(e) => m matches Some(s) && s@ == "Failed to write theme: "@
                    + theme_error_text(*e),
                EnableFailure::Injection(e) => match injection_error_text(*e) {
                    Some(t) => m matches Some(s) && s@ == t,
                    None => m is None,
                },
            },
    {
        match self {
            EnableFailure::ThemeWrite(e) => {
                let mut s = String::from_str("Failed to write theme: ");
                let detail = e.message();
                s.append(detail.as_str());
                Some(s)
            },
            EnableFailure::Injection(e) => describe_injection_error(e),
        }
    }
}

/// Where an enabling stands.
#[derive(Debug)]
pub enum EnableStep {
    WriteTheme,
    InjectExplorer,
    InjectStartMenu,
    ApplyColors,
    MarkActive,
    Finished(Result<(), EnableFailure>),
}

/// The next thing the shell must do.
#[derive(Debug)]
pub enum EnableAction {
    /// Write this theme record into the shared memory.
    WriteTheme(InjectedTheme),
    /// Inject the DLL into Explorer.
    InjectExplorer,
    /// Inject the DLL into the Start menu host.
    InjectStartMenu,
    /// Write the dark (`true`) or light system colours.
    ApplySysColors(bool),
    /// Record that the injection is active.
    MarkActive,
    /// Nothing is left; the outcome is [`ThemeEnabling::outcome`].
    Finish,
}

/// The outcome of the last action.
#[derive(Debug)]
pub enum EnableEvent {
    /// The theme record was written, or why not.
    ThemeWritten(Result<(), ThemeError>),
    /// An injection succeeded, or why not.
    Injected(Result<(), InjectorError>),
    /// The system colours were written, or the injection was marked active.
    Done,
}

/// One enabling of the injected theme named `theme_name`.
pub struct ThemeEnabling {
    theme_name: String,
    step: EnableStep,
}

/// The step that follows `step` after `event`: a failed theme write or
/// Explorer injection ends the enabling with that error; the outcome of the
/// Start menu injection is ignored; an event that does not answer the
/// current action changes nothing.
pub open spec fn step_after(step: EnableStep, event: EnableEvent) -> EnableStep {
    match (step, event) {
        (EnableStep::WriteTheme, EnableEvent::ThemeWritten(Ok(()))) => EnableStep::InjectExplorer,
        (EnableStep::WriteTheme, EnableEvent::ThemeWritten(Err(e))) => EnableStep::Finished(
            Err(EnableFailure::ThemeWrite(e)),
        ),
        (EnableStep::InjectExplorer, EnableEvent::Injected(Ok(()))) => EnableStep::InjectStartMenu,
        (EnableStep::InjectExplorer, EnableEvent::Injected(Err(e))) => EnableStep::Finished(
            Err(EnableFailure::Injection(e)),
        ),
        (EnableStep::InjectStartMenu, EnableEvent::Injected(_)) => EnableStep::ApplyColors,
        (EnableStep::ApplyColors, EnableEvent::Done) => EnableStep::MarkActive,
        (EnableStep::MarkActive, EnableEvent::Done) => EnableStep::Finished(Ok(())),
        (s, _) => s,
    }
}

/// The position of a step in the sequence; a finished enabling is last.
pub open spec fn step_rank(step: EnableStep) -> int {
    match step {
        EnableStep::WriteTheme => 0,
        EnableStep::InjectExplorer => 1,
        EnableStep::InjectStartMenu => 2,
        EnableStep::ApplyColors => 3,
        EnableStep::MarkActive => 4,
        EnableStep::Finished(_) => 5,
    }
}

/// Whether `event` is an answer to the action of `step`.
pub open spec fn answers(step: EnableStep, event: EnableEvent) -> bool {
    match step {
        EnableStep::WriteTheme => event is ThemeWritten,
        EnableStep::InjectExplorer | EnableStep::InjectStartMenu => event is Injected,
        EnableStep::ApplyColors | EnableStep::MarkActive => event is Done,
        EnableStep::Finished(_) => false,
    }
}

impl ThemeEnabling {
    pub closed spec fn theme_name(&self) -> Seq<char> {
        self.theme_name@
    }

    pub closed spec fn step(&self) -> EnableStep {
        self.step
    }

    /// Starts enabling the theme `theme_name`; when the injection is
    /// already active (`active`) there is nothing to do and it succeeds.
    pub fn start(active: bool, theme_name: &str) -> (e: Self)
        ensures
            e.theme_name() == theme_name@,
            e.step() == if active {
                EnableStep::Finished(Ok(()))
            } else {
                EnableStep::WriteTheme
            },
    {
        ThemeEnabling {
            theme_name: String::from_str(theme_name),
            step: if active {
                EnableStep::Finished(Ok(()))
            } else {
                EnableStep::WriteTheme
            },
        }
    }

    /// The action that the shell must perform next: the theme record is the
    /// one [`select_injected_theme`] picks for the name, and the system
    /// colours are dark for every theme but "light".
    pub fn next_action(&self) -> (a: EnableAction)
        ensures
            match self.step() {
                EnableStep::WriteTheme => a matches EnableAction::WriteTheme(t)
                    && is_selected_theme(t, self.theme_name()),
                EnableStep::InjectExplorer => a is InjectExplorer,
                EnableStep::InjectStartMenu => a is InjectStartMenu,
                EnableStep::ApplyColors => a == EnableAction::ApplySysColors(
                    self.theme_name() != "light"@,
                ),
                EnableStep::MarkActive => a is MarkActive,
                EnableStep::Finished(_) => a is Finish,
            },
    {
        match &self.step {
            EnableStep::WriteTheme => EnableAction::WriteTheme(
                select_injected_theme(self.theme_name.as_str()),
            ),
            EnableStep::InjectExplorer => EnableAction::InjectExplorer,
            EnableStep::InjectStartMenu => EnableAction::InjectStartMenu,
            EnableStep::ApplyColors => EnableAction::ApplySysColors(
                sys_colors_dark_for(self.theme_name.as_str()),
            ),
            EnableStep::MarkActive => EnableAction::MarkActive,
            EnableStep::Finished(_) => EnableAction::Finish,
        }
    }

    /// Records the outcome of the action returned by [`ThemeEnabling::next_action`].
    pub fn advance(&mut self, event: EnableEvent)
        ensures
            final(self).theme_name() == old(self).theme_name(),
            final(self).step() == step_after(old(self).step(), event),
    {
        let mut step = EnableStep::WriteTheme;
        std::mem::swap(&mut step, &mut self.step);
        self.step = match (step, event) {
            (EnableStep::WriteTheme, EnableEvent::ThemeWritten(Ok(()))) => EnableStep::InjectExplorer,
            (EnableStep::WriteTheme, EnableEvent::ThemeWritten(Err(e))) => EnableStep::Finished(
                Err(EnableFailure::ThemeWrite(e)),
            ),
            (EnableStep::InjectExplorer, EnableEvent::Injected(Ok(()))) => EnableStep::InjectStartMenu,
            (EnableStep::InjectExplorer, EnableEvent::Injected(Err(e))) => EnableStep::Finished(
                Err(EnableFailure::Injection(e)),
            ),
            (EnableStep::InjectStartMenu, EnableEvent::Injected(_)) => EnableStep::ApplyColors,
            (EnableStep::ApplyColors, EnableEvent::Done) => EnableStep::MarkActive,
            (EnableStep::MarkActive, EnableEvent::Done) => EnableStep::Finished(Ok(())),
            (s, _) => s,
        };
    }

    /// Whether nothing is left to do.
    pub fn is_finished(&self) -> (b: bool)
        ensures
            b == self.step() is Finished,
    {
        match &self.step {
            EnableStep::Finished(_) => true,
            _ => false,
        }
    }

    /// The outcome of a finished enabling.
    pub fn outcome(self) -> (r: Result<(), EnableFailure>)
        requires
            self.step() is Finished,
        ensures
            self.step() == EnableStep::Finished(r),
    {
        match self.step {
            EnableStep::Finished(r) => r,
            _ => Ok(()),
        }
    }
}

/// Every answered action moves an unfinished enabling strictly forward, so
/// that it finishes after at most five answered actions; a finished one stays
/// as it is.
pub proof fn law_enabling_progresses(step: EnableStep, event: EnableEvent)
    ensures
        !(step is Finished) && answers(step, event) ==> step_rank(step_after(step, event))
            > step_rank(step),
        !answers(step, event) ==> step_after(step, event) == step,
{
}

/// Any failed injection into Explorer ends the enabling with that error;
/// the Start menu is tried only after Explorer was injected, and the
/// injection is marked active only on the way that passed through it:
/// every step before marking active has exactly one predecessor, reached by
/// one successful answer.
pub proof fn law_explorer_failure_aborts(e: InjectorError, step: EnableStep, event: EnableEvent)
    ensures
        step_after(EnableStep::InjectExplorer, EnableEvent::Injected(Err(e))) == EnableStep::Finished(
            Err::<(), EnableFailure>(EnableFailure::Injection(e)),
        ),
        step_after(step, event) == EnableStep::InjectStartMenu && step != EnableStep::InjectStartMenu
            ==> step == EnableStep::InjectExplorer && event == EnableEvent::Injected(Ok(())),
        step_after(step, event) == EnableStep::ApplyColors && step != EnableStep::ApplyColors
            ==> step == EnableStep::InjectStartMenu && event is Injected,
        step_after(step, event) == EnableStep::MarkActive && step != EnableStep::MarkActive
            ==> step == EnableStep::ApplyColors && event == EnableEvent::Done,
        step_after(step, event) == EnableStep::Finished(Ok::<(), EnableFailure>(()))
            && !(step is Finished) ==> step == EnableStep::MarkActive && event == EnableEvent::Done,
        step_after(step, event) == EnableStep::InjectExplorer && step != EnableStep::InjectExplorer
            ==> step == EnableStep::WriteTheme && event == EnableEvent::ThemeWritten(Ok(())),
{
    match event {
        EnableEvent::Injected(Ok(u)) => {
            assert(u == ());
            assert(event == EnableEvent::Injected(Ok(())));
        },
        EnableEvent::ThemeWritten(Ok(u)) => {
            assert(u == ());
            assert(event == EnableEvent::ThemeWritten(Ok(())));
        },
        _ => {},
    }
}

} // verus!
