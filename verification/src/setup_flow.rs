//! The decisions of `fallow coverage setup`: which step comes next after
//! each license check, prompt answer, install and analysis, and how the run
//! ends. The caller performs each step and reports what came of it.
use vstd::prelude::*;

use crate::coverage::SetupArgs;
use crate::text::{str_chars, string_from_chars, trim, trim_chars};

verus! {

/// What the license check found.
#[derive(Debug)]
pub enum LicenseCheck {
    /// A valid license, or one in its grace period.
    Usable,
    /// No license is installed.
    Missing,
    /// The license expired this many days ago, past its grace period.
    HardFail { days_since_expiry: u64 },
    /// The stored token could not be verified.
    Invalid(String),
}

/// Where the setup flow stands.
#[derive(Debug, Clone, Copy, PartialEq, Eq, Structural)]
pub enum SetupState {
    Start,
    CheckingLicense,
    ConfirmingTrial,
    AskingEmail,
    ActivatingTrial,
    CheckingSidecar,
    ConfirmingInstall,
    InstallingSidecar,
    WritingRecipe,
    FindingCoverage,
    RunningHealth,
    Finished,
}

/// What came of the step last performed.
#[derive(Debug)]
pub enum SetupEvent {
    Started,
    LicenseChecked(LicenseCheck),
    /// The answer to a yes/no prompt, or why none could be read.
    Answered(Result<bool, String>),
    /// The trial email, none when the user is left to activate by hand, or
    /// why none could be had.
    EmailGiven(Result<Option<String>, String>),
    TrialActivated(Result<(), String>),
    /// The installed sidecar's path, or why none was found.
    SidecarChecked(Result<String, String>),
    SidecarInstalled(Result<String, String>),
    RecipeWritten(Result<String, String>),
    /// A coverage file that an earlier run of the app produced.
    CoverageChecked(Option<String>),
    /// The exit code of the health analysis.
    HealthFinished(u8),
}

/// The step to perform next.
#[derive(Debug, PartialEq, Eq)]
pub enum SetupAction {
    CheckLicense,
    AskTrial,
    AskEmail,
    ActivateTrial(String),
    CheckSidecar,
    AskInstall,
    InstallSidecar,
    WriteRecipe,
    FindCoverage,
    RunHealth(String),
    /// End the run with this exit code.
    Exit(u8),
}

/// The next state and step, as values.
pub enum StepView {
    CheckLicense,
    AskTrial,
    AskEmail,
    ActivateTrial(Seq<char>),
    CheckSidecar,
    AskInstall,
    InstallSidecar,
    WriteRecipe,
    FindCoverage,
    RunHealth(Seq<char>),
    Exit(u8),
}

pub open spec fn action_view(a: SetupAction) -> StepView {
    match a {
        SetupAction::CheckLicense => StepView::CheckLicense,
        SetupAction::AskTrial => StepView::AskTrial,
        SetupAction::AskEmail => StepView::AskEmail,
        SetupAction::ActivateTrial(e) => StepView::ActivateTrial(e@),
        SetupAction::CheckSidecar => StepView::CheckSidecar,
        SetupAction::AskInstall => StepView::AskInstall,
        SetupAction::InstallSidecar => StepView::InstallSidecar,
        SetupAction::WriteRecipe => StepView::WriteRecipe,
        SetupAction::FindCoverage => StepView::FindCoverage,
        SetupAction::RunHealth(p) => StepView::RunHealth(p@),
        SetupAction::Exit(c) => StepView::Exit(c),
    }
}

/// The exit code when a step could not be performed: a trial that could not
/// be activated ends with 7, a sidecar that could not be installed with 4,
/// anything else (a prompt, the email, the recipe) with 2.
pub open spec fn failure_code(state: SetupState) -> u8 {
    match state {
        SetupState::ActivatingTrial => 7,
        SetupState::InstallingSidecar => 4,
        _ => 2,
    }
}

/// The transition of the setup flow: the license check first; a trial is
/// offered unless the license is usable; then the sidecar, installed on
/// request; then the recipe; then the analysis of a coverage file if one is
/// found. Declining a prompt ends the run successfully; a step that fails
/// ends it with [`failure_code`]; an event that does not answer the step in
/// progress ends it with 2.
pub open spec fn setup_transition(state: SetupState, event: SetupEvent) -> (SetupState, StepView) {
    match (state, event) {
        (SetupState::Start, SetupEvent::Started) => (SetupState::CheckingLicense, StepView::CheckLicense),
        (SetupState::CheckingLicense, SetupEvent::LicenseChecked(check)) => match check {
            LicenseCheck::Usable => (SetupState::CheckingSidecar, StepView::CheckSidecar),
            _ => (SetupState::ConfirmingTrial, StepView::AskTrial),
        },
        (SetupState::ConfirmingTrial, SetupEvent::Answered(answer)) => match answer {
            Ok(true) => (SetupState::AskingEmail, StepView::AskEmail),
            Ok(false) => (SetupState::Finished, StepView::Exit(0)),
            Err(_) => (SetupState::Finished, StepView::Exit(2)),
        },
        (SetupState::AskingEmail, SetupEvent::EmailGiven(email)) => match email {
            Ok(Some(e)) => (SetupState::ActivatingTrial, StepView::ActivateTrial(e@)),
            Ok(None) => (SetupState::Finished, StepView::Exit(0)),
            Err(_) => (SetupState::Finished, StepView::Exit(failure_code(state))),
        },
        (SetupState::ActivatingTrial, SetupEvent::TrialActivated(r)) => match r {
            Ok(_) => (SetupState::CheckingSidecar, StepView::CheckSidecar),
            Err(_) => (SetupState::Finished, StepView::Exit(failure_code(state))),
        },
        (SetupState::CheckingSidecar, SetupEvent::SidecarChecked(r)) => match r {
            Ok(_) => (SetupState::WritingRecipe, StepView::WriteRecipe),
            Err(_) => (SetupState::ConfirmingInstall, StepView::AskInstall),
        },
        (SetupState::ConfirmingInstall, SetupEvent::Answered(answer)) => match answer {
            Ok(true) => (SetupState::InstallingSidecar, StepView::InstallSidecar),
            Ok(false) => (SetupState::Finished, StepView::Exit(0)),
            Err(_) => (SetupState::Finished, StepView::Exit(2)),
        },
        (SetupState::InstallingSidecar, SetupEvent::SidecarInstalled(r)) => match r {
            Ok(_) => (SetupState::WritingRecipe, StepView::WriteRecipe),
            Err(_) => (SetupState::Finished, StepView::Exit(failure_code(state))),
        },
        (SetupState::WritingRecipe, SetupEvent::RecipeWritten(r)) => match r {
            Ok(_) => (SetupState::FindingCoverage, StepView::FindCoverage),
            Err(_) => (SetupState::Finished, StepView::Exit(failure_code(state))),
        },
        (SetupState::FindingCoverage, SetupEvent::CoverageChecked(found)) => match found {
            Some(p) => (SetupState::RunningHealth, StepView::RunHealth(p@)),
            None => (SetupState::Finished, StepView::Exit(0)),
        },
        (SetupState::RunningHealth, SetupEvent::HealthFinished(code)) => (SetupState::Finished, StepView::Exit(code)),
        _ => (SetupState::Finished, StepView::Exit(2)),
    }
}

/// One step of the setup flow (see [`setup_transition`]).
pub fn next_setup_step(state: SetupState, event: SetupEvent) -> (r: (SetupState, SetupAction))
    ensures
        (r.0, action_view(r.1)) == setup_transition(state, event),
{
    match (state, event) {
        (SetupState::Start, SetupEvent::Started) => (SetupState::CheckingLicense, SetupAction::CheckLicense),
        (SetupState::CheckingLicense, SetupEvent::LicenseChecked(check)) => match check {
            LicenseCheck::Usable => (SetupState::CheckingSidecar, SetupAction::CheckSidecar),
            _ => (SetupState::ConfirmingTrial, SetupAction::AskTrial),
        },
        (SetupState::ConfirmingTrial, SetupEvent::Answered(answer)) => match answer {
            Ok(true) => (SetupState::AskingEmail, SetupAction::AskEmail),
            Ok(false) => (SetupState::Finished, SetupAction::Exit(0)),
            Err(_) => (SetupState::Finished, SetupAction::Exit(2)),
        },
        (SetupState::AskingEmail, SetupEvent::EmailGiven(email)) => match email {
            Ok(Some(e)) => (SetupState::ActivatingTrial, SetupAction::ActivateTrial(e)),
            Ok(None) => (SetupState::Finished, SetupAction::Exit(0)),
            Err(_) => (SetupState::Finished, SetupAction::Exit(2)),
        },
        (SetupState::ActivatingTrial, SetupEvent::TrialActivated(r)) => match r {
            Ok(_) => (SetupState::CheckingSidecar, SetupAction::CheckSidecar),
            Err(_) => (SetupState::Finished, SetupAction::Exit(7)),
        },
        (SetupState::CheckingSidecar, SetupEvent::SidecarChecked(r)) => match r {
            Ok(_) => (SetupState::WritingRecipe, SetupAction::WriteRecipe),
            Err(_) => (SetupState::ConfirmingInstall, SetupAction::AskInstall),
        },
        (SetupState::ConfirmingInstall, SetupEvent::Answered(answer)) => match answer {
            Ok(true) => (SetupState::InstallingSidecar, SetupAction::InstallSidecar),
            Ok(false) => (SetupState::Finished, SetupAction::Exit(0)),
            Err(_) => (SetupState::Finished, SetupAction::Exit(2)),
        },
        (SetupState::InstallingSidecar, SetupEvent::SidecarInstalled(r)) => match r {
            Ok(_) => (SetupState::WritingRecipe, SetupAction::WriteRecipe),
            Err(_) => (SetupState::Finished, SetupAction::Exit(4)),
        },
        (SetupState::WritingRecipe, SetupEvent::RecipeWritten(r)) => match r {
            Ok(_) => (SetupState::FindingCoverage, SetupAction::FindCoverage),
            Err(_) => (SetupState::Finished, SetupAction::Exit(2)),
        },
        (SetupState::FindingCoverage, SetupEvent::CoverageChecked(found)) => match found {
            Some(p) => (SetupState::RunningHealth, SetupAction::RunHealth(p)),
            None => (SetupState::Finished, SetupAction::Exit(0)),
        },
        (SetupState::RunningHealth, SetupEvent::HealthFinished(code)) => (SetupState::Finished, SetupAction::Exit(code)),
        _ => (SetupState::Finished, SetupAction::Exit(2)),
    }
}

// ---- answering prompts -----------------------------------------------------

/// How a yes/no prompt is answered.
#[derive(Debug, Clone, Copy, PartialEq, Eq, Structural)]
pub enum PromptMode {
    /// `--non-interactive`: the prompt is skipped and counts as a no.
    Skip,
    /// `--yes`: the prompt counts as a yes.
    AutoYes,
    /// Read the answer from the terminal.
    Ask,
}

/// How prompts are answered under the setup arguments; `--non-interactive`
/// wins over `--yes`.
pub fn prompt_mode(args: SetupArgs) -> (r: PromptMode)
    ensures
        r == (if args.non_interactive { PromptMode::Skip } else if args.yes { PromptMode::AutoYes } else { PromptMode::Ask }),
{
    if args.non_interactive {
        PromptMode::Skip
    } else if args.yes {
        PromptMode::AutoYes
    } else {
        PromptMode::Ask
    }
}

/// Whether a typed answer accepts: empty, `y` or `yes`, ignoring surrounding
/// whitespace and ASCII case.
pub open spec fn accepts_answer(answer: Seq<char>) -> bool {
    let a = trim(answer);
    ||| a.len() == 0
    ||| a.len() == 1 && (a[0] == 'y' || a[0] == 'Y')
    ||| a.len() == 3 && (a[0] == 'y' || a[0] == 'Y') && (a[1] == 'e' || a[1] == 'E') && (a[2] == 's' || a[2] == 'S')
}

/// Whether a typed answer to a yes/no prompt accepts (see [`accepts_answer`]).
pub fn is_accepting_answer(answer: &str) -> (r: bool)
    ensures
        r == accepts_answer(answer@),
{
    let v = str_chars(answer);
    let a = trim_chars(&v);
    let n = a.len();
    n == 0 || (n == 1 && (a[0] == 'y' || a[0] == 'Y')) || (n == 3 && (a[0] == 'y' || a[0] == 'Y') && (a[1] == 'e'
        || a[1] == 'E') && (a[2] == 's' || a[2] == 'S'))
}

/// The message for an empty trial email.
pub const EMAIL_REQUIRED: &'static str = "email is required to start a trial";

/// A typed trial email: the answer without surrounding whitespace, which
/// must not be empty.
pub fn typed_email(answer: &str) -> (r: Result<String, &'static str>)
    ensures
        trim(answer@).len() == 0 ==> r == Err::<String, &'static str>(EMAIL_REQUIRED),
        trim(answer@).len() > 0 ==> (r matches Ok(e) && e@ == trim(answer@)),
{
    let v = str_chars(answer);
    let t = trim_chars(&v);
    if t.len() == 0 {
        Err(EMAIL_REQUIRED)
    } else {
        Ok(string_from_chars(&t))
    }
}

// ---- laws ---------------------------------------------------------------

/// A usable license never offers a trial: the flow goes on to the sidecar.
pub proof fn lemma_usable_license_skips_trial()
    ensures
        setup_transition(SetupState::CheckingLicense, SetupEvent::LicenseChecked(LicenseCheck::Usable))
            == (SetupState::CheckingSidecar, StepView::CheckSidecar),
{
}

/// Declining either prompt ends the run successfully, and every exit leaves
/// the flow finished.
pub proof fn lemma_declining_ends_successfully(state: SetupState, event: SetupEvent)
    ensures
        (state == SetupState::ConfirmingTrial || state == SetupState::ConfirmingInstall)
            && event == SetupEvent::Answered(Ok(false))
            ==> setup_transition(state, event) == (SetupState::Finished, StepView::Exit(0)),
        setup_transition(state, event).1 is Exit ==> setup_transition(state, event).0 == SetupState::Finished,
        setup_transition(state, event).0 == SetupState::Finished ==> setup_transition(state, event).1 is Exit,
{
}

} // verus!
