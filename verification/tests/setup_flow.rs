use fallow::coverage::SetupArgs;
use fallow::setup_flow::{
    is_accepting_answer, next_setup_step, prompt_mode, typed_email, LicenseCheck, PromptMode, SetupAction, SetupEvent,
    SetupState, EMAIL_REQUIRED,
};

fn step(state: SetupState, event: SetupEvent) -> (SetupState, SetupAction) {
    next_setup_step(state, event)
}

#[test]
fn setup_with_usable_license_goes_to_sidecar() {
    assert_eq!(step(SetupState::Start, SetupEvent::Started), (SetupState::CheckingLicense, SetupAction::CheckLicense));
    assert_eq!(
        step(SetupState::CheckingLicense, SetupEvent::LicenseChecked(LicenseCheck::Usable)),
        (SetupState::CheckingSidecar, SetupAction::CheckSidecar)
    );
}

#[test]
fn setup_without_license_offers_trial() {
    for check in [
        LicenseCheck::Missing,
        LicenseCheck::HardFail { days_since_expiry: 40 },
        LicenseCheck::Invalid("bad signature".to_string()),
    ] {
        assert_eq!(
            step(SetupState::CheckingLicense, SetupEvent::LicenseChecked(check)),
            (SetupState::ConfirmingTrial, SetupAction::AskTrial)
        );
    }
}

#[test]
fn setup_trial_path_and_its_failures() {
    assert_eq!(step(SetupState::ConfirmingTrial, SetupEvent::Answered(Ok(true))).1, SetupAction::AskEmail);
    assert_eq!(step(SetupState::ConfirmingTrial, SetupEvent::Answered(Ok(false))).1, SetupAction::Exit(0));
    assert_eq!(step(SetupState::ConfirmingTrial, SetupEvent::Answered(Err("no tty".to_string()))).1, SetupAction::Exit(2));
    assert_eq!(
        step(SetupState::AskingEmail, SetupEvent::EmailGiven(Ok(Some("a@b.c".to_string())))).1,
        SetupAction::ActivateTrial("a@b.c".to_string())
    );
    assert_eq!(step(SetupState::AskingEmail, SetupEvent::EmailGiven(Ok(None))).1, SetupAction::Exit(0));
    assert_eq!(step(SetupState::ActivatingTrial, SetupEvent::TrialActivated(Err("offline".to_string()))).1, SetupAction::Exit(7));
    assert_eq!(step(SetupState::ActivatingTrial, SetupEvent::TrialActivated(Ok(()))).1, SetupAction::CheckSidecar);
}

#[test]
fn setup_sidecar_recipe_and_coverage() {
    assert_eq!(step(SetupState::CheckingSidecar, SetupEvent::SidecarChecked(Err("missing".to_string()))).1, SetupAction::AskInstall);
    assert_eq!(step(SetupState::ConfirmingInstall, SetupEvent::Answered(Ok(false))).1, SetupAction::Exit(0));
    assert_eq!(step(SetupState::InstallingSidecar, SetupEvent::SidecarInstalled(Err("npm failed".to_string()))).1, SetupAction::Exit(4));
    assert_eq!(step(SetupState::InstallingSidecar, SetupEvent::SidecarInstalled(Ok("/bin/cov".to_string()))).1, SetupAction::WriteRecipe);
    assert_eq!(step(SetupState::WritingRecipe, SetupEvent::RecipeWritten(Err("read-only".to_string()))).1, SetupAction::Exit(2));
    assert_eq!(step(SetupState::WritingRecipe, SetupEvent::RecipeWritten(Ok("docs/r.md".to_string()))).1, SetupAction::FindCoverage);
    assert_eq!(
        step(SetupState::FindingCoverage, SetupEvent::CoverageChecked(Some("coverage/coverage-final.json".to_string()))).1,
        SetupAction::RunHealth("coverage/coverage-final.json".to_string())
    );
    assert_eq!(step(SetupState::FindingCoverage, SetupEvent::CoverageChecked(None)), (SetupState::Finished, SetupAction::Exit(0)));
    assert_eq!(step(SetupState::RunningHealth, SetupEvent::HealthFinished(1)), (SetupState::Finished, SetupAction::Exit(1)));
}

#[test]
fn setup_event_out_of_turn_ends_with_two() {
    assert_eq!(step(SetupState::Start, SetupEvent::HealthFinished(0)), (SetupState::Finished, SetupAction::Exit(2)));
}

#[test]
fn prompt_answers() {
    for yes in ["", "y", "Y", "yes", "YES", "  Yes \n"] {
        assert!(is_accepting_answer(yes), "{yes:?} accepts");
    }
    for no in ["n", "no", "yep", "ye"] {
        assert!(!is_accepting_answer(no), "{no:?} declines");
    }
    assert_eq!(prompt_mode(SetupArgs { yes: true, non_interactive: true }), PromptMode::Skip);
    assert_eq!(prompt_mode(SetupArgs { yes: true, non_interactive: false }), PromptMode::AutoYes);
    assert_eq!(prompt_mode(SetupArgs::default()), PromptMode::Ask);
    assert_eq!(typed_email("  me@x.io \n"), Ok("me@x.io".to_string()));
    assert_eq!(typed_email("   "), Err(EMAIL_REQUIRED));
}
