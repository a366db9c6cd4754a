use jarvis::classifier::ClassificationFailureReason;
use jarvis::errors::{JarvisError, JarvisErrorReason};
use jarvis::executor::{gpio_toggle_for, GpioToggle};
use jarvis::feedback::{
    command_feedback, extract_answer, fallback_answer, feedback_for_command, feedback_for_error,
    read_fallback_feedback,
};
use jarvis::model::{Command, CommandAction, CommandGradientValue, CommandSubject, CommandSwitchValue};
use jarvis::signals::JarvisSignals;

fn blinds() -> Command {
    Command {
        location: "bedroom".to_string(),
        action: CommandAction::Gradient(CommandGradientValue::Max),
        subject: CommandSubject::WindowBlinds,
    }
}

fn light(location: &str, value: CommandSwitchValue) -> Command {
    Command {
        location: location.to_string(),
        action: CommandAction::Switch(value),
        subject: CommandSubject::Light,
    }
}

#[test]
fn error_feedback_sentences() {
    assert_eq!(
        feedback_for_error(ClassificationFailureReason::UnsupportedInstruction),
        "I don't know how to do this yet."
    );
    assert_eq!(
        feedback_for_error(ClassificationFailureReason::UnrecognizedInstruction),
        "I'm not sure I recognize your instruction"
    );
    assert_eq!(
        feedback_for_error(ClassificationFailureReason::Unknown),
        "Sorry, something went wrong. Could you repeat that?"
    );
}

#[test]
fn command_feedback_sentences() {
    let c = blinds();
    assert_eq!(command_feedback(&c, 0), "I've opened the window blinds in the bedroom");
    assert_eq!(command_feedback(&c, 1), "the window blinds in the bedroom has been opened");
    assert_eq!(command_feedback(&c, 2), "the window blinds in the bedroom is now opened");
    assert_eq!(command_feedback(&c, 3), "I've successfully opened the window blinds in the bedroom");
    assert_eq!(command_feedback(&c, 4), "Done! the window blinds in the bedroom is now opened");
}

#[test]
fn random_feedback_is_one_of_the_phrasings() {
    let c = blinds();
    let all: Vec<String> = (0..5).map(|p| command_feedback(&c, p)).collect();
    for _ in 0..50 {
        let r = feedback_for_command(&c);
        assert!(all.contains(&r));
    }
}

#[test]
fn answers_are_cut_from_generated_text() {
    assert_eq!(
        extract_answer("What is up?", "What is up? The sky. Birds too."),
        " The sky"
    );
    assert_eq!(extract_answer("ab", "ababab tail"), " tail");
    assert_eq!(extract_answer("q", "no echo here"), "no echo here");
    assert_eq!(extract_answer("", "x. y"), "x");
    assert_eq!(extract_answer("q", "q"), "");
    assert_eq!(fallback_answer(), "I don't know");
}

#[test]
fn gpio_outputs_for_lights() {
    assert_eq!(
        gpio_toggle_for(&light("living room", CommandSwitchValue::On)),
        Some(GpioToggle { pin: 26, high: true })
    );
    assert_eq!(
        gpio_toggle_for(&light("hallway", CommandSwitchValue::Off)),
        Some(GpioToggle { pin: 19, high: false })
    );
    assert_eq!(gpio_toggle_for(&light("kitchen", CommandSwitchValue::On)), None);
    assert_eq!(gpio_toggle_for(&blinds()), None);
}

#[test]
fn shutdown_is_idempotent_and_sticky() {
    let signals = JarvisSignals::new();
    assert!(!signals.is_shutdown());
    assert!(!signals.is_speaker_active());
    signals.set_speaker_active(true);
    assert!(signals.is_speaker_active());
    signals.set_shutdown();
    signals.set_shutdown();
    assert!(signals.is_shutdown());
    signals.set_speaker_active(false);
    assert!(!signals.is_speaker_active());
    assert!(signals.is_shutdown());
}

#[test]
fn errors_and_fallback_audio() {
    let e = JarvisError::no_mic();
    assert_eq!(e.reason(), JarvisErrorReason::NoMicrophone);
    assert_eq!(e.message(), "No microphone found.");
    assert!(read_fallback_feedback().is_empty());
}
