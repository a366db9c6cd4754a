use jarvis::classifier::{
    build_labels, intent_from_classification, resolve_intent, ClassificationFailureReason,
    ClassificationLabels, ScoredLabel,
};
use jarvis::commander::{cleaned_line_with_indentation, parse_command_map, Commander};
use jarvis::model::{
    Command, CommandAction, CommandGradientValue, CommandSubject, CommandSwitchValue, Intent,
    Labelable,
};

fn strings(v: &[&str]) -> Vec<String> {
    v.iter().map(|s| s.to_string()).collect()
}

fn config() -> Vec<String> {
    strings(&[
        "name: jarvis",
        "commands:",
        "  - \"living room\":",
        "    - switch:",
        "      - light",
        "      - teapot",
        "    - gradient:",
        "      - windowblinds",
        "  - hallway:",
        "    - switch:",
        "      - light",
        "    - dance:",
        "      - light",
        "    - switch:",
        "      - unicorn",
        "other:",
        "  - garden:",
        "    - switch:",
        "      - light",
    ])
}

fn command(location: &str, action: CommandAction, subject: CommandSubject) -> Command {
    Command { location: location.to_string(), action, subject }
}

fn scored(pairs: &[(&str, u32)]) -> Vec<ScoredLabel> {
    pairs.iter().map(|(t, s)| ScoredLabel { text: t.to_string(), score: *s }).collect()
}

fn labels() -> ClassificationLabels {
    ClassificationLabels {
        intents: strings(&["command", "question"]),
        locations: strings(&["living room", "hallway"]),
        actions: strings(&["switch", "turn on", "close"]),
        subjects: strings(&["light", "teapot", "windowblinds"]),
    }
}

fn registry() -> Commander {
    Commander {
        commands: vec![command(
            "living room",
            CommandAction::Switch(CommandSwitchValue::On),
            CommandSubject::Light,
        )],
        locations: strings(&["living room", "hallway"]),
    }
}

#[test]
fn cleaned_lines_report_level_and_text() {
    assert_eq!(cleaned_line_with_indentation("  - \"living room\":"), (1, "living room"));
    assert_eq!(cleaned_line_with_indentation("\t\t- switch:"), (2, "switch"));
    assert_eq!(cleaned_line_with_indentation("   \t- light"), (2, "light"));
    assert_eq!(cleaned_line_with_indentation("commands:"), (0, "commands"));
    assert_eq!(cleaned_line_with_indentation("  --\"\":"), (1, ""));
}

#[test]
fn command_map_is_parsed() {
    let (map, locations) = parse_command_map(&config());
    assert_eq!(locations, strings(&["living room", "hallway"]));
    assert_eq!(
        map.commands,
        vec![
            command("living room", CommandAction::Switch(CommandSwitchValue::Off), CommandSubject::Light),
            command("living room", CommandAction::Switch(CommandSwitchValue::Off), CommandSubject::Teapot),
            command(
                "living room",
                CommandAction::Gradient(CommandGradientValue::Min),
                CommandSubject::WindowBlinds
            ),
            command("hallway", CommandAction::Switch(CommandSwitchValue::Off), CommandSubject::Light),
        ]
    );
}

#[test]
fn registry_answers_for_loaded_triples_only() {
    let commander = Commander::new(&config());
    for c in &commander.commands {
        assert!(commander.supports_command(c));
    }
    assert!(commander.supports_command(&command(
        "hallway",
        CommandAction::Switch(CommandSwitchValue::On),
        CommandSubject::Light
    )));
    // same location and subject, other action family
    assert!(!commander.supports_command(&command(
        "hallway",
        CommandAction::Gradient(CommandGradientValue::Max),
        CommandSubject::Light
    )));
    assert!(!commander.supports_command(&command(
        "garden",
        CommandAction::Switch(CommandSwitchValue::On),
        CommandSubject::Light
    )));
    assert!(!commander.supports_command(&command(
        "hallway",
        CommandAction::Switch(CommandSwitchValue::On),
        CommandSubject::Teapot
    )));
}

#[test]
fn action_and_subject_keywords() {
    assert_eq!(CommandAction::from_command_parser("switch"), Some(CommandAction::Switch(CommandSwitchValue::Off)));
    assert_eq!(CommandAction::from_command_parser("gradient"), Some(CommandAction::Gradient(CommandGradientValue::Min)));
    assert_eq!(CommandAction::from_command_parser("dance"), None);
    assert_eq!(CommandAction::from_label("turn on"), CommandAction::Switch(CommandSwitchValue::On));
    assert_eq!(CommandAction::from_label("open"), CommandAction::Gradient(CommandGradientValue::Max));
    assert_eq!(CommandAction::from_label("whatever"), CommandAction::Switch(CommandSwitchValue::Off));
    assert!(CommandAction::Switch(CommandSwitchValue::On).is_same_action(&CommandAction::Switch(CommandSwitchValue::Off)));
    assert!(!CommandAction::Switch(CommandSwitchValue::On).is_same_action(&CommandAction::Gradient(CommandGradientValue::Max)));
    assert_eq!(CommandSubject::from_command_parser("windowblinds"), Some(CommandSubject::WindowBlinds));
    assert_eq!(CommandSubject::from_command_parser("window blinds"), None);
    assert_eq!(CommandSubject::from_label("unknown"), CommandSubject::Light);
    assert_eq!(CommandSubject::WindowBlinds.display_text(), "window blinds");
    assert_eq!(CommandAction::Gradient(CommandGradientValue::More).display_text(), "raised");
    assert!(Intent::is_label_question("question"));
    assert!(!Intent::is_label_question("command"));
}

#[test]
fn vocabulary_is_built_from_registry() {
    let commander = Commander::new(&config());
    let labels = build_labels(&commander);
    assert_eq!(labels.intents, strings(&["command", "question"]));
    assert_eq!(labels.locations, strings(&["living room", "hallway"]));
    assert_eq!(labels.actions, CommandAction::labels());
    assert_eq!(labels.subjects, CommandSubject::labels());
    let vocabulary = labels.vocabulary();
    assert_eq!(vocabulary.len(), 2 + 6 + 5 + 2);
    assert_eq!(vocabulary[0], "living room");
    assert_eq!(vocabulary[14], "question");
}

#[test]
fn question_short_circuits_other_scores() {
    let output = scored(&[
        ("living room", 990_000),
        ("switch", 990_000),
        ("light", 990_000),
        ("question", 860_000),
    ]);
    match resolve_intent("what is the time", &output, &labels(), &registry()) {
        Ok(Intent::Question(q)) => assert_eq!(q, "what is the time"),
        _ => panic!("expected a question"),
    }
    match intent_from_classification("what is the time", &output, &labels()) {
        (Intent::Question(_), score) => assert_eq!(score, 860_000),
        _ => panic!("expected a question"),
    }
}

#[test]
fn question_at_threshold_does_not_short_circuit() {
    let output = scored(&[("question", 850_000), ("living room", 100_000)]);
    assert!(matches!(
        resolve_intent("what", &output, &labels(), &registry()),
        Err(ClassificationFailureReason::UnrecognizedInstruction)
    ));
}

#[test]
fn end_to_end_command_resolution() {
    let output = scored(&[
        ("hallway", 100_000),
        ("living room", 900_000),
        ("turn on", 300_000),
        ("switch", 950_000),
        ("teapot", 10_000),
        ("light", 920_000),
        ("question", 200_000),
    ]);
    match resolve_intent("lights off", &output, &labels(), &registry()) {
        Ok(Intent::Command(c)) => assert_eq!(
            c,
            command("living room", CommandAction::Switch(CommandSwitchValue::Off), CommandSubject::Light)
        ),
        _ => panic!("expected a command"),
    }
    match intent_from_classification("lights off", &output, &labels()) {
        (Intent::Command(_), score) => assert_eq!(score, 900_000),
        _ => panic!("expected a command"),
    }
}

#[test]
fn weakest_slot_below_threshold_is_unrecognized() {
    let output = scored(&[("living room", 900_000), ("switch", 950_000), ("light", 849_999)]);
    assert!(matches!(
        resolve_intent("x", &output, &labels(), &registry()),
        Err(ClassificationFailureReason::UnrecognizedInstruction)
    ));
    assert!(matches!(
        resolve_intent("x", &Vec::new(), &labels(), &registry()),
        Err(ClassificationFailureReason::UnrecognizedInstruction)
    ));
}

#[test]
fn confident_but_unregistered_is_unsupported() {
    let output = scored(&[("hallway", 900_000), ("switch", 950_000), ("light", 920_000)]);
    assert!(matches!(
        resolve_intent("x", &output, &labels(), &registry()),
        Err(ClassificationFailureReason::UnsupportedInstruction)
    ));
    let output = scored(&[("living room", 900_000), ("close", 950_000), ("light", 920_000)]);
    assert!(matches!(
        resolve_intent("x", &output, &labels(), &registry()),
        Err(ClassificationFailureReason::UnsupportedInstruction)
    ));
}

#[test]
fn ties_keep_the_first_label() {
    let output = scored(&[
        ("hallway", 900_000),
        ("living room", 900_000),
        ("switch", 950_000),
        ("light", 920_000),
    ]);
    match intent_from_classification("x", &output, &labels()) {
        (Intent::Command(c), _) => assert_eq!(c.location, "hallway"),
        _ => panic!("expected a command"),
    }
}

#[test]
fn known_locations_keep_config_order() {
    let commander = Commander::new(&config());
    assert_eq!(commander.known_locations(), &strings(&["living room", "hallway"]));
}
