use vstd::prelude::*;

use crate::text::str_eq;

verus! {

#[derive(Debug, Clone, Copy, PartialEq, Eq, Structural)]
pub enum CommandSwitchValue {
    On,
    Off,
}

#[derive(Debug, Clone, Copy, PartialEq, Eq, Structural)]
pub enum CommandGradientValue {
    Min,
    Max,
    Less,
    More,
}

#[derive(Debug, Clone, Copy, PartialEq, Eq, Structural)]
pub enum CommandAction {
    Switch(CommandSwitchValue),
    Gradient(CommandGradientValue),
}

#[derive(Debug, Clone, Copy, PartialEq, Eq, Structural)]
pub enum CommandSubject {
    Light,
    Teapot,
    WindowBlinds,
    Temperature,
    Ventilator,
}

/// A type whose values are named by a fixed vocabulary of classifier labels.
pub trait Labelable: Sized {
    spec fn spec_labels() -> Seq<Seq<char>>;

    fn labels() -> (r: Vec<String>)
        ensures
            r@.len() == Self::spec_labels().len(),
            forall|i: int| 0 <= i < r@.len() ==> (#[trigger] r@[i])@ == Self::spec_labels()[i],
    ;
}

/// Action families: the variant tag, ignoring the polarity it carries.
pub open spec fn same_family(a: CommandAction, b: CommandAction) -> bool {
    (a is Switch && b is Switch) || (a is Gradient && b is Gradient)
}

/// The action named by a configuration keyword.
pub open spec fn spec_action_from_config(s: Seq<char>) -> Option<CommandAction> {
    if s == "switch"@ {
        Some(CommandAction::Switch(CommandSwitchValue::Off))
    } else if s == "gradient"@ {
        Some(CommandAction::Gradient(CommandGradientValue::Min))
    } else {
        None
    }
}

/// The action named by a classifier label; unknown labels mean switching off.
pub open spec fn spec_action_from_label(s: Seq<char>) -> CommandAction {
    if s == "switch"@ || s == "turn off"@ {
        CommandAction::Switch(CommandSwitchValue::Off)
    } else if s == "turn on"@ {
        CommandAction::Switch(CommandSwitchValue::On)
    } else if s == "increase"@ {
        CommandAction::Gradient(CommandGradientValue::More)
    } else if s == "decrease"@ {
        CommandAction::Gradient(CommandGradientValue::Less)
    } else if s == "close"@ {
        CommandAction::Gradient(CommandGradientValue::Min)
    } else if s == "open"@ {
        CommandAction::Gradient(CommandGradientValue::Max)
    } else {
        CommandAction::Switch(CommandSwitchValue::Off)
    }
}

/// The past-tense phrase that describes a performed action.
pub open spec fn spec_action_text(a: CommandAction) -> Seq<char> {
    match a {
        CommandAction::Switch(CommandSwitchValue::On) => "turned on"@,
        CommandAction::Switch(CommandSwitchValue::Off) => "turned off"@,
        CommandAction::Gradient(CommandGradientValue::Min) => "closed"@,
        CommandAction::Gradient(CommandGradientValue::Max) => "opened"@,
        CommandAction::Gradient(CommandGradientValue::More) => "raised"@,
        CommandAction::Gradient(CommandGradientValue::Less) => "lowered"@,
    }
}

/// The subject named by a lowercase keyword.
pub open spec fn spec_subject_from_str(s: Seq<char>) -> Option<CommandSubject> {
    if s == "light"@ {
        Some(CommandSubject::Light)
    } else if s == "teapot"@ {
        Some(CommandSubject::Teapot)
    } else if s == "windowblinds"@ {
        Some(CommandSubject::WindowBlinds)
    } else if s == "temperature"@ {
        Some(CommandSubject::Temperature)
    } else if s == "ventilator"@ {
        Some(CommandSubject::Ventilator)
    } else {
        None
    }
}

/// The subject named by a classifier label; unknown labels mean the light.
pub open spec fn spec_subject_from_label(s: Seq<char>) -> CommandSubject {
    match spec_subject_from_str(s) {
        Some(subject) => subject,
        None => CommandSubject::Light,
    }
}

/// How a subject is spoken of in feedback sentences.
pub open spec fn spec_subject_text(s: CommandSubject) -> Seq<char> {
    match s {
        CommandSubject::Light => "light"@,
        CommandSubject::Teapot => "teapot"@,
        CommandSubject::WindowBlinds => "window blinds"@,
        CommandSubject::Temperature => "temperature"@,
        CommandSubject::Ventilator => "ventilator"@,
    }
}

impl CommandAction {
    /// Reads an action keyword of the command map.
    pub fn from_command_parser(s: &str) -> (r: Option<CommandAction>)
        ensures
            r == spec_action_from_config(s@),
    {
        if str_eq(s, "switch") {
            Some(CommandAction::Switch(CommandSwitchValue::Off))
        } else if str_eq(s, "gradient") {
            Some(CommandAction::Gradient(CommandGradientValue::Min))
        } else {
            None
        }
    }

    /// Whether both actions belong to the same family.
    pub fn is_same_action(&self, other: &CommandAction) -> (r: bool)
        ensures
            r == same_family(*self, *other),
    {
        match (self, other) {
            (CommandAction::Switch(_), CommandAction::Switch(_)) => true,
            (CommandAction::Gradient(_), CommandAction::Gradient(_)) => true,
            _ => false,
        }
    }

    /// Reads a classifier label.
    pub fn from_label(label: &str) -> (r: CommandAction)
        ensures
            r == spec_action_from_label(label@),
    {
        if str_eq(label, "switch") || str_eq(label, "turn off") {
            CommandAction::Switch(CommandSwitchValue::Off)
        } else if str_eq(label, "turn on") {
            CommandAction::Switch(CommandSwitchValue::On)
        } else if str_eq(label, "increase") {
            CommandAction::Gradient(CommandGradientValue::More)
        } else if str_eq(label, "decrease") {
            CommandAction::Gradient(CommandGradientValue::Less)
        } else if str_eq(label, "close") {
            CommandAction::Gradient(CommandGradientValue::Min)
        } else if str_eq(label, "open") {
            CommandAction::Gradient(CommandGradientValue::Max)
        } else {
            CommandAction::Switch(CommandSwitchValue::Off)
        }
    }

    /// The phrase used for this action in feedback.
    pub fn display_text(&self) -> (r: String)
        ensures
            r@ == spec_action_text(*self),
    {
        let s = match self {
            CommandAction::Switch(CommandSwitchValue::On) => "turned on",
            CommandAction::Switch(CommandSwitchValue::Off) => "turned off",
            CommandAction::Gradient(CommandGradientValue::Min) => "closed",
            CommandAction::Gradient(CommandGradientValue::Max) => "opened",
            CommandAction::Gradient(CommandGradientValue::More) => "raised",
            CommandAction::Gradient(CommandGradientValue::Less) => "lowered",
        };
        s.to_owned()
    }
}

impl Labelable for CommandAction {
    open spec fn spec_labels() -> Seq<Seq<char>> {
        seq!["turn on"@, "turn off"@, "increase"@, "decrease"@, "close"@, "open"@]
    }

    fn labels() -> (r: Vec<String>) {
        let mut v: Vec<String> = Vec::new();
        v.push("turn on".to_owned());
        v.push("turn off".to_owned());
        v.push("increase".to_owned());
        v.push("decrease".to_owned());
        v.push("close".to_owned());
        v.push("open".to_owned());
        v
    }
}

impl CommandSubject {
    /// Reads a subject keyword of the command map.
    pub fn from_command_parser(s: &str) -> (r: Option<CommandSubject>)
        ensures
            r == spec_subject_from_str(s@),
    {
        Self::internal_from_str(s)
    }

    /// The keyword lookup shared by the configuration and the classifier.
    pub fn internal_from_str(s: &str) -> (r: Option<CommandSubject>)
        ensures
            r == spec_subject_from_str(s@),
    {
        if str_eq(s, "light") {
            Some(CommandSubject::Light)
        } else if str_eq(s, "teapot") {
            Some(CommandSubject::Teapot)
        } else if str_eq(s, "windowblinds") {
            Some(CommandSubject::WindowBlinds)
        } else if str_eq(s, "temperature") {
            Some(CommandSubject::Temperature)
        } else if str_eq(s, "ventilator") {
            Some(CommandSubject::Ventilator)
        } else {
            None
        }
    }

    /// Reads a classifier label.
    pub fn from_label(label: &str) -> (r: CommandSubject)
        ensures
            r == spec_subject_from_label(label@),
    {
        match Self::internal_from_str(label) {
            Some(subject) => subject,
            None => CommandSubject::Light,
        }
    }

    /// How this subject is spoken of in feedback.
    pub fn display_text(&self) -> (r: String)
        ensures
            r@ == spec_subject_text(*self),
    {
        let s = match self {
            CommandSubject::Light => "light",
            CommandSubject::Teapot => "teapot",
            CommandSubject::WindowBlinds => "window blinds",
            CommandSubject::Temperature => "temperature",
            CommandSubject::Ventilator => "ventilator",
        };
        s.to_owned()
    }
}

impl Labelable for CommandSubject {
    open spec fn spec_labels() -> Seq<Seq<char>> {
        seq!["light"@, "teapot"@, "windowblinds"@, "temperature"@, "ventilator"@]
    }

    fn labels() -> (r: Vec<String>) {
        let mut v: Vec<String> = Vec::new();
        v.push("light".to_owned());
        v.push("teapot".to_owned());
        v.push("windowblinds".to_owned());
        v.push("temperature".to_owned());
        v.push("ventilator".to_owned());
        v
    }
}

/// A device command: where, what to do, and to what.
#[derive(Debug)]
pub struct Command {
    pub location: String,
    pub action: CommandAction,
    pub subject: CommandSubject,
}

/// The plain value of a command: location text, action and subject.
pub type CommandModel = (Seq<char>, CommandAction, CommandSubject);

impl Command {
    pub open spec fn model(&self) -> CommandModel {
        (self.location@, self.action, self.subject)
    }
}

impl PartialEq for Command {
    fn eq(&self, other: &Command) -> (r: bool) {
        self.location == other.location && self.action == other.action && self.subject
            == other.subject
    }
}

impl vstd::std_specs::cmp::PartialEqSpecImpl for Command {
    open spec fn obeys_eq_spec() -> bool {
        true
    }

    open spec fn eq_spec(&self, other: &Command) -> bool {
        self.model() == other.model()
    }
}

impl Eq for Command {
}

/// What an instruction asks for: a device command or a free-form question.
#[derive(Debug)]
pub enum Intent {
    Command(Command),
    Question(String),
}

impl Intent {
    /// Whether an intent label denotes a question.
    pub fn is_label_question(label: &str) -> (r: bool)
        ensures
            r == (label@ == "question"@),
    {
        str_eq(label, "question")
    }
}

impl Labelable for Intent {
    open spec fn spec_labels() -> Seq<Seq<char>> {
        seq!["command"@, "question"@]
    }

    fn labels() -> (r: Vec<String>) {
        let mut v: Vec<String> = Vec::new();
        v.push("command".to_owned());
        v.push("question".to_owned());
        v
    }
}

} // verus!
