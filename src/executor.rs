use vstd::prelude::*;

use crate::model::{Command, CommandAction, CommandSubject, CommandSwitchValue};
use crate::text::str_eq;

verus! {

/// A digital output to drive: its pin and whether to drive it high.
#[derive(Debug, Clone, Copy, PartialEq, Eq, Structural)]
pub struct GpioToggle {
    pub pin: u8,
    pub high: bool,
}

/// Output pin of the living-room light.
pub const GPIO_LIVING_ROOM: u8 = 26;

/// Output pin of the hallway light.
pub const GPIO_HALLWAY: u8 = 19;

/// The output that a command drives: the living-room and hallway lights,
/// switched on or off. Any other command drives nothing.
pub open spec fn spec_gpio_toggle(location: Seq<char>, action: CommandAction, subject: CommandSubject) -> Option<GpioToggle> {
    match action {
        CommandAction::Switch(v) => if subject == CommandSubject::Light && location
            == "living room"@ {
            Some(GpioToggle { pin: GPIO_LIVING_ROOM, high: v == CommandSwitchValue::On })
        } else if subject == CommandSubject::Light && location == "hallway"@ {
            Some(GpioToggle { pin: GPIO_HALLWAY, high: v == CommandSwitchValue::On })
        } else {
            None
        },
        CommandAction::Gradient(_) => None,
    }
}

pub fn gpio_toggle_for(command: &Command) -> (r: Option<GpioToggle>)
    ensures
        r == spec_gpio_toggle(command.location@, command.action, command.subject),
{
    match command.action {
        CommandAction::Switch(v) => {
            let high = v == CommandSwitchValue::On;
            if command.subject == CommandSubject::Light && str_eq(
                command.location.as_str(),
                "living room",
            ) {
                Some(GpioToggle { pin: GPIO_LIVING_ROOM, high })
            } else if command.subject == CommandSubject::Light && str_eq(
                command.location.as_str(),
                "hallway",
            ) {
                Some(GpioToggle { pin: GPIO_HALLWAY, high })
            } else {
                None
            }
        },
        CommandAction::Gradient(_) => None,
    }
}

} // verus!
