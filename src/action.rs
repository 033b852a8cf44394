//! Actions: what a user interaction triggers, turned into messages.
use vstd::prelude::*;

use crate::registry::{Message, MessageView};

verus! {

/// A triggerable effect that turns into a message for the registry.
pub trait Action {
    spec fn spec_message(&self) -> MessageView;

    fn as_message(&self) -> (r: Message)
        ensures
            r@ == self.spec_message(),
    ;
}

/// Runs a shell command.
#[derive(Debug)]
pub struct CommandAction(String);

impl CommandAction {
    pub fn new(command: String) -> (r: CommandAction)
        ensures
            r.command() == command@,
    {
        CommandAction(command)
    }

    /// The shell command this action runs.
    pub closed spec fn command(&self) -> Seq<char> {
        self.0@
    }
}

impl Action for CommandAction {
    open spec fn spec_message(&self) -> MessageView {
        MessageView::Command(self.command())
    }

    fn as_message(&self) -> (r: Message) {
        Message::Command(self.0.clone())
    }
}

#[derive(Clone, Copy, Debug, PartialEq, Eq, Hash, Structural)]
pub enum MouseButton {
    Left,
    Middle,
    Right,
    Other,
}

/// A user interaction with a module.
#[derive(Clone, Copy, Debug, PartialEq, Eq, Hash, Structural)]
pub enum ClickEvent {
    ButtonReleased(MouseButton),
    Other,
}

/// The actions bound to releasing each mouse button over a module.
#[derive(Debug, Default)]
pub struct OnClickAction {
    pub left: Option<CommandAction>,
    pub center: Option<CommandAction>,
    pub right: Option<CommandAction>,
}

/// The command of the action picked, if one was.
pub open spec fn command_of(a: Option<&CommandAction>) -> Option<Seq<char>> {
    match a {
        Some(c) => Some(c.command()),
        None => None,
    }
}

/// The command of a binding, if the binding is set.
pub open spec fn bound_command(a: Option<CommandAction>) -> Option<Seq<char>> {
    match a {
        Some(c) => Some(c.command()),
        None => None,
    }
}

impl OnClickAction {
    /// The action bound to `event`: releasing the left, middle or right
    /// button picks the matching binding; any other event picks none.
    pub fn event(&self, event: ClickEvent) -> (r: Option<&CommandAction>)
        ensures
            command_of(r) == match event {
                ClickEvent::ButtonReleased(MouseButton::Left) => bound_command(self.left),
                ClickEvent::ButtonReleased(MouseButton::Middle) => bound_command(self.center),
                ClickEvent::ButtonReleased(MouseButton::Right) => bound_command(self.right),
                _ => None,
            },
    {
        match event {
            ClickEvent::ButtonReleased(MouseButton::Left) => self.left.as_ref(),
            ClickEvent::ButtonReleased(MouseButton::Middle) => self.center.as_ref(),
            ClickEvent::ButtonReleased(MouseButton::Right) => self.right.as_ref(),
            _ => None,
        }
    }
}

} // verus!
