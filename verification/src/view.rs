//! What the parts of a view show.

use vstd::prelude::*;

verus! {

/// The colour scheme of a part of a view.
#[derive(Clone, Copy, Debug, PartialEq, Eq, Structural)]
pub enum Flavor {
    Primary,
    Secondary,
    Success,
    Danger,
    Warning,
    Info,
}

/// A message at the top of a view.
#[derive(Debug)]
pub struct Alert {
    pub text: String,
    pub flavor: Flavor,
    pub is_visible: bool,
}

/// The contents of a message.
pub struct AlertModel {
    pub text: Seq<char>,
    pub flavor: Flavor,
    pub is_visible: bool,
}

impl View for Alert {
    type V = AlertModel;

    open spec fn view(&self) -> AlertModel {
        AlertModel { text: self.text@, flavor: self.flavor, is_visible: self.is_visible }
    }
}

/// A message that is shown.
pub open spec fn shown(text: Seq<char>, flavor: Flavor) -> AlertModel {
    AlertModel { text, flavor, is_visible: true }
}

/// A message that is hidden, with its text and flavor as they were.
pub open spec fn hidden(alert: AlertModel) -> AlertModel {
    AlertModel { is_visible: false, ..alert }
}

impl Alert {
    /// A message that is shown.
    pub fn new(text: String, flavor: Flavor) -> (r: Self)
        ensures
            r@ == shown(text@, flavor),
    {
        Alert { text, flavor, is_visible: true }
    }

    /// Hides the message.
    pub fn dismiss(&mut self)
        ensures
            final(self)@ == hidden(old(self)@),
    {
        self.is_visible = false;
    }
}

/// A new message is visible, with its own text and flavor; to hide it changes only that.
pub proof fn messages_are_shown_and_hidden(text: Seq<char>, flavor: Flavor, alert: AlertModel)
    ensures
        shown(text, flavor).is_visible,
        shown(text, flavor).text == text,
        shown(text, flavor).flavor == flavor,
        !hidden(alert).is_visible,
        hidden(alert).text == alert.text,
        hidden(alert).flavor == alert.flavor,
{
}

} // verus!
