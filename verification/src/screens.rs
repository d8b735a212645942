//! Which screen the interactive dashboard is showing.

use vstd::prelude::*;

use crate::ui::{SetupWizardState, WizardState};

verus! {

/// Which screen the interactive dashboard is showing. Payload strings name
/// the server the view concerns.
pub enum View {
    Dashboard,
    Detail(String),
    Wizard(WizardState),
    SetupWizard(SetupWizardState),
    CredentialMenu(String),
    CredentialInput(String),
    DeleteConfirm(String),
    Help,
    Error { message: String, underlying: Box<View> },
}

} // verus!
