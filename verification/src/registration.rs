//! When notebook files are opened in the notebook editor at all.

use vstd::prelude::*;

verus! {

/// What decides whether notebooks are opened in the notebook editor.
#[derive(Clone, Copy, PartialEq, Eq, Structural, Debug)]
pub struct Availability {
    /// Whether the settings ask for it.
    pub notebooks_enabled: bool,
    /// Whether the feature has been released to the user.
    pub has_flag: bool,
    /// Whether the editor itself is being worked on.
    pub local_development: bool,
}

/// Whether the notebook editor is offered: anything that speaks for it is enough.
pub open spec fn is_offered(availability: Availability) -> bool {
    availability.notebooks_enabled || availability.has_flag || availability.local_development
}

/// Whether the notebook editor is offered.
pub fn notebook_editor_enabled(availability: &Availability) -> (enabled: bool)
    ensures
        enabled == is_offered(*availability),
{
    availability.notebooks_enabled || availability.has_flag || availability.local_development
}

/// Whether notebook files are opened in the notebook editor. Once they are, they stay so: there is
/// no way back.
#[derive(Clone, Copy, PartialEq, Eq, Structural, Debug)]
pub struct Registration {
    pub registered: bool,
}

/// Registers the notebook editor, if it is offered.
pub fn init(availability: &Availability) -> (registration: Registration)
    ensures
        registration.registered == is_offered(*availability),
{
    Registration { registered: notebook_editor_enabled(availability) }
}

impl Registration {
    /// The registration once the release of the feature has changed for the user.
    pub open spec fn with_flag(self, is_enabled: bool, notebooks_enabled: bool) -> Registration {
        Registration { registered: self.registered || is_enabled || notebooks_enabled }
    }

    /// The registration once the settings have changed.
    pub open spec fn with_settings(self, availability: Availability) -> Registration {
        Registration { registered: self.registered || is_offered(availability) }
    }

    /// Takes note that the release of the feature has changed for the user.
    pub fn flag_changed(&mut self, is_enabled: bool, notebooks_enabled: bool)
        ensures
            *final(self) == old(self).with_flag(is_enabled, notebooks_enabled),
    {
        if is_enabled || notebooks_enabled {
            self.registered = true;
        }
    }

    /// Takes note that the settings have changed.
    pub fn settings_changed(&mut self, availability: &Availability)
        ensures
            *final(self) == old(self).with_settings(*availability),
    {
        if notebook_editor_enabled(availability) {
            self.registered = true;
        }
    }
}

/// Nothing that changes later takes the registration back, each thing that speaks for the editor
/// registers it by itself, and where nothing does it is registered only if it was.
pub proof fn registration_is_for_good(
    registration: Registration,
    availability: Availability,
    is_enabled: bool,
    notebooks_enabled: bool,
)
    ensures
        registration.registered ==> registration.with_flag(
            is_enabled,
            notebooks_enabled,
        ).registered,
        registration.registered ==> registration.with_settings(availability).registered,
        registration.with_flag(true, notebooks_enabled).registered,
        registration.with_flag(is_enabled, true).registered,
        registration.with_flag(false, false) == registration,
        availability.notebooks_enabled ==> registration.with_settings(availability).registered
            && is_offered(availability),
        availability.has_flag ==> registration.with_settings(availability).registered
            && is_offered(availability),
        availability.local_development ==> registration.with_settings(availability).registered
            && is_offered(availability),
        !availability.notebooks_enabled && !availability.has_flag && !availability.local_development
            ==> registration.with_settings(availability) == registration && !is_offered(
            availability,
        ),
{
}

} // verus!
