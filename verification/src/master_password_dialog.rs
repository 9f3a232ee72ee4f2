//! The dialog for the master password: creating it on the first run, asking for it afterwards.

use vstd::prelude::*;

use crate::text::{opt_text, same};

verus! {

/// Whether the application is unlocked.
#[derive(Clone, Copy, PartialEq, Eq, Structural, Debug)]
pub enum UnlockState {
    /// There is no master password yet.
    FirstRun,
    Locked,
    Unlocked,
}

/// The fields of the dialog.
#[derive(Clone, Debug, PartialEq)]
pub struct MasterPasswordForm {
    pub password: String,
    pub confirm: String,
    pub loading: bool,
    pub show_password: bool,
}

/// The key of the title.
pub fn title_key(mode: UnlockState) -> (r: &'static str)
    ensures
        r@ == (if mode == UnlockState::FirstRun {
            "master_password.create_title"@
        } else {
            "master_password.unlock_title"@
        }),
{
    match mode {
        UnlockState::FirstRun => "master_password.create_title",
        _ => "master_password.unlock_title",
    }
}

/// The key of the line below the title.
pub fn subtitle_key(mode: UnlockState) -> (r: &'static str)
    ensures
        r@ == (if mode == UnlockState::FirstRun {
            "master_password.create_subtitle"@
        } else {
            "master_password.unlock_subtitle"@
        }),
{
    match mode {
        UnlockState::FirstRun => "master_password.create_subtitle",
        _ => "master_password.unlock_subtitle",
    }
}

impl MasterPasswordForm {
    /// Whether the password is typed alike twice, where that is asked.
    pub open spec fn passwords_match(self, mode: UnlockState) -> bool {
        mode != UnlockState::FirstRun || self.password@ == self.confirm@
    }

    /// Whether the password can be handed on.
    pub open spec fn submittable(self, mode: UnlockState) -> bool {
        self.password@.len() > 0 && self.passwords_match(mode) && !self.loading
    }

    /// An empty form.
    pub fn new() -> (r: MasterPasswordForm)
        ensures
            r.password@ == Seq::<char>::empty(),
            r.confirm@ == Seq::<char>::empty(),
            !r.loading,
            !r.show_password,
    {
        MasterPasswordForm {
            password: String::new(),
            confirm: String::new(),
            loading: false,
            show_password: false,
        }
    }

    /// An error ends the waiting, so that another try can be made.
    pub fn error_shown(&mut self, has_error: bool)
        ensures
            final(self).password == old(self).password,
            final(self).confirm == old(self).confirm,
            final(self).show_password == old(self).show_password,
            final(self).loading == (old(self).loading && !has_error),
    {
        if has_error && self.loading {
            self.loading = false;
        }
    }

    /// Whether the password can be handed on.
    pub fn can_submit(&self, mode: UnlockState) -> (r: bool)
        ensures
            r == self.submittable(mode),
    {
        !self.password.as_str().is_empty() && (mode != UnlockState::FirstRun || same(
            self.password.as_str(),
            self.confirm.as_str(),
        )) && !self.loading
    }

    /// Hands the password on where that can be done, and waits for what comes of it.
    pub fn submit(&mut self, mode: UnlockState) -> (r: Option<String>)
        ensures
            final(self).password == old(self).password,
            final(self).confirm == old(self).confirm,
            final(self).show_password == old(self).show_password,
            final(self).loading == (old(self).loading || old(self).submittable(mode)),
            opt_text(r) == (if old(self).submittable(mode) {
                Some(old(self).password@)
            } else {
                None
            }),
    {
        if !self.can_submit(mode) {
            return None;
        }
        self.loading = true;
        Some(self.password.clone())
    }

    /// Whether it is shown that the passwords differ.
    pub fn shows_mismatch(&self, mode: UnlockState) -> (r: bool)
        ensures
            r == (!self.passwords_match(mode) && self.confirm@.len() > 0),
    {
        mode == UnlockState::FirstRun && !same(self.password.as_str(), self.confirm.as_str())
            && !self.confirm.as_str().is_empty()
    }

    /// Shows the password or hides it.
    pub fn toggle_visibility(&mut self)
        ensures
            final(self).password == old(self).password,
            final(self).confirm == old(self).confirm,
            final(self).loading == old(self).loading,
            final(self).show_password == !old(self).show_password,
    {
        self.show_password = !self.show_password;
    }

    /// The type of the password fields and the key of the label that changes it.
    pub fn visibility(&self) -> (r: (&'static str, &'static str))
        ensures
            (r.0@, r.1@) == (if self.show_password {
                ("text"@, "common.hide"@)
            } else {
                ("password"@, "common.show"@)
            }),
    {
        if self.show_password {
            ("text", "common.hide")
        } else {
            ("password", "common.show")
        }
    }

    /// The key of the button's label.
    pub fn button_key(&self, mode: UnlockState) -> (r: &'static str)
        ensures
            r@ == (if self.loading {
                "master_password.verifying"@
            } else if mode == UnlockState::FirstRun {
                "master_password.create_and_unlock"@
            } else {
                "master_password.unlock"@
            }),
    {
        if self.loading {
            "master_password.verifying"
        } else {
            match mode {
                UnlockState::FirstRun => "master_password.create_and_unlock",
                _ => "master_password.unlock",
            }
        }
    }
}

/// Once handed on the password is not handed on again until an error was shown.
pub proof fn law_no_second_submission(form: MasterPasswordForm, mode: UnlockState)
    requires
        form.loading,
    ensures
        !form.submittable(mode),
{
}

/// A password can be handed on exactly when there is one, none is being tried, and, where it is
/// set for the first time, it was typed twice alike.
pub proof fn law_when_a_password_is_handed_on(form: MasterPasswordForm, mode: UnlockState)
    ensures
        form.submittable(mode) <==> {
            &&& form.password@.len() > 0
            &&& !form.loading
            &&& mode == UnlockState::FirstRun ==> form.password@ == form.confirm@
        },
        mode != UnlockState::FirstRun ==> form.passwords_match(mode),
        form.password@ == form.confirm@ ==> form.passwords_match(mode),
        mode == UnlockState::FirstRun && form.password@ != form.confirm@
            ==> !form.passwords_match(mode),
{
}

} // verus!
