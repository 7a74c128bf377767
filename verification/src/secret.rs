//! Secret text held in `secrecy::SecretString`.

use secrecy::{ExposeSecret, SecretString};
use vstd::prelude::*;

verus! {

/// An opaque cell around a `secrecy::SecretString`.
#[verifier::external_body]
pub struct SecretCell {
    inner: SecretString,
}

/// The text that a cell's `SecretString` holds.
pub uninterp spec fn held_text(cell: SecretCell) -> Seq<char>;

/// `SecretString::from` (secrecy): boxes the string, unchanged, as a
/// zeroize-on-drop secret.
#[verifier::external_body]
fn secret_string_from(text: String) -> (cell: SecretCell)
    ensures
        held_text(cell) == text@,
{
    SecretCell { inner: SecretString::from(text) }
}

/// A credential whose text is kept in a `SecretString`: it is zeroized when
/// dropped and never rendered by `Debug`.
pub struct Secret {
    inner: SecretCell,
}

impl View for Secret {
    type V = Seq<char>;

    closed spec fn view(&self) -> Seq<char> {
        held_text(self.inner)
    }
}

impl Secret {
    /// Moves `text` into a new secret.
    pub fn new(text: String) -> (secret: Self)
        ensures
            secret@ == text@,
    {
        Secret { inner: secret_string_from(text) }
    }

    /// `ExposeSecret::expose_secret` (secrecy) on the held `SecretString`:
    /// it hands back the boxed string unchanged.
    #[verifier::external_body]
    fn exposed(&self) -> (text: &str)
        ensures
            text@ == held_text(self.inner),
    {
        self.inner.inner.expose_secret()
    }

    /// The secret's text.
    pub fn expose_secret(&self) -> (text: &str)
        ensures
            text@ == self@,
    {
        self.exposed()
    }

    /// A second secret with the same text.
    pub fn duplicate(&self) -> (copy: Self)
        ensures
            copy@ == self@,
    {
        let text = self.expose_secret().to_owned();
        Secret::new(text)
    }
}

} // verus!
