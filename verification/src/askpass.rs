//! Password prompts for Git: a password is held as given, and no askpass
//! helper is available, so a session is always cancelled.
use vstd::prelude::*;

verus! {

/// A password, held as given.
#[derive(Clone)]
pub struct EncryptedPassword(String);

/// Why a password could not be taken.
#[derive(Clone, Copy, PartialEq, Eq, Structural, Debug)]
pub struct InvalidPassword;

/// A token that acknowledges reading the password in the clear.
#[derive(Clone, Copy, PartialEq, Eq, Structural, Debug)]
pub struct IKnowWhatIAmDoingAndIHaveReadTheDocs;

impl EncryptedPassword {
    /// The password's text.
    pub closed spec fn text(&self) -> Seq<char> {
        self.0@
    }

    /// Takes `password`; this never fails.
    pub fn try_from(password: &str) -> (r: Result<EncryptedPassword, InvalidPassword>)
        ensures
            r is Ok,
            r->Ok_0.text() == password@,
    {
        Ok(EncryptedPassword(password.to_string()))
    }

    /// The password in the clear; this never fails.
    pub fn decrypt(self, token: IKnowWhatIAmDoingAndIHaveReadTheDocs) -> (r: Result<String, InvalidPassword>)
        ensures
            r is Ok,
            r->Ok_0@ == self.text(),
    {
        Ok(self.0)
    }
}

/// How an askpass session ended.
#[derive(Clone, Copy, PartialEq, Eq, Structural, Debug)]
pub enum AskPassResult {
    /// The user cancelled the prompt.
    CancelledByUser,
    /// Nobody answered in time.
    Timedout,
}

/// The program Git runs to ask for a password when no helper is available:
/// one that always fails.
pub fn unavailable_askpass_program() -> (r: String)
    ensures
        r@ == "/usr/bin/false"@,
{
    "/usr/bin/false".to_string()
}

/// A session in which Git may ask for a password.
pub struct AskPassSession {
    script_path: String,
}

impl AskPassSession {
    /// The script Git is told to run.
    pub closed spec fn spec_script_path(&self) -> Seq<char> {
        self.script_path@
    }

    /// A session whose script is the program that always fails.
    pub fn new() -> (r: AskPassSession)
        ensures
            r.spec_script_path() == "/usr/bin/false"@,
    {
        AskPassSession { script_path: unavailable_askpass_program() }
    }

    /// Runs the session: as nothing can answer, the prompt counts as
    /// cancelled.
    pub fn run(&mut self) -> (r: AskPassResult)
        ensures
            r == AskPassResult::CancelledByUser,
            final(self).spec_script_path() == old(self).spec_script_path(),
    {
        AskPassResult::CancelledByUser
    }

    /// The password the session received: none.
    pub fn get_password(&self) -> (r: Option<EncryptedPassword>)
        ensures
            r is None,
    {
        None
    }

    /// The script Git is told to run.
    pub fn script_path(&self) -> (r: &str)
        ensures
            r@ == self.spec_script_path(),
    {
        self.script_path.as_str()
    }
}

} // verus!
