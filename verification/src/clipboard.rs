//! The clipboard: a store for one text, which an editing session fills and
//! reads through a narrow interface.

use vstd::prelude::*;
use vstd::string::StringExecFns;

verus! {

/// Why a clipboard could not do what it was asked.
#[derive(Debug)]
pub enum Error {
    /// The text could not be stored.
    Copy,
    /// The text could not be read.
    Paste,
    /// The system refused: what was being done, and what the system said.
    Os(&'static str, String),
}

impl Error {
    /// The message of the error, as the contracts see it.
    pub open spec fn message_spec(self) -> Seq<char> {
        match self {
            Error::Copy => "failed to copy"@,
            Error::Paste => "failed to paste"@,
            Error::Os(what, cause) => what@ + ": "@ + cause@,
        }
    }

    /// The message of the error: for a refusal of the system, what was
    /// being done, a colon and a space, and what the system said.
    pub fn message(&self) -> (text: String)
        ensures
            text@ == self.message_spec(),
    {
        match self {
            Error::Copy => "failed to copy".to_owned(),
            Error::Paste => "failed to paste".to_owned(),
            Error::Os(what, cause) => {
                let what: &str = *what;
                what.to_owned().concat(": ").concat(cause.as_str())
            },
        }
    }
}

pub type Result<T> = std::result::Result<T, Error>;

/// The clipboard stores and hands back one text. What an implementation
/// answers is its own affair: one that asks the operating system may fail
/// at any call.
pub trait Clipboard {
    /// The text in the clipboard.
    fn paste(&self) -> Result<String>;

    /// Replaces the text in the clipboard by `content`.
    fn copy(&mut self, content: &str) -> Result<()>;

    /// Empties the clipboard, by storing the empty text: what it returns, and
    /// what it leaves in the clipboard, is what one call of `copy` with the
    /// empty text returns and leaves.
    fn clear(&mut self) -> (done: Result<()>) where Self: Sized,
        default_ensures
            exists|stored: &mut Self, content: &str|
                {
                    &&& *stored == *old(self)
                    &&& *final(stored) == *final(self)
                    &&& content@ == Seq::<char>::empty()
                    &&& #[trigger] call_ensures(Self::copy, (stored, content), done)
                },
    {
        let empty = "";
        proof {
            reveal_strlit("");
        }
        let store = Self::copy;
        store(self, empty)
    }
}

/// A clipboard in memory. None of its operations fails.
pub struct MemoryClipboard {
    pub inner: String,
}

impl MemoryClipboard {
    /// An empty clipboard.
    pub fn new() -> (clipboard: MemoryClipboard)
        ensures
            clipboard.inner@ == Seq::<char>::empty(),
    {
        MemoryClipboard { inner: String::new() }
    }
}

impl Clipboard for MemoryClipboard {
    /// The text last stored.
    fn paste(&self) -> (text: Result<String>)
        ensures
            text is Ok,
            text->Ok_0@ == self.inner@,
    {
        Ok(self.inner.clone())
    }

    /// Stores `content`.
    fn copy(&mut self, content: &str) -> (done: Result<()>)
        ensures
            done is Ok,
            final(self).inner@ == content@,
    {
        self.inner = content.to_owned();
        Ok(())
    }

    /// Stores the empty text.
    fn clear(&mut self) -> (done: Result<()>)
        ensures
            done is Ok,
            final(self).inner@ == Seq::<char>::empty(),
    {
        let done = self.copy("");
        proof {
            reveal_strlit("");
        }
        done
    }
}

} // verus!
