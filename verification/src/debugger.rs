//! Debugger requests: text commands on their way from the user interface
//! to the engine's interactive input hooks.
//!
//! The engine takes a command as a buffer of bytes that ends with a zero
//! byte, and takes "no command" as no buffer at all. An empty command is a
//! buffer that holds the zero byte alone, so the two cannot be confused.

use crate::sameboy::SameBoy;
use vstd::prelude::*;
use vstd::string::*;

verus! {

/// A command for the engine's debugger, or the sentinel that stands for
/// "no command".
#[derive(Debug)]
pub struct DebuggerCmdStr {
    buffer: Option<Vec<u8>>,
}

/// What a look at the queue of debugger requests found, without waiting.
#[derive(Debug)]
pub enum Polled {
    /// The next request.
    Request(DebuggerCmdStr),
    /// Nothing is queued at present.
    Empty,
    /// Nothing is queued and nothing will ever be.
    Closed,
}

/// The bytes of a buffer that may be absent.
pub open spec fn raw_bytes(buffer: Option<Vec<u8>>) -> Option<Seq<u8>> {
    match buffer {
        Some(bytes) => Some(bytes@),
        None => None,
    }
}

impl DebuggerCmdStr {
    /// The buffer that the engine gets: the bytes of the command and a
    /// zero byte after them, or nothing for the sentinel.
    pub closed spec fn view(&self) -> Option<Seq<u8>> {
        raw_bytes(self.buffer)
    }

    /// The command with the given text.
    pub fn new(s: &str) -> (command: Self)
        ensures
            command@ == Some(s.spec_bytes().push(0u8)),
    {
        let mut bytes = s.as_bytes_vec();
        bytes.push(0);
        DebuggerCmdStr { buffer: Some(bytes) }
    }

    /// The sentinel that stands for "no command".
    pub fn new_null() -> (command: Self)
        ensures
            command@ is None,
    {
        DebuggerCmdStr { buffer: None }
    }

    /// Gives the buffer up, for the engine to own.
    pub fn into_raw(self) -> (buffer: Option<Vec<u8>>)
        ensures
            raw_bytes(buffer) == self@,
    {
        self.buffer
    }
}

impl SameBoy {
    /// The answer to the engine's request for input on which it waits: the
    /// request that arrived, or no buffer once the queue is closed for
    /// good.
    pub fn sync_input_callback(&mut self, received: Option<DebuggerCmdStr>) -> (buffer: Option<
        Vec<u8>,
    >)
        ensures
            raw_bytes(buffer) == match received {
                Some(command) => command@,
                None => None,
            },
            final(self)@ == old(self)@,
    {
        match received {
            Some(command) => command.into_raw(),
            None => None,
        }
    }

    /// The answer to the engine's request for input on which it does not
    /// wait: the next request if one is queued, no buffer otherwise.
    pub fn async_input_callback(&mut self, polled: Polled) -> (buffer: Option<Vec<u8>>)
        ensures
            raw_bytes(buffer) == match polled {
                Polled::Request(command) => command@,
                Polled::Empty | Polled::Closed => None,
            },
            final(self)@ == old(self)@,
    {
        match polled {
            Polled::Request(command) => command.into_raw(),
            Polled::Empty => None,
            Polled::Closed => None,
        }
    }
}

} // verus!
