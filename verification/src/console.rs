//! The console capability the emulator core calls for all input and output.
//!
//! The real terminal (raw-mode setup, non-blocking key polling, byte
//! output) is a platform collaborator outside this library; it plugs in by
//! implementing [`Console`]. What the emulator hands to and takes from the
//! device is captured by a ghost trace: every method appends exactly one
//! [`ConsoleEvent`] recording the call and its outcome, so the emulator's
//! contracts can name the bytes written and the keys consumed without
//! constraining what the device does with them. Success is never promised
//! for an arbitrary device; [`Console::io_reliable`] names the devices
//! whose preparation, polling and writes cannot fail, and the contracts
//! promise success where only such calls decide.
//!
//! [`ScriptedConsole`] is the library's own implementation: a deterministic
//! in-memory device that replays a prepared input sequence and records
//! everything written, for tests and batch use. It proves the trait's
//! contracts and carries exact contracts of its own.

use vstd::prelude::*;
use vstd::string::StringSliceAdditionalSpecFns;

verus! {

/// A console read or write failed.
#[derive(Clone, Copy, Debug, PartialEq, Eq, Structural)]
pub struct ConsoleError;

/// One call made to the console device, with its outcome.
pub ghost enum ConsoleEvent {
    /// `setup` was called; the flag tells whether raw mode was entered.
    SetupRequested(bool),
    /// `cleanup` was called; the flag tells whether the device was
    /// restored.
    CleanupRequested(bool),
    /// `check_key` was called; the poll's answer, `None` when the poll
    /// itself failed.
    KeyPolled(Option<bool>),
    /// `read_key` was called; the key, `None` when the read failed.
    KeyRead(Option<u8>),
    /// `write_char` was called with the byte; the flag tells whether it
    /// was written.
    ByteWritten(u8, bool),
    /// `write_str` was called with the text, given as its bytes; the flag
    /// tells whether it was written.
    TextWritten(Seq<u8>, bool),
}

/// The trace a sequence of successful one-byte writes leaves.
pub open spec fn written_events(bytes: Seq<u8>) -> Seq<ConsoleEvent> {
    bytes.map_values(|b: u8| ConsoleEvent::ByteWritten(b, true))
}

/// The trace one successful keyboard poll leaves: the availability answer
/// and then, when a key was available, the key read.
pub open spec fn poll_events(key: Option<u8>) -> Seq<ConsoleEvent> {
    match key {
        Some(b) => seq![ConsoleEvent::KeyPolled(Some(true)), ConsoleEvent::KeyRead(Some(b))],
        None => seq![ConsoleEvent::KeyPolled(Some(false))],
    }
}

/// A trace is a prefix of itself: a call that leaves the console alone
/// leaves its trace intact.
pub proof fn lemma_prefix_reflexive<A>(a: Seq<A>)
    ensures
        a.is_prefix_of(a),
{
    assert(a =~= a.subrange(0, a.len() as int));
}

/// Appending one event keeps the old trace as a prefix.
pub proof fn lemma_prefix_push<A>(a: Seq<A>, x: A)
    ensures
        a.is_prefix_of(a.push(x)),
{
    assert(a =~= a.push(x).subrange(0, a.len() as int));
}

/// Appending a run of events keeps the old trace as a prefix.
pub proof fn lemma_prefix_extend<A>(a: Seq<A>, b: Seq<A>)
    ensures
        a.is_prefix_of(a + b),
{
    assert(a =~= (a + b).subrange(0, a.len() as int));
}

/// Traces only ever grow, so growth composes.
pub proof fn lemma_prefix_transitive<A>(a: Seq<A>, b: Seq<A>, c: Seq<A>)
    requires
        a.is_prefix_of(b),
        b.is_prefix_of(c),
    ensures
        a.is_prefix_of(c),
{
    assert(a =~= c.subrange(0, a.len() as int));
}

/// Byte-level console input and output, as the emulator core sees it.
///
/// Each method appends exactly one event to the ghost trace [`events`],
/// recording the call and its outcome; nothing else is assumed of the
/// device. The library's own [`ScriptedConsole`] proves these contracts;
/// an embedder's device is outside the verified code and is trusted to
/// keep its trace honestly.
///
/// [`events`]: Console::events
pub trait Console {
    /// The ghost trace of this device: one event per call made to it, in
    /// order. The default, an always-empty trace, satisfies no method
    /// contract: an implementation defines its own trace (an unverified
    /// one, outside this crate, need not).
    open spec fn events(&self) -> Seq<ConsoleEvent> {
        Seq::<ConsoleEvent>::empty()
    }

    /// A device whose preparation, restoration, polling and writes never
    /// fail. The scripted console is one; a real terminal is not, so
    /// nothing here promises that a blocking key read succeeds.
    open spec fn io_reliable(&self) -> bool {
        false
    }

    /// Prepares the device for raw, unbuffered input. Called once when an
    /// execution run starts.
    fn setup(&mut self) -> (result: Result<(), ConsoleError>)
        ensures
            final(self).events() == old(self).events().push(
                ConsoleEvent::SetupRequested(result is Ok),
            ),
            final(self).io_reliable() == old(self).io_reliable(),
            old(self).io_reliable() ==> (result is Ok),
    ;

    /// Restores the device to its original state. Called on every exit
    /// path of an execution run, normal or failing.
    fn cleanup(&mut self) -> (result: Result<(), ConsoleError>)
        ensures
            final(self).events() == old(self).events().push(
                ConsoleEvent::CleanupRequested(result is Ok),
            ),
            final(self).io_reliable() == old(self).io_reliable(),
            old(self).io_reliable() ==> (result is Ok),
    ;

    /// Reports, without blocking, whether a key is available.
    fn check_key(&mut self) -> (result: Result<bool, ConsoleError>)
        ensures
            final(self).events() == old(self).events().push(
                ConsoleEvent::KeyPolled(
                    match result {
                        Ok(available) => Some(available),
                        Err(_) => None,
                    },
                ),
            ),
            final(self).io_reliable() == old(self).io_reliable(),
            old(self).io_reliable() ==> (result is Ok),
    ;

    /// Reads one key, blocking until a byte arrives.
    fn read_key(&mut self) -> (result: Result<u8, ConsoleError>)
        ensures
            final(self).events() == old(self).events().push(
                ConsoleEvent::KeyRead(
                    match result {
                        Ok(key) => Some(key),
                        Err(_) => None,
                    },
                ),
            ),
            final(self).io_reliable() == old(self).io_reliable(),
    ;

    /// Writes one byte, immediately flushed.
    fn write_char(&mut self, c: u8) -> (result: Result<(), ConsoleError>)
        ensures
            final(self).events() == old(self).events().push(
                ConsoleEvent::ByteWritten(c, result is Ok),
            ),
            final(self).io_reliable() == old(self).io_reliable(),
            old(self).io_reliable() ==> (result is Ok),
    ;

    /// Writes a string, immediately flushed.
    fn write_str(&mut self, s: &str) -> (result: Result<(), ConsoleError>)
        ensures
            final(self).events() == old(self).events().push(
                ConsoleEvent::TextWritten(s.spec_bytes(), result is Ok),
            ),
            final(self).io_reliable() == old(self).io_reliable(),
            old(self).io_reliable() ==> (result is Ok),
    ;
}

/// A deterministic console: keys come from a prepared script and output is
/// collected in memory.
pub struct ScriptedConsole {
    input: Vec<u8>,
    cursor: usize,
    output: Vec<u8>,
    trace: Ghost<Seq<ConsoleEvent>>,
}

impl ScriptedConsole {
    /// The input bytes not yet consumed by `read_key` (the cursor never
    /// passes the end of the script, but the definition tolerates it).
    pub closed spec fn pending(&self) -> Seq<u8> {
        if self.cursor <= self.input@.len() {
            self.input@.skip(self.cursor as int)
        } else {
            Seq::<u8>::empty()
        }
    }

    /// Everything written so far, by `write_char` and `write_str` alike.
    pub closed spec fn written(&self) -> Seq<u8> {
        self.output@
    }

    /// Creates a console with no pending input.
    pub fn new() -> (console: Self)
        ensures
            console.pending() == Seq::<u8>::empty(),
            console.written() == Seq::<u8>::empty(),
            console.events() == Seq::<ConsoleEvent>::empty(),
    {
        let console = ScriptedConsole {
            input: Vec::new(),
            cursor: 0,
            output: Vec::new(),
            trace: Ghost(Seq::empty()),
        };
        proof {
            assert(console.pending() =~= Seq::<u8>::empty());
            assert(console.written() =~= Seq::<u8>::empty());
        }
        console
    }

    /// Creates a console whose keys will be `input`, in order.
    pub fn with_input(input: Vec<u8>) -> (console: Self)
        ensures
            console.pending() == input@,
            console.written() == Seq::<u8>::empty(),
            console.events() == Seq::<ConsoleEvent>::empty(),
    {
        let console = ScriptedConsole {
            input,
            cursor: 0,
            output: Vec::new(),
            trace: Ghost(Seq::empty()),
        };
        proof {
            assert(console.pending() =~= console.input@);
            assert(console.written() =~= Seq::<u8>::empty());
        }
        console
    }

    /// The bytes written so far.
    pub fn output(&self) -> (bytes: &Vec<u8>)
        ensures
            bytes@ == self.written(),
    {
        &self.output
    }
}

impl Console for ScriptedConsole {
    closed spec fn events(&self) -> Seq<ConsoleEvent> {
        self.trace@
    }

    /// The scripted console's preparation, polling and writes are plain
    /// in-memory operations: they cannot fail.
    open spec fn io_reliable(&self) -> bool {
        true
    }

    /// There is no device to prepare: succeeds, touching nothing but the
    /// trace.
    fn setup(&mut self) -> (result: Result<(), ConsoleError>)
        ensures
            final(self).pending() == old(self).pending(),
            final(self).written() == old(self).written(),
    {
        self.trace = Ghost(self.trace@.push(ConsoleEvent::SetupRequested(true)));
        Ok(())
    }

    /// There is no device to restore: succeeds, touching nothing but the
    /// trace.
    fn cleanup(&mut self) -> (result: Result<(), ConsoleError>)
        ensures
            final(self).pending() == old(self).pending(),
            final(self).written() == old(self).written(),
    {
        self.trace = Ghost(self.trace@.push(ConsoleEvent::CleanupRequested(true)));
        Ok(())
    }

    /// A key is available exactly while script input is left.
    fn check_key(&mut self) -> (result: Result<bool, ConsoleError>)
        ensures
            final(self).pending() == old(self).pending(),
            final(self).written() == old(self).written(),
            result == Ok::<bool, ConsoleError>(old(self).pending().len() > 0),
    {
        let available = self.cursor < self.input.len();
        self.trace = Ghost(self.trace@.push(ConsoleEvent::KeyPolled(Some(available))));
        Ok(available)
    }

    /// Consumes the next scripted key; an exhausted script has no key to
    /// block for, so the read fails instead.
    fn read_key(&mut self) -> (result: Result<u8, ConsoleError>)
        ensures
            old(self).pending().len() > 0 ==> result == Ok::<u8, ConsoleError>(
                old(self).pending()[0],
            ) && final(self).pending() == old(self).pending().drop_first() && final(self).written()
                == old(self).written(),
            old(self).pending().len() == 0 ==> result is Err && final(self).pending() == old(
                self,
            ).pending() && final(self).written() == old(self).written(),
    {
        if self.cursor < self.input.len() {
            let key = self.input[self.cursor];
            self.cursor = self.cursor + 1;
            self.trace = Ghost(self.trace@.push(ConsoleEvent::KeyRead(Some(key))));
            proof {
                assert(self.pending() =~= old(self).pending().drop_first());
            }
            Ok(key)
        } else {
            self.trace = Ghost(self.trace@.push(ConsoleEvent::KeyRead(None::<u8>)));
            proof {
                assert(old(self).pending() =~= Seq::<u8>::empty());
            }
            Err(ConsoleError)
        }
    }

    /// Records the byte.
    fn write_char(&mut self, c: u8) -> (result: Result<(), ConsoleError>)
        ensures
            final(self).pending() == old(self).pending(),
            final(self).written() == old(self).written().push(c),
    {
        self.output.push(c);
        self.trace = Ghost(self.trace@.push(ConsoleEvent::ByteWritten(c, true)));
        Ok(())
    }

    /// Records the string's bytes.
    fn write_str(&mut self, s: &str) -> (result: Result<(), ConsoleError>)
        ensures
            final(self).pending() == old(self).pending(),
            final(self).written() == old(self).written() + s.spec_bytes(),
    {
        let bytes = s.as_bytes();
        let n = bytes.len();
        let mut i: usize = 0;
        while i < n
            invariant
                i <= n,
                n == bytes@.len(),
                bytes@ == s.spec_bytes(),
                self.input@ == old(self).input@,
                self.cursor == old(self).cursor,
                self.trace@ == old(self).trace@,
                self.output@ == old(self).output@ + bytes@.take(i as int),
            decreases n - i,
        {
            proof {
                assert(self.output@.push(bytes@[i as int]) =~= old(self).output@ + bytes@.take(
                    i as int + 1,
                ));
            }
            self.output.push(bytes[i]);
            i = i + 1;
        }
        self.trace = Ghost(self.trace@.push(ConsoleEvent::TextWritten(s.spec_bytes(), true)));
        proof {
            assert(self.output@ =~= old(self).output@ + s.spec_bytes());
        }
        Ok(())
    }
}

} // verus!
