//! The PS/2 keyboard: taking scancodes in, turning them into keys, and
//! reading a line.

use vstd::prelude::*;
use vstd::string::*;
use crossbeam_queue::ArrayQueue;
use pc_keyboard::layouts::Us104Key;
use pc_keyboard::{DecodedKey, HandleControl, KeyEvent, Keyboard, ScancodeSet1};
use crate::driver_framework::device::DeviceInfo;
use crate::driver_framework::drivers::ps2::{Outcome, Ps2Action, Transfer, TransferState};
use crate::driver_framework::drivers::ps2mouse::{interrupt_vectors, note_vectors, with_vectors};
use crate::text::{contains_text, string_of, text_contains};

verus! {

/// The keyboard decoder of the crate `pc_keyboard`, for scancode set 1 and
/// the US layout. The decoder is kept out of sight: its type is bounded by
/// traits of that crate, and nothing here depends on what it holds.
#[verifier::external_body]
pub struct KeyDecoder {
    keyboard: Keyboard<Us104Key, ScancodeSet1>,
}

/// A key going down or up.
#[verifier::external_type_specification]
#[verifier::external_body]
pub struct ExKeyEvent(KeyEvent);

/// The bounded queue of the crate `crossbeam_queue`.
#[verifier::external_type_specification]
#[verifier::external_body]
#[verifier::reject_recursive_types(T)]
pub struct ExArrayQueue<T>(ArrayQueue<T>);

/// The command that switches the keyboard port of the controller off.
pub const DISABLE_KEYBOARD_PORT: u8 = 0xAD;

/// The command that switches the keyboard port of the controller on.
pub const ENABLE_KEYBOARD_PORT: u8 = 0xAE;

/// A key as the line reader sees it.
#[derive(Debug, Clone, Copy, PartialEq, Eq, Structural)]
pub enum Key {
    /// A key that stands for a character.
    Unicode(char),
    /// Any other key.
    Raw,
}

/// A decoder for scancode set 1 and the US layout that leaves the control
/// keys alone.
///
/// Trusted: this is `Keyboard::new` of the crate `pc_keyboard`; nothing is
/// claimed of the decoder.
#[verifier::external_body]
fn new_keyboard() -> KeyDecoder {
    KeyDecoder { keyboard: Keyboard::new(ScancodeSet1::new(), Us104Key, HandleControl::Ignore) }
}

/// Hands the byte `scancode` to the decoder; the event comes back that
/// the byte completed, if it completed one.
///
/// Trusted: this is `Keyboard::add_byte` of the crate `pc_keyboard`, with
/// its errors read as no event; nothing is claimed of the result, which
/// depends on the bytes that the decoder saw before.
#[verifier::external_body]
fn add_byte(decoder: &mut KeyDecoder, scancode: u8) -> Option<KeyEvent> {
    decoder.keyboard.add_byte(scancode).ok().flatten()
}

/// Hands the event `event` to the decoder; the key comes back that the
/// event stands for, if it stands for one.
///
/// Trusted: this is `Keyboard::process_keyevent` of the crate
/// `pc_keyboard`; nothing is claimed of the result, which depends on the
/// modifier keys that the decoder saw before.
#[verifier::external_body]
fn process_keyevent(decoder: &mut KeyDecoder, event: KeyEvent) -> Option<Key> {
    match decoder.keyboard.process_keyevent(event) {
        Some(DecodedKey::Unicode(c)) => Some(Key::Unicode(c)),
        Some(DecodedKey::RawKey(_)) => Some(Key::Raw),
        None => None,
    }
}

/// Puts the byte `scancode` into the queue and says whether there was
/// room for it.
///
/// Trusted: this is `ArrayQueue::push` of the crate `crossbeam_queue`;
/// nothing is claimed of the result, which depends on what others put
/// into the queue and took out of it.
#[verifier::external_body]
fn queue_push(queue: &ArrayQueue<u8>, scancode: u8) -> bool {
    queue.push(scancode).is_ok()
}

/// What became of a scancode that came in with an interrupt.
#[derive(Debug, Clone, Copy, PartialEq, Eq, Structural)]
pub enum ScancodeOutcome {
    /// It is in the queue: whoever waits for scancodes is to be woken.
    Queued,
    /// The queue was full: the scancode is lost.
    Dropped,
    /// There is no queue yet: the scancode is lost.
    Uninitialized,
}

/// What became of a scancode, given whether there was a queue and whether
/// the queue had room.
pub fn scancode_outcome(pushed: Option<bool>) -> (outcome: ScancodeOutcome)
    ensures
        outcome == match pushed {
            Some(true) => ScancodeOutcome::Queued,
            Some(false) => ScancodeOutcome::Dropped,
            None => ScancodeOutcome::Uninitialized,
        },
{
    match pushed {
        Some(true) => ScancodeOutcome::Queued,
        Some(false) => ScancodeOutcome::Dropped,
        None => ScancodeOutcome::Uninitialized,
    }
}

/// Puts the scancode that came in with an interrupt into the queue, if
/// there is one and it has room.
pub fn add_scancode(queue: Option<&ArrayQueue<u8>>, scancode: u8) -> (outcome: ScancodeOutcome)
    ensures
        queue is None <==> outcome == ScancodeOutcome::Uninitialized,
{
    match queue {
        Some(q) => scancode_outcome(Some(queue_push(q, scancode))),
        None => scancode_outcome(None),
    }
}

/// What the line reader asks its caller to do after a key.
#[derive(Debug, PartialEq, Eq)]
pub enum LineEvent {
    /// Nothing.
    Nothing,
    /// Show the character.
    Echo(char),
    /// Take the last character shown off the screen: step back, blank,
    /// step back.
    Erase,
    /// Show a line feed: the line is complete and comes with this.
    Finished(String),
}

/// What a key does to the line typed so far: the line afterwards and what
/// the caller is asked to do. A line feed or carriage return completes
/// the line, a backspace takes the last character off it, any other
/// character is added to it, and other keys do nothing.
pub open spec fn keyed(line: Seq<char>, key: Key) -> (Seq<char>, Option<Seq<char>>) {
    match key {
        Key::Unicode(c) => if c == '\n' || c == '\r' {
            (line, Some(line))
        } else if c == '\x08' {
            if line.len() > 0 {
                (line.drop_last(), None)
            } else {
                (line, None)
            }
        } else {
            (line.push(c), None)
        },
        Key::Raw => (line, None),
    }
}

/// Whether `event` is what the caller is asked to do after the key `key`
/// on the line `line`.
pub open spec fn asked_after(line: Seq<char>, key: Key, event: LineEvent) -> bool {
    match key {
        Key::Unicode(c) => if c == '\n' || c == '\r' {
            event matches LineEvent::Finished(s) && s@ == line
        } else if c == '\x08' {
            if line.len() > 0 {
                event == LineEvent::Erase
            } else {
                event == LineEvent::Nothing
            }
        } else {
            event == LineEvent::Echo(c)
        },
        Key::Raw => event == LineEvent::Nothing,
    }
}

/// A line being read from the keyboard.
pub struct LineReader {
    pub keyboard: KeyDecoder,
    /// The characters typed so far.
    pub buf: Vec<char>,
}

impl LineReader {
    /// A reader with nothing typed yet.
    pub fn new() -> (r: LineReader)
        ensures
            r.buf@.len() == 0,
    {
        LineReader { keyboard: new_keyboard(), buf: Vec::new() }
    }

    /// Takes the key `key`.
    pub fn feed_key(&mut self, key: Key) -> (event: LineEvent)
        ensures
            final(self).buf@ == keyed(old(self).buf@, key).0,
            asked_after(old(self).buf@, key, event),
    {
        match key {
            Key::Unicode(c) => {
                if c == '\n' || c == '\r' {
                    LineEvent::Finished(string_of(&self.buf))
                } else if c == '\x08' {
                    match self.buf.pop() {
                        Some(_) => LineEvent::Erase,
                        None => LineEvent::Nothing,
                    }
                } else {
                    self.buf.push(c);
                    LineEvent::Echo(c)
                }
            },
            Key::Raw => LineEvent::Nothing,
        }
    }

    /// Takes the scancode `scancode` from the keyboard: where it completes
    /// a key, the key is taken; otherwise nothing happens.
    pub fn feed_scancode(&mut self, scancode: u8) -> (event: LineEvent)
        ensures
            (final(self).buf@ == old(self).buf@ && event == LineEvent::Nothing) || exists|key: Key|
                final(self).buf@ == keyed(old(self).buf@, key).0 && asked_after(
                    old(self).buf@,
                    key,
                    event,
                ),
    {
        match add_byte(&mut self.keyboard, scancode) {
            Some(key_event) => match process_keyevent(&mut self.keyboard, key_event) {
                Some(key) => self.feed_key(key),
                None => LineEvent::Nothing,
            },
            None => LineEvent::Nothing,
        }
    }

    /// The line as far as typed, for when no more scancodes come.
    pub fn finish(&self) -> (line: String)
        ensures
            line@ == self.buf@,
    {
        string_of(&self.buf)
    }
}

/// What is reported after the keyboard port was to be switched on or off:
/// that it was, or a warning that it was not.
pub fn port_message(enable: bool, outcome: Outcome) -> (message: &'static str)
    ensures
        message == if enable {
            if outcome is Sent {
                "[kbd] PS/2 keyboard port enabled\n"
            } else {
                "[kbd] Warning: failed to enable PS/2 keyboard port (0xAE)\n"
            }
        } else {
            if outcome is Sent {
                "[kbd] PS/2 keyboard port disabled\n"
            } else {
                "[kbd] Warning: failed to disable PS/2 keyboard port (0xAD)\n"
            }
        },
{
    match (enable, outcome) {
        (true, Outcome::Sent) => "[kbd] PS/2 keyboard port enabled\n",
        (true, _) => "[kbd] Warning: failed to enable PS/2 keyboard port (0xAE)\n",
        (false, Outcome::Sent) => "[kbd] PS/2 keyboard port disabled\n",
        (false, _) => "[kbd] Warning: failed to disable PS/2 keyboard port (0xAD)\n",
    }
}

/// The transfer that switches the keyboard port on before a line is read,
/// or off after it.
pub fn keyboard_port_transfer(enable: bool) -> (t: TransferState)
    ensures
        t == crate::driver_framework::drivers::ps2::begun(
            Transfer::Command(
                if enable {
                    ENABLE_KEYBOARD_PORT
                } else {
                    DISABLE_KEYBOARD_PORT
                },
            ),
        ),
{
    TransferState::begin(
        Transfer::Command(
            if enable {
                ENABLE_KEYBOARD_PORT
            } else {
                DISABLE_KEYBOARD_PORT
            },
        ),
    )
}

/// The driver of the PS/2 keyboard.
pub struct Ps2KbdDriver {
    /// The vectors that the driver bound its interrupt handler to.
    pub registered_vectors: Vec<u8>,
}

/// What is reported once the driver has started.
pub const STARTED_MESSAGE: &'static str =
    "[kbd] PS/2 keyboard port disabled by default at start()\n";

impl Ps2KbdDriver {
    /// A driver that has bound no vector.
    pub fn new() -> (d: Ps2KbdDriver)
        ensures
            d.registered_vectors@.len() == 0,
    {
        Ps2KbdDriver { registered_vectors: Vec::new() }
    }

    /// Whether the driver serves the device: it serves input devices and
    /// whatever calls itself a PS/2 keyboard.
    pub fn probe(&self, info: &DeviceInfo) -> (r: Result<(), &'static str>)
        ensures
            r == if info.class == 0x09 || contains_text(info.description@, "PS/2 Keyboard"@) {
                Ok::<(), &'static str>(())
            } else {
                Err::<(), &'static str>("not a PS/2 keyboard")
            },
    {
        if info.class == 0x09 || text_contains(info.description.as_str(), "PS/2 Keyboard") {
            Ok(())
        } else {
            Err("not a PS/2 keyboard")
        }
    }

    /// Starts the driver for the device `info`: the vectors of the
    /// device's interrupts come back, for the caller to bind the handler
    /// to; the driver takes note of them. Then the caller switches the
    /// keyboard port off (see [`Ps2KbdDriver::port_off_after`]).
    pub fn start(&mut self, info: &DeviceInfo) -> (vectors: Vec<u8>)
        ensures
            vectors@ == interrupt_vectors(info.resources@),
            final(self).registered_vectors@ == with_vectors(
                old(self).registered_vectors@,
                interrupt_vectors(info.resources@),
            ),
    {
        note_vectors(&mut self.registered_vectors, &info.resources)
    }

    /// What is left to do once the transfer that switches the keyboard
    /// port off at the start has ended: where the controller did not get
    /// ready in time, the command is written all the same.
    pub fn port_off_after(outcome: Outcome) -> (action: Option<Ps2Action>)
        ensures
            action == if outcome is Sent {
                None
            } else {
                Some(Ps2Action::WriteCommand(DISABLE_KEYBOARD_PORT))
            },
    {
        match outcome {
            Outcome::Sent => None,
            _ => Some(Ps2Action::WriteCommand(DISABLE_KEYBOARD_PORT)),
        }
    }

    /// Stops the driver: the vectors come back that the handler is to be
    /// taken off. The driver keeps them in mind.
    pub fn stop(&self) -> (vectors: Vec<u8>)
        ensures
            vectors@ == self.registered_vectors@,
    {
        self.registered_vectors.clone()
    }

    /// Releases the device: the vectors come back that the handler is to
    /// be taken off, and the driver forgets them.
    pub fn release(&mut self) -> (vectors: Vec<u8>)
        ensures
            vectors@ == old(self).registered_vectors@,
            final(self).registered_vectors@.len() == 0,
    {
        let mut vectors: Vec<u8> = Vec::new();
        core::mem::swap(&mut vectors, &mut self.registered_vectors);
        vectors
    }
}

} // verus!
