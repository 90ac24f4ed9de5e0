//! The PS/2 mouse: bringing it up, putting its packets together, and
//! moving and drawing the cursor.

use vstd::prelude::*;
use vstd::string::*;
use crate::driver_framework::device::{DeviceInfo, Resource, ResourceKind};
use crate::driver_framework::drivers::ps2::{
    begun, transfer_step, Outcome, Ps2Action, Step, Transfer, TransferState,
};
use crate::driver_framework::drivers::vbe_vga::{
    draw_pixel_at, pixel_offset, pixel_start, with_pixel, FramebufferInfo,
};
use crate::text::{contains_text, text_contains};

verus! {

/// A packet of the mouse: the buttons and how far the mouse moved.
#[derive(Debug, Clone, Copy, PartialEq, Eq, Structural)]
pub struct MousePacket {
    pub buttons: u8,
    pub dx: i8,
    pub dy: i8,
}

/// The bit that the first byte of every packet has set.
pub const PACKET_START_BIT: u8 = 0x08;

/// How far a single packet moves the cursor at most, in either direction.
pub const MOUSE_MAX_DELTA: i32 = 16;

/// The command that makes the mouse report its movements.
pub const ENABLE_REPORTING: u8 = 0xF4;

/// The answer of the mouse to a command it took.
pub const MOUSE_ACK: u8 = 0xFA;

/// The answer of the mouse to a command it wants sent again.
pub const MOUSE_RESEND: u8 = 0xFE;

/// How often the command is tried.
pub const ENABLE_ATTEMPTS: u8 = 4;

/// The width of the cursor in pixels.
pub const CURSOR_WIDTH: usize = 12;

/// The height of the cursor in pixels.
pub const CURSOR_HEIGHT: usize = 16;

/// The rows of the cursor, an arrow: the leftmost of the twelve pixels of
/// a row is bit 11.
pub const ARROW: [u16; 16] = [
    0b100000000000,
    0b110000000000,
    0b111000000000,
    0b111100000000,
    0b111110000000,
    0b111111000000,
    0b111111100000,
    0b111111110000,
    0b111111100000,
    0b111111000000,
    0b111110000000,
    0b111100000000,
    0b111000000000,
    0b110000000000,
    0b100000000000,
    0b000000000000,
];

/// The bytes of a packet as they come in, one with each interrupt.
#[derive(Debug, Clone, Copy, PartialEq, Eq, Structural)]
pub struct PacketAssembler {
    /// How many bytes of the packet are there.
    pub state: u8,
    pub first: u8,
    pub second: u8,
}

/// The byte `v` read as a signed number.
pub open spec fn signed(v: u8) -> i8 {
    if v < 0x80 {
        v as i8
    } else {
        (v - 0x100) as i8
    }
}

/// The byte `v` read as a signed number.
pub fn as_signed(v: u8) -> (s: i8)
    ensures
        s == signed(v),
{
    if v < 0x80 {
        v as i8
    } else {
        (v as i16 - 0x100) as i8
    }
}

/// What a byte from the mouse does to the packet in progress: the
/// assembler afterwards, and the packet if the byte completed one. A
/// first byte without the start bit is dropped.
pub open spec fn assembled(a: PacketAssembler, b: u8) -> (PacketAssembler, Option<MousePacket>) {
    if a.state == 0 {
        if b & PACKET_START_BIT == 0 {
            (a, None)
        } else {
            (PacketAssembler { state: 1, first: b, ..a }, None)
        }
    } else if a.state == 1 {
        (PacketAssembler { state: 2, second: b, ..a }, None)
    } else if a.state == 2 {
        (
            PacketAssembler { state: 0, ..a },
            Some(MousePacket { buttons: a.first, dx: signed(a.second), dy: signed(b) }),
        )
    } else {
        (PacketAssembler { state: 0, ..a }, None)
    }
}

impl PacketAssembler {
    /// An assembler that waits for the first byte of a packet.
    pub fn new() -> (a: PacketAssembler)
        ensures
            a.state == 0,
    {
        PacketAssembler { state: 0, first: 0, second: 0 }
    }

    /// Takes the byte `b` from the mouse; the packet comes back that the
    /// byte completed, if it completed one.
    pub fn push_byte(&mut self, b: u8) -> (packet: Option<MousePacket>)
        ensures
            (*final(self), packet) == assembled(*old(self), b),
    {
        if self.state == 0 {
            if b & PACKET_START_BIT != 0 {
                self.first = b;
                self.state = 1;
            }
            None
        } else if self.state == 1 {
            self.second = b;
            self.state = 2;
            None
        } else if self.state == 2 {
            self.state = 0;
            Some(MousePacket { buttons: self.first, dx: as_signed(self.second), dy: as_signed(b) })
        } else {
            self.state = 0;
            None
        }
    }
}

/// `v` kept within `-limit` and `limit`.
pub open spec fn clamped(v: int, limit: int) -> int {
    if v > limit {
        limit
    } else if v < -limit {
        -limit
    } else {
        v
    }
}

/// `v` kept within the range of `i32`.
pub open spec fn within_i32(v: int) -> i32 {
    if v > i32::MAX {
        i32::MAX
    } else if v < i32::MIN {
        i32::MIN
    } else {
        v as i32
    }
}

/// Where the cursor at (`x`, `y`) is after the packet `packet`: each
/// movement counts up to [`MOUSE_MAX_DELTA`]; the mouse counts upwards as
/// positive and the screen downwards. The position stays within the range
/// of `i32`.
pub fn apply_packet(x: i32, y: i32, packet: &MousePacket) -> (moved: (i32, i32))
    ensures
        moved.0 == within_i32(x + clamped(packet.dx as int, MOUSE_MAX_DELTA as int)),
        moved.1 == within_i32(y - clamped(packet.dy as int, MOUSE_MAX_DELTA as int)),
{
    let mut dx = packet.dx as i32;
    let mut dy = packet.dy as i32;
    if dx > MOUSE_MAX_DELTA {
        dx = MOUSE_MAX_DELTA;
    } else if dx < -MOUSE_MAX_DELTA {
        dx = -MOUSE_MAX_DELTA;
    }
    if dy > MOUSE_MAX_DELTA {
        dy = MOUSE_MAX_DELTA;
    } else if dy < -MOUSE_MAX_DELTA {
        dy = -MOUSE_MAX_DELTA;
    }
    (keep_in_i32(x as i64 + dx as i64), keep_in_i32(y as i64 - dy as i64))
}

/// `v` kept within the range of `i32`.
pub fn keep_in_i32(v: i64) -> (kept: i32)
    ensures
        kept == within_i32(v as int),
{
    if v > i32::MAX as i64 {
        i32::MAX
    } else if v < i32::MIN as i64 {
        i32::MIN
    } else {
        v as i32
    }
}

/// Where bringing up the mouse stands: what the transfer in progress is
/// for.
#[derive(Debug, Clone, Copy, PartialEq, Eq, Structural)]
pub enum MouseInitStage {
    /// Switching the second port of the controller on.
    EnablePort,
    /// Throwing away what the controller still holds.
    Flush,
    /// Asking for the controller's configuration.
    AskConfig,
    /// Reading the configuration.
    ReadConfig,
    /// Announcing a new configuration.
    AnnounceConfig(u8),
    /// Writing the new configuration.
    WriteConfig,
    /// Telling the controller that the next byte is for the mouse, in
    /// attempt number `0`.
    Forward(u8),
    /// Sending the command to the mouse.
    SendEnable(u8),
    /// Reading the answer of the mouse.
    ReadAnswer(u8),
}

/// Bringing up the mouse, in progress.
#[derive(Debug, Clone, Copy, PartialEq, Eq, Structural)]
pub struct MouseInit {
    pub stage: MouseInitStage,
    pub transfer: TransferState,
}

/// What a step of bringing up the mouse comes to.
#[derive(Debug, Clone, Copy, PartialEq, Eq, Structural)]
pub enum InitStep {
    /// It goes on: the caller carries out the action.
    Next(MouseInit, Ps2Action),
    /// It is over: `0` says whether the mouse acknowledged the command.
    Done(bool),
}

/// The next stage begins with the transfer `transfer`.
pub open spec fn entering(stage: MouseInitStage, transfer: Transfer) -> InitStep {
    InitStep::Next(MouseInit { stage, transfer: begun(transfer) }, Ps2Action::ReadStatus)
}

/// Attempt number `attempt` to send the command begins, or bringing up
/// the mouse ends without acknowledgement where no attempt is left.
pub open spec fn attempting(attempt: int) -> InitStep {
    if attempt < ENABLE_ATTEMPTS {
        entering(MouseInitStage::Forward(attempt as u8), Transfer::Command(0xD4))
    } else {
        InitStep::Done(false)
    }
}

/// What follows the end of the transfer of a stage. The second port is
/// switched on and what the controller holds is thrown away. Then the
/// configuration is read and, where the interrupt of the mouse is not
/// enabled in it, written back with that bit set; where the controller
/// does not get ready for any of this, it is left out. Then the command
/// that makes the mouse report is sent: an attempt fails where the
/// controller does not get ready or the mouse answers with anything but
/// an acknowledgement.
pub open spec fn after_transfer(stage: MouseInitStage, outcome: Outcome) -> InitStep {
    match stage {
        MouseInitStage::EnablePort => entering(MouseInitStage::Flush, Transfer::Drain),
        MouseInitStage::Flush => entering(MouseInitStage::AskConfig, Transfer::Command(0x20)),
        MouseInitStage::AskConfig => if outcome is Sent {
            entering(MouseInitStage::ReadConfig, Transfer::Receive)
        } else {
            attempting(0)
        },
        MouseInitStage::ReadConfig => match outcome {
            Outcome::Received(config) => if config | 0x02 != config {
                entering(MouseInitStage::AnnounceConfig(config | 0x02), Transfer::Command(0x60))
            } else {
                attempting(0)
            },
            _ => attempting(0),
        },
        MouseInitStage::AnnounceConfig(config) => if outcome is Sent {
            entering(MouseInitStage::WriteConfig, Transfer::Data(config))
        } else {
            attempting(0)
        },
        MouseInitStage::WriteConfig => attempting(0),
        MouseInitStage::Forward(attempt) => if outcome is Sent {
            entering(MouseInitStage::SendEnable(attempt), Transfer::Data(ENABLE_REPORTING))
        } else {
            attempting(attempt + 1)
        },
        MouseInitStage::SendEnable(attempt) => if outcome is Sent {
            entering(MouseInitStage::ReadAnswer(attempt), Transfer::Receive)
        } else {
            attempting(attempt + 1)
        },
        MouseInitStage::ReadAnswer(attempt) => match outcome {
            Outcome::Received(answer) => if answer == MOUSE_ACK {
                InitStep::Done(true)
            } else {
                attempting(attempt + 1)
            },
            _ => attempting(attempt + 1),
        },
    }
}

/// One step of bringing up the mouse: the transfer in progress takes its
/// step, and where it ends, the next begins.
pub open spec fn init_step(m: MouseInit, reply: u8) -> InitStep {
    match transfer_step(m.transfer, reply) {
        Step::Next(transfer, action) => InitStep::Next(MouseInit { transfer, ..m }, action),
        Step::Ended(outcome) => after_transfer(m.stage, outcome),
    }
}

fn enter(stage: MouseInitStage, transfer: Transfer) -> (step: InitStep)
    ensures
        step == entering(stage, transfer),
{
    InitStep::Next(MouseInit { stage, transfer: TransferState::begin(transfer) }, Ps2Action::ReadStatus)
}

fn attempt(n: u8) -> (step: InitStep)
    ensures
        step == attempting(n as int),
{
    if n < ENABLE_ATTEMPTS {
        enter(MouseInitStage::Forward(n), Transfer::Command(0xD4))
    } else {
        InitStep::Done(false)
    }
}

fn next_attempt(failed: u8) -> (step: InitStep)
    ensures
        step == attempting(failed + 1),
{
    if failed < ENABLE_ATTEMPTS {
        attempt(failed + 1)
    } else {
        InitStep::Done(false)
    }
}

impl MouseInit {
    /// Begins bringing up the mouse: the caller reads the status of the
    /// controller and hands it to [`MouseInit::step`].
    pub fn begin() -> (m: MouseInit)
        ensures
            m == (MouseInit {
                stage: MouseInitStage::EnablePort,
                transfer: begun(Transfer::Command(0xA8)),
            }),
    {
        MouseInit {
            stage: MouseInitStage::EnablePort,
            transfer: TransferState::begin(Transfer::Command(0xA8)),
        }
    }

    /// One step of bringing up the mouse; `reply` is what the action of
    /// the step before brought back.
    pub fn step(self, reply: u8) -> (step: InitStep)
        ensures
            step == init_step(self, reply),
    {
        match self.transfer.step(reply) {
            Step::Next(transfer, action) => InitStep::Next(
                MouseInit { stage: self.stage, transfer },
                action,
            ),
            Step::Ended(outcome) => match self.stage {
                MouseInitStage::EnablePort => enter(MouseInitStage::Flush, Transfer::Drain),
                MouseInitStage::Flush => enter(MouseInitStage::AskConfig, Transfer::Command(0x20)),
                MouseInitStage::AskConfig => match outcome {
                    Outcome::Sent => enter(MouseInitStage::ReadConfig, Transfer::Receive),
                    _ => attempt(0),
                },
                MouseInitStage::ReadConfig => match outcome {
                    Outcome::Received(config) => if config | 0x02 != config {
                        enter(
                            MouseInitStage::AnnounceConfig(config | 0x02),
                            Transfer::Command(0x60),
                        )
                    } else {
                        attempt(0)
                    },
                    _ => attempt(0),
                },
                MouseInitStage::AnnounceConfig(config) => match outcome {
                    Outcome::Sent => enter(MouseInitStage::WriteConfig, Transfer::Data(config)),
                    _ => attempt(0),
                },
                MouseInitStage::WriteConfig => attempt(0),
                MouseInitStage::Forward(n) => match outcome {
                    Outcome::Sent => enter(
                        MouseInitStage::SendEnable(n),
                        Transfer::Data(ENABLE_REPORTING),
                    ),
                    _ => next_attempt(n),
                },
                MouseInitStage::SendEnable(n) => match outcome {
                    Outcome::Sent => enter(MouseInitStage::ReadAnswer(n), Transfer::Receive),
                    _ => next_attempt(n),
                },
                MouseInitStage::ReadAnswer(n) => match outcome {
                    Outcome::Received(answer) => if answer == MOUSE_ACK {
                        InitStep::Done(true)
                    } else {
                        next_attempt(n)
                    },
                    _ => next_attempt(n),
                },
            },
        }
    }
}

/// The pixels that the cursor covers, as they were before it was drawn.
pub struct SavedBackground {
    /// The column of the upper left corner of the cursor.
    pub x: usize,
    /// The row of the upper left corner of the cursor.
    pub y: usize,
    /// The pixels, row by row.
    pub pixels: Vec<u32>,
}

/// The driver of the PS/2 mouse.
pub struct Ps2MouseDriver {
    /// The vectors that the driver bound its interrupt handler to.
    pub registered_vectors: Vec<u8>,
    /// The vector bound last.
    pub vector: u8,
    pub assembler: PacketAssembler,
    pub cursor_x: i32,
    pub cursor_y: i32,
    pub saved_bg: Option<SavedBackground>,
}

/// The vectors of the interrupt resources among `resources`, in order.
pub open spec fn interrupt_vectors(resources: Seq<Resource>) -> Seq<u8>
    decreases resources.len(),
{
    if resources.len() == 0 {
        Seq::empty()
    } else {
        match resources.last().kind {
            ResourceKind::Interrupt(v) => interrupt_vectors(resources.drop_last()).push(v),
            _ => interrupt_vectors(resources.drop_last()),
        }
    }
}

/// `known` with those of `vectors` added, in order, that it does not hold
/// when their turn comes.
pub open spec fn with_vectors(known: Seq<u8>, vectors: Seq<u8>) -> Seq<u8>
    decreases vectors.len(),
{
    if vectors.len() == 0 {
        known
    } else {
        let before = with_vectors(known, vectors.drop_last());
        if before.contains(vectors.last()) {
            before
        } else {
            before.push(vectors.last())
        }
    }
}

/// Whether `known` holds `v`.
pub fn holds_vector(known: &Vec<u8>, v: u8) -> (held: bool)
    ensures
        held == known@.contains(v),
{
    let mut i: usize = 0;
    while i < known.len()
        invariant
            i <= known.len(),
            forall|k: int| 0 <= k < i ==> known@[k] != v,
        decreases known.len() - i,
    {
        if known[i] == v {
            return true;
        }
        i += 1;
    }
    false
}

/// Takes note of the vectors of the interrupt resources among
/// `resources`: they come back in order, for the caller to bind the
/// interrupt handler to, and are added to `known` as far as it does not
/// hold them.
pub fn note_vectors(known: &mut Vec<u8>, resources: &Vec<Resource>) -> (vectors: Vec<u8>)
    ensures
        vectors@ == interrupt_vectors(resources@),
        final(known)@ == with_vectors(old(known)@, interrupt_vectors(resources@)),
{
    let mut vectors: Vec<u8> = Vec::new();
    let mut i: usize = 0;
    while i < resources.len()
        invariant
            i <= resources.len(),
            vectors@ == interrupt_vectors(resources@.take(i as int)),
            known@ == with_vectors(old(known)@, interrupt_vectors(resources@.take(i as int))),
        decreases resources.len() - i,
    {
        proof {
            assert(resources@.take(i as int + 1).drop_last() =~= resources@.take(i as int));
        }
        match resources[i].kind {
            ResourceKind::Interrupt(v) => {
                proof {
                    assert(vectors@.push(v).drop_last() =~= vectors@);
                }
                vectors.push(v);
                if !holds_vector(known, v) {
                    known.push(v);
                }
            },
            _ => {},
        }
        i += 1;
    }
    assert(resources@.take(i as int) =~= resources@);
    vectors
}

/// The pixel in column `x` of row `y` of the framebuffer `fb`, or zero
/// where the pixel does not lie whole within the framebuffer.
pub open spec fn pixel_at(fb: Seq<u8>, pitch: int, x: int, y: int) -> u32 {
    let at = pixel_start(pitch, x, y);
    if 0 <= at && at + 4 <= fb.len() {
        (fb[at] + 0x100 * fb[at + 1] + 0x1_0000 * fb[at + 2] + 0x100_0000 * fb[at + 3]) as u32
    } else {
        0
    }
}

/// The pixel in column `x` of row `y`.
pub fn read_pixel(fb: &[u8], pitch: usize, x: usize, y: usize) -> (color: u32)
    ensures
        color == pixel_at(fb@, pitch as int, x as int, y as int),
{
    match pixel_offset(fb.len(), pitch, x, y) {
        Some(at) => fb[at] as u32 + 0x100 * (fb[at + 1] as u32) + 0x1_0000 * (fb[at + 2] as u32)
            + 0x100_0000 * (fb[at + 3] as u32),
        None => 0,
    }
}

/// Where the cursor is drawn along one axis: at `position`, but not
/// beyond the last place at which a cursor of `size` pixels fits into
/// `extent` pixels, and not before the first pixel.
pub open spec fn cursor_origin(position: i32, extent: u32, size: int) -> usize {
    let last = extent - size;
    let kept = if position > last {
        last
    } else {
        position as int
    };
    if kept < 0 {
        0
    } else {
        kept as usize
    }
}

/// Where the cursor is drawn along one axis.
pub fn origin(position: i32, extent: u32, size: u32) -> (at: usize)
    requires
        size <= 16,
    ensures
        at == cursor_origin(position, extent, size as int),
        at + size <= u32::MAX,
{
    let last = extent as i64 - size as i64;
    let kept = if position as i64 > last {
        last
    } else {
        position as i64
    };
    if kept < 0 {
        0
    } else {
        kept as usize
    }
}

/// The framebuffer `fb` with the first `n` of the pixels `pixels` put
/// back, row by row, into the area of the cursor whose upper left corner
/// lies in column `x` of row `y`.
pub open spec fn restored(fb: Seq<u8>, pitch: int, x: int, y: int, pixels: Seq<u32>, n: int)
    -> Seq<u8>
    decreases n,
{
    if n <= 0 {
        fb
    } else {
        with_pixel(
            restored(fb, pitch, x, y, pixels, n - 1),
            pitch,
            x + (n - 1) % (CURSOR_WIDTH as int),
            y + (n - 1) / (CURSOR_WIDTH as int),
            pixels[n - 1],
        )
    }
}

/// The pixels of the area of the cursor whose upper left corner lies in
/// column `x` of row `y`, row by row.
pub open spec fn captured(fb: Seq<u8>, pitch: int, x: int, y: int) -> Seq<u32> {
    Seq::new(
        (CURSOR_WIDTH * CURSOR_HEIGHT) as nat,
        |i: int| pixel_at(fb, pitch, x + i % (CURSOR_WIDTH as int), y + i / (CURSOR_WIDTH as int)),
    )
}

/// Whether the arrow covers pixel number `i` of its area, counted row by
/// row.
pub open spec fn arrow_covers(i: int) -> bool {
    ARROW[i / (CURSOR_WIDTH as int)] & (1u16 << ((CURSOR_WIDTH - 1 - i % (CURSOR_WIDTH as int)) as u16))
        != 0
}

/// The framebuffer `fb` with those of the first `n` pixels of the area of
/// the cursor set to white that the arrow covers.
pub open spec fn with_arrow(fb: Seq<u8>, pitch: int, x: int, y: int, n: int) -> Seq<u8>
    decreases n,
{
    if n <= 0 {
        fb
    } else {
        let before = with_arrow(fb, pitch, x, y, n - 1);
        if arrow_covers(n - 1) {
            with_pixel(
                before,
                pitch,
                x + (n - 1) % (CURSOR_WIDTH as int),
                y + (n - 1) / (CURSOR_WIDTH as int),
                0xFFFFFFFF,
            )
        } else {
            before
        }
    }
}

impl Ps2MouseDriver {
    /// What was saved of the background is a whole area of the cursor, and
    /// lies where pixels can be addressed.
    pub open spec fn wf(&self) -> bool {
        self.saved_bg is Some ==> {
            &&& self.saved_bg->Some_0.pixels@.len() == CURSOR_WIDTH * CURSOR_HEIGHT
            &&& self.saved_bg->Some_0.x + CURSOR_WIDTH <= usize::MAX
            &&& self.saved_bg->Some_0.y + CURSOR_HEIGHT <= usize::MAX
        }
    }

    /// Whether what was saved of the background is a whole area of the
    /// cursor at a place where pixels can be addressed.
    pub fn is_wf(&self) -> (ok: bool)
        ensures
            ok == self.wf(),
    {
        match &self.saved_bg {
            Some(saved) => saved.pixels.len() == CURSOR_WIDTH * CURSOR_HEIGHT && saved.x
                <= usize::MAX - CURSOR_WIDTH && saved.y <= usize::MAX - CURSOR_HEIGHT,
            None => true,
        }
    }

    /// A driver that has bound no vector, with the cursor at (40, 40).
    pub fn new() -> (d: Ps2MouseDriver)
        ensures
            d.wf(),
            d.registered_vectors@.len() == 0,
            d.cursor_x == 40,
            d.cursor_y == 40,
            d.saved_bg is None,
            d.assembler.state == 0,
    {
        Ps2MouseDriver {
            registered_vectors: Vec::new(),
            vector: 0,
            assembler: PacketAssembler::new(),
            cursor_x: 40,
            cursor_y: 40,
            saved_bg: None,
        }
    }

    /// Whether the driver serves the device: it serves input devices and
    /// whatever calls itself a mouse.
    pub fn probe(&self, info: &DeviceInfo) -> (r: Result<(), &'static str>)
        ensures
            r == if info.class == 0x09 || contains_text(info.description@, "PS/2 Mouse"@)
                || contains_text(info.description@, "Mouse"@) {
                Ok::<(), &'static str>(())
            } else {
                Err::<(), &'static str>("not a PS/2 mouse")
            },
    {
        if info.class == 0x09 || text_contains(info.description.as_str(), "PS/2 Mouse")
            || text_contains(info.description.as_str(), "Mouse") {
            Ok(())
        } else {
            Err("not a PS/2 mouse")
        }
    }

    /// Starts the driver for the device `info`: the vectors of the
    /// device's interrupts come back, for the caller to bind the handler
    /// to; the driver takes note of them. Then the caller brings up the
    /// mouse (see [`MouseInit`]).
    pub fn start(&mut self, info: &DeviceInfo) -> (vectors: Vec<u8>)
        requires
            old(self).wf(),
        ensures
            final(self).wf(),
            vectors@ == interrupt_vectors(info.resources@),
            final(self).registered_vectors@ == with_vectors(
                old(self).registered_vectors@,
                interrupt_vectors(info.resources@),
            ),
            final(self).vector == if vectors@.len() > 0 {
                vectors@.last()
            } else {
                old(self).vector
            },
            final(self).assembler == old(self).assembler,
            final(self).cursor_x == old(self).cursor_x,
            final(self).cursor_y == old(self).cursor_y,
            final(self).saved_bg == old(self).saved_bg,
    {
        let vectors = note_vectors(&mut self.registered_vectors, &info.resources);
        if vectors.len() > 0 {
            self.vector = vectors[vectors.len() - 1];
        }
        vectors
    }

    /// Stops the driver: the vectors come back that the handler is to be
    /// taken off. The driver keeps them in mind.
    pub fn stop(&self) -> (vectors: Vec<u8>)
        ensures
            vectors@ == self.registered_vectors@,
    {
        self.registered_vectors.clone()
    }

    /// Releases the device: the vectors come back that the handler is to
    /// be taken off, and the driver forgets them.
    pub fn release(&mut self) -> (vectors: Vec<u8>)
        ensures
            vectors@ == old(self).registered_vectors@,
            final(self).registered_vectors@.len() == 0,
            final(self).vector == old(self).vector,
            final(self).assembler == old(self).assembler,
            final(self).cursor_x == old(self).cursor_x,
            final(self).cursor_y == old(self).cursor_y,
            final(self).saved_bg == old(self).saved_bg,
    {
        let mut vectors: Vec<u8> = Vec::new();
        core::mem::swap(&mut vectors, &mut self.registered_vectors);
        vectors
    }

    /// Takes a byte that the mouse sent with an interrupt; the packet
    /// comes back that the byte completed, if it completed one.
    pub fn irq_handler(&mut self, b: u8) -> (packet: Option<MousePacket>)
        ensures
            (final(self).assembler, packet) == assembled(old(self).assembler, b),
            final(self).registered_vectors == old(self).registered_vectors,
            final(self).vector == old(self).vector,
            final(self).cursor_x == old(self).cursor_x,
            final(self).cursor_y == old(self).cursor_y,
            final(self).saved_bg == old(self).saved_bg,
    {
        self.assembler.push_byte(b)
    }

    /// Draws the cursor where it stands. Without the geometry of the
    /// framebuffer nothing is drawn. Otherwise the background saved for
    /// another place is put back, the background at the cursor is saved,
    /// and the arrow is drawn in white over it.
    pub fn redraw_cursor(&mut self, fb: &mut [u8], info: &Option<FramebufferInfo>)
        requires
            old(self).wf(),
        ensures
            final(self).wf(),
            final(self).cursor_x == old(self).cursor_x,
            final(self).cursor_y == old(self).cursor_y,
            final(self).registered_vectors == old(self).registered_vectors,
            final(self).vector == old(self).vector,
            final(self).assembler == old(self).assembler,
            *info is None ==> final(fb)@ == old(fb)@ && final(self).saved_bg == old(self).saved_bg,
            *info is Some ==> {
                let i = info->Some_0;
                let pitch = i.pitch as int;
                let x = cursor_origin(old(self).cursor_x, i.width, CURSOR_WIDTH as int);
                let y = cursor_origin(old(self).cursor_y, i.height, CURSOR_HEIGHT as int);
                let cleared = match old(self).saved_bg {
                    Some(saved) => if saved.x != x || saved.y != y {
                        restored(
                            old(fb)@,
                            pitch,
                            saved.x as int,
                            saved.y as int,
                            saved.pixels@,
                            (CURSOR_WIDTH * CURSOR_HEIGHT) as int,
                        )
                    } else {
                        old(fb)@
                    },
                    None => old(fb)@,
                };
                &&& final(self).saved_bg is Some
                &&& final(self).saved_bg->Some_0.x == x
                &&& final(self).saved_bg->Some_0.y == y
                &&& final(self).saved_bg->Some_0.pixels@ == captured(cleared, pitch, x as int, y as int)
                &&& final(fb)@ == with_arrow(
                    cleared,
                    pitch,
                    x as int,
                    y as int,
                    (CURSOR_WIDTH * CURSOR_HEIGHT) as int,
                )
            },
    {
        let geometry = match info {
            Some(geometry) => *geometry,
            None => {
                return ;
            },
        };
        let pitch = geometry.pitch;
        let x = origin(self.cursor_x, geometry.width, CURSOR_WIDTH as u32);
        let y = origin(self.cursor_y, geometry.height, CURSOR_HEIGHT as u32);
        let ghost start = fb@;
        let mut moved = false;
        match &self.saved_bg {
            Some(saved) => {
                if saved.x != x || saved.y != y {
                    moved = true;
                    let mut i: usize = 0;
                    while i < CURSOR_WIDTH * CURSOR_HEIGHT
                        invariant
                            i <= CURSOR_WIDTH * CURSOR_HEIGHT,
                            saved.pixels@.len() == CURSOR_WIDTH * CURSOR_HEIGHT,
                            saved.x + CURSOR_WIDTH <= usize::MAX,
                            saved.y + CURSOR_HEIGHT <= usize::MAX,
                            fb@ == restored(
                                start,
                                pitch as int,
                                saved.x as int,
                                saved.y as int,
                                saved.pixels@,
                                i as int,
                            ),
                        decreases CURSOR_WIDTH * CURSOR_HEIGHT - i,
                    {
                        draw_pixel_at(
                            fb,
                            pitch,
                            saved.x + i % CURSOR_WIDTH,
                            saved.y + i / CURSOR_WIDTH,
                            saved.pixels[i],
                        );
                        i += 1;
                    }
                }
            },
            None => {},
        }
        if moved {
            self.saved_bg = None;
        }
        let ghost cleared = fb@;
        let mut pixels: Vec<u32> = Vec::new();
        let mut i: usize = 0;
        while i < CURSOR_WIDTH * CURSOR_HEIGHT
            invariant
                i <= CURSOR_WIDTH * CURSOR_HEIGHT,
                x + CURSOR_WIDTH <= u32::MAX,
                y + CURSOR_HEIGHT <= u32::MAX,
                fb@ == cleared,
                pixels@.len() == i,
                forall|k: int|
                    0 <= k < i ==> #[trigger] pixels@[k] == pixel_at(
                        cleared,
                        pitch as int,
                        x + k % (CURSOR_WIDTH as int),
                        y + k / (CURSOR_WIDTH as int),
                    ),
            decreases CURSOR_WIDTH * CURSOR_HEIGHT - i,
        {
            pixels.push(read_pixel(fb, pitch, x + i % CURSOR_WIDTH, y + i / CURSOR_WIDTH));
            i += 1;
        }
        assert(pixels@ =~= captured(cleared, pitch as int, x as int, y as int));
        self.saved_bg = Some(SavedBackground { x, y, pixels });
        let mut i: usize = 0;
        while i < CURSOR_WIDTH * CURSOR_HEIGHT
            invariant
                i <= CURSOR_WIDTH * CURSOR_HEIGHT,
                x + CURSOR_WIDTH <= u32::MAX,
                y + CURSOR_HEIGHT <= u32::MAX,
                fb@ == with_arrow(cleared, pitch as int, x as int, y as int, i as int),
            decreases CURSOR_WIDTH * CURSOR_HEIGHT - i,
        {
            let bits = ARROW[i / CURSOR_WIDTH];
            if bits & (1u16 << ((CURSOR_WIDTH - 1 - i % CURSOR_WIDTH) as u16)) != 0 {
                draw_pixel_at(fb, pitch, x + i % CURSOR_WIDTH, y + i / CURSOR_WIDTH, 0xFFFFFFFF);
            }
            i += 1;
        }
    }

    /// Puts the cursor at (`x`, `y`) and draws it there.
    pub fn set_cursor_pos(&mut self, x: i32, y: i32, fb: &mut [u8], info: &Option<FramebufferInfo>)
        requires
            old(self).wf(),
        ensures
            final(self).wf(),
            final(self).cursor_x == x,
            final(self).cursor_y == y,
    {
        self.cursor_x = x;
        self.cursor_y = y;
        self.redraw_cursor(fb, info);
    }

    /// Moves the cursor as the packet `packet` says and draws it at its
    /// new place.
    pub fn handle_packet(
        &mut self,
        packet: &MousePacket,
        fb: &mut [u8],
        info: &Option<FramebufferInfo>,
    )
        requires
            old(self).wf(),
        ensures
            final(self).wf(),
            final(self).cursor_x == within_i32(
                old(self).cursor_x + clamped(packet.dx as int, MOUSE_MAX_DELTA as int),
            ),
            final(self).cursor_y == within_i32(
                old(self).cursor_y - clamped(packet.dy as int, MOUSE_MAX_DELTA as int),
            ),
    {
        let (x, y) = apply_packet(self.cursor_x, self.cursor_y, packet);
        self.cursor_x = x;
        self.cursor_y = y;
        self.redraw_cursor(fb, info);
    }
}

} // verus!
