use crossbeam_queue::ArrayQueue;
use neutrix::driver_framework::device::{DeviceInfo, Resource, ResourceKind};
use neutrix::driver_framework::drivers::ps2::{
    Outcome, Ps2Action, Step, Transfer, TransferStage, TransferState, TRANSFER_POLLS,
};
use neutrix::driver_framework::drivers::ps2kbd::{
    add_scancode, keyboard_port_transfer, port_message, scancode_outcome, Key, LineEvent,
    LineReader, Ps2KbdDriver, ScancodeOutcome, STARTED_MESSAGE,
};
use neutrix::driver_framework::drivers::ps2mouse::{
    apply_packet, as_signed, holds_vector, keep_in_i32, note_vectors, origin, read_pixel,
    InitStep, MouseInit, MouseInitStage, MousePacket, PacketAssembler, Ps2MouseDriver, ARROW,
};
use neutrix::driver_framework::drivers::vbe_vga::{draw_pixel_at, FramebufferInfo};

fn run_transfer(transfer: Transfer, replies: &[u8]) -> (Vec<Ps2Action>, Option<Outcome>) {
    let mut state = TransferState::begin(transfer);
    let mut actions = vec![Ps2Action::ReadStatus];
    for &reply in replies {
        match state.step(reply) {
            Step::Next(next, action) => {
                state = next;
                actions.push(action);
            }
            Step::Ended(outcome) => return (actions, Some(outcome)),
        }
    }
    (actions, None)
}

#[test]
fn a_command_is_written_once_the_controller_is_ready() {
    let (actions, outcome) = run_transfer(Transfer::Command(0xA8), &[0x02, 0x03, 0x00, 0x55]);
    assert_eq!(
        actions,
        vec![
            Ps2Action::ReadStatus,
            Ps2Action::ReadStatus,
            Ps2Action::ReadStatus,
            Ps2Action::WriteCommand(0xA8),
        ]
    );
    assert_eq!(outcome, Some(Outcome::Sent));
    let (actions, outcome) = run_transfer(Transfer::Data(0xF4), &[0x01, 0x00]);
    assert_eq!(actions, vec![Ps2Action::ReadStatus, Ps2Action::WriteData(0xF4)]);
    assert_eq!(outcome, Some(Outcome::Sent));
}

#[test]
fn a_byte_is_read_once_the_controller_holds_one() {
    let (actions, outcome) = run_transfer(Transfer::Receive, &[0x00, 0x02, 0x01, 0xFA]);
    assert_eq!(
        actions,
        vec![
            Ps2Action::ReadStatus,
            Ps2Action::ReadStatus,
            Ps2Action::ReadStatus,
            Ps2Action::ReadData,
        ]
    );
    assert_eq!(outcome, Some(Outcome::Received(0xFA)));
}

#[test]
fn a_transfer_gives_up_after_ten_thousand_looks() {
    let mut state = TransferState::begin(Transfer::Command(0x20));
    assert_eq!(state.polls_left, TRANSFER_POLLS);
    assert_eq!(state.stage, TransferStage::Status);
    let mut reads = 1;
    loop {
        match state.step(0x02) {
            Step::Next(next, action) => {
                assert_eq!(action, Ps2Action::ReadStatus);
                state = next;
                reads += 1;
            }
            Step::Ended(outcome) => {
                assert_eq!(outcome, Outcome::TimedOut);
                break;
            }
        }
    }
    assert_eq!(reads, 10000);
    let mut state = TransferState::begin(Transfer::Receive);
    state.polls_left = 1;
    assert_eq!(state.step(0x00), Step::Ended(Outcome::TimedOut));
}

#[test]
fn draining_reads_while_there_are_bytes() {
    let (actions, outcome) = run_transfer(Transfer::Drain, &[0x01, 0xAA, 0x01, 0xBB, 0x00]);
    assert_eq!(
        actions,
        vec![
            Ps2Action::ReadStatus,
            Ps2Action::ReadData,
            Ps2Action::ReadStatus,
            Ps2Action::ReadData,
            Ps2Action::ReadStatus,
        ]
    );
    assert_eq!(outcome, Some(Outcome::Drained));
}

/// A controller that is always ready and answers from a list.
fn bring_up(config: u8, answers: &[u8]) -> (Vec<Ps2Action>, bool) {
    let mut init = MouseInit::begin();
    let mut actions = vec![Ps2Action::ReadStatus];
    let mut answers = answers.iter();
    let mut drained = false;
    let mut reply = 0x00u8;
    loop {
        // status: input never full; output full while something is to be read
        let last = *actions.last().expect("an action");
        reply = match last {
            Ps2Action::ReadStatus => match init.transfer.transfer {
                Transfer::Receive => 0x01,
                Transfer::Drain => {
                    if drained {
                        0x00
                    } else {
                        drained = true;
                        0x01
                    }
                }
                _ => 0x00,
            },
            Ps2Action::ReadData => match init.stage {
                MouseInitStage::ReadConfig => config,
                MouseInitStage::ReadAnswer(_) => *answers.next().expect("an answer"),
                _ => 0x77,
            },
            _ => reply,
        };
        match init.step(reply) {
            InitStep::Next(next, action) => {
                init = next;
                actions.push(action);
            }
            InitStep::Done(ok) => return (actions, ok),
        }
        assert!(actions.len() < 1000);
    }
}

fn writes(actions: &[Ps2Action]) -> Vec<Ps2Action> {
    actions
        .iter()
        .copied()
        .filter(|a| matches!(a, Ps2Action::WriteCommand(_) | Ps2Action::WriteData(_)))
        .collect()
}

#[test]
fn the_mouse_is_brought_up() {
    let (actions, ok) = bring_up(0x45, &[0xFA]);
    assert!(ok);
    assert_eq!(
        writes(&actions),
        vec![
            Ps2Action::WriteCommand(0xA8),
            Ps2Action::WriteCommand(0x20),
            Ps2Action::WriteCommand(0x60),
            Ps2Action::WriteData(0x47),
            Ps2Action::WriteCommand(0xD4),
            Ps2Action::WriteData(0xF4),
        ]
    );
}

#[test]
fn the_configuration_is_left_alone_where_the_interrupt_is_enabled() {
    let (actions, ok) = bring_up(0x47, &[0xFA]);
    assert!(ok);
    assert_eq!(
        writes(&actions),
        vec![
            Ps2Action::WriteCommand(0xA8),
            Ps2Action::WriteCommand(0x20),
            Ps2Action::WriteCommand(0xD4),
            Ps2Action::WriteData(0xF4),
        ]
    );
}

#[test]
fn the_command_is_tried_four_times() {
    let (actions, ok) = bring_up(0x47, &[0xFE, 0xFC, 0xFE, 0xFA]);
    assert!(ok);
    assert_eq!(writes(&actions).iter().filter(|a| **a == Ps2Action::WriteData(0xF4)).count(), 4);
    let (actions, ok) = bring_up(0x47, &[0xFE, 0xFE, 0x00, 0xFE]);
    assert!(!ok);
    assert_eq!(writes(&actions).iter().filter(|a| **a == Ps2Action::WriteData(0xF4)).count(), 4);
}

#[test]
fn bytes_become_packets() {
    let mut a = PacketAssembler::new();
    assert_eq!(a.push_byte(0x00), None);
    assert_eq!(a.state, 0);
    assert_eq!(a.push_byte(0x09), None);
    assert_eq!(a.state, 1);
    assert_eq!(a.push_byte(0x05), None);
    assert_eq!(a.push_byte(0xFB), Some(MousePacket { buttons: 0x09, dx: 5, dy: -5 }));
    assert_eq!(a.state, 0);
    assert_eq!(a.push_byte(0x28), None);
    assert_eq!(a.push_byte(0x80), None);
    assert_eq!(a.push_byte(0x7F), Some(MousePacket { buttons: 0x28, dx: -128, dy: 127 }));
    a.state = 9;
    assert_eq!(a.push_byte(0x08), None);
    assert_eq!(a.state, 0);
    assert_eq!(as_signed(0xFF), -1);
    assert_eq!(as_signed(0x80), -128);
    assert_eq!(as_signed(0x7F), 127);
}

#[test]
fn packets_move_the_cursor() {
    let p = |dx: i8, dy: i8| MousePacket { buttons: 8, dx, dy };
    assert_eq!(apply_packet(100, 100, &p(5, 3)), (105, 97));
    assert_eq!(apply_packet(100, 100, &p(-5, -3)), (95, 103));
    assert_eq!(apply_packet(100, 100, &p(127, -128)), (116, 116));
    assert_eq!(apply_packet(100, 100, &p(-17, 17)), (84, 84));
    assert_eq!(apply_packet(i32::MAX - 3, i32::MIN + 3, &p(16, 16)), (i32::MAX, i32::MIN));
    assert_eq!(keep_in_i32(i64::MAX), i32::MAX);
    assert_eq!(keep_in_i32(-5), -5);
}

fn mouse_device(description: &str, class: u8, vectors: &[u8]) -> DeviceInfo {
    let mut resources = vec![Resource { kind: ResourceKind::IO, addr: 0x60, len: 1 }];
    for &v in vectors {
        resources.push(Resource { kind: ResourceKind::Interrupt(v), addr: 0, len: 0 });
    }
    DeviceInfo {
        vendor_id: 0xffff,
        device_id: 0xffff,
        class,
        subclass: 0,
        prog_if: 0,
        resources,
        capabilities: Vec::new(),
        description: description.to_string(),
    }
}

#[test]
fn the_mouse_driver_binds_the_vectors_of_its_device() {
    let mut driver = Ps2MouseDriver::new();
    assert_eq!(driver.probe(&mouse_device("PS/2 Mouse", 0x00, &[])), Ok(()));
    assert_eq!(driver.probe(&mouse_device("Mouse", 0x00, &[])), Ok(()));
    assert_eq!(driver.probe(&mouse_device("trackball", 0x09, &[])), Ok(()));
    assert_eq!(driver.probe(&mouse_device("mouse", 0x02, &[])), Err("not a PS/2 mouse"));
    assert_eq!(driver.start(&mouse_device("PS/2 Mouse", 9, &[44, 45, 44])), vec![44, 45, 44]);
    assert_eq!(driver.registered_vectors, vec![44, 45]);
    assert_eq!(driver.vector, 44);
    assert_eq!(driver.start(&mouse_device("PS/2 Mouse", 9, &[46])), vec![46]);
    assert_eq!(driver.registered_vectors, vec![44, 45, 46]);
    assert_eq!(driver.start(&mouse_device("PS/2 Mouse", 9, &[])), Vec::<u8>::new());
    assert_eq!(driver.vector, 46);
    assert_eq!(driver.stop(), vec![44, 45, 46]);
    assert_eq!(driver.registered_vectors, vec![44, 45, 46]);
    assert_eq!(driver.release(), vec![44, 45, 46]);
    assert!(driver.registered_vectors.is_empty());
    assert!(driver.release().is_empty());
    assert_eq!(driver.irq_handler(0x08), None);
    assert_eq!(driver.irq_handler(1), None);
    assert_eq!(driver.irq_handler(2), Some(MousePacket { buttons: 8, dx: 1, dy: 2 }));
    let mut known = vec![1u8];
    assert!(holds_vector(&known, 1));
    assert!(!holds_vector(&known, 2));
    assert_eq!(note_vectors(&mut known, &mouse_device("", 0, &[2, 1]).resources), vec![2, 1]);
    assert_eq!(known, vec![1, 2]);
}

#[test]
fn the_cursor_stays_on_the_screen() {
    assert_eq!(origin(40, 1024, 12), 40);
    assert_eq!(origin(-5, 1024, 12), 0);
    assert_eq!(origin(2000, 1024, 12), 1012);
    assert_eq!(origin(1012, 1024, 12), 1012);
    assert_eq!(origin(1013, 768, 16), 752);
    assert_eq!(origin(5, 8, 12), 0);
    assert_eq!(origin(i32::MAX, u32::MAX, 16), i32::MAX as usize);
}

fn cursor_pixel(fb: &[u8], pitch: usize, x: usize, y: usize) -> u32 {
    read_pixel(fb, pitch, x, y)
}

#[test]
fn the_cursor_is_drawn_over_the_saved_background() {
    let info = Some(FramebufferInfo { width: 40, height: 40, bpp: 32, pitch: 160 });
    let mut fb = vec![0u8; 160 * 40];
    for y in 0..40 {
        for x in 0..40 {
            draw_pixel_at(&mut fb, 160, x, y, (y * 40 + x) as u32);
        }
    }
    let background = fb.clone();
    let mut driver = Ps2MouseDriver::new();
    driver.redraw_cursor(&mut fb, &None);
    assert_eq!(fb, background);
    assert!(driver.saved_bg.is_none());

    driver.set_cursor_pos(3, 5, &mut fb, &info);
    let saved = driver.saved_bg.as_ref().expect("saved");
    assert_eq!((saved.x, saved.y), (3, 5));
    assert_eq!(saved.pixels.len(), 192);
    for i in 0..192 {
        assert_eq!(saved.pixels[i], ((5 + i / 12) * 40 + 3 + i % 12) as u32);
    }
    for row in 0..16 {
        for col in 0..12 {
            let covered = ARROW[row] & (1 << (11 - col)) != 0;
            let expected =
                if covered { 0xFFFF_FFFF } else { ((5 + row) * 40 + 3 + col) as u32 };
            assert_eq!(cursor_pixel(&fb, 160, 3 + col, 5 + row), expected);
        }
    }
    assert_eq!(cursor_pixel(&fb, 160, 3, 5), 0xFFFF_FFFF);
    assert_eq!(cursor_pixel(&fb, 160, 4, 5), 5 * 40 + 4);

    // moved: the old place is restored, the new place saved and drawn
    driver.handle_packet(&MousePacket { buttons: 8, dx: 10, dy: -4 }, &mut fb, &info);
    assert_eq!((driver.cursor_x, driver.cursor_y), (13, 9));
    let saved = driver.saved_bg.as_ref().expect("saved");
    assert_eq!((saved.x, saved.y), (13, 9));
    for i in 0..192 {
        assert_eq!(saved.pixels[i], ((9 + i / 12) * 40 + 13 + i % 12) as u32);
    }
    let mut expected = background.clone();
    for row in 0..16 {
        for col in 0..12 {
            if ARROW[row] & (1 << (11 - col)) != 0 {
                draw_pixel_at(&mut expected, 160, 13 + col, 9 + row, 0xFFFF_FFFF);
            }
        }
    }
    assert_eq!(fb, expected);

    // beyond the edge the cursor is drawn at the last place where it fits
    driver.set_cursor_pos(1000, -3, &mut fb, &info);
    let saved = driver.saved_bg.as_ref().expect("saved");
    assert_eq!((saved.x, saved.y), (28, 0));
    assert_eq!((driver.cursor_x, driver.cursor_y), (1000, -3));
}

#[test]
fn pixels_are_read_lowest_byte_first() {
    let fb = [0x01u8, 0x02, 0x03, 0x04, 0x05, 0x06, 0x07, 0x08];
    assert_eq!(read_pixel(&fb, 4, 0, 0), 0x0403_0201);
    assert_eq!(read_pixel(&fb, 4, 0, 1), 0x0807_0605);
    assert_eq!(read_pixel(&fb, 4, 1, 1), 0);
    assert_eq!(read_pixel(&fb, 2, 0, 1), 0x0605_0403);
}

#[test]
fn scancodes_are_queued_while_there_is_room() {
    let queue: ArrayQueue<u8> = ArrayQueue::new(2);
    assert_eq!(add_scancode(Some(&queue), 0x1E), ScancodeOutcome::Queued);
    assert_eq!(add_scancode(Some(&queue), 0x9E), ScancodeOutcome::Queued);
    assert_eq!(add_scancode(Some(&queue), 0x1F), ScancodeOutcome::Dropped);
    assert_eq!(queue.pop(), Some(0x1E));
    assert_eq!(add_scancode(Some(&queue), 0x20), ScancodeOutcome::Queued);
    assert_eq!(queue.pop(), Some(0x9E));
    assert_eq!(queue.pop(), Some(0x20));
    assert_eq!(queue.pop(), None);
    assert_eq!(add_scancode(None, 0x1E), ScancodeOutcome::Uninitialized);
    assert_eq!(scancode_outcome(Some(true)), ScancodeOutcome::Queued);
    assert_eq!(scancode_outcome(Some(false)), ScancodeOutcome::Dropped);
    assert_eq!(scancode_outcome(None), ScancodeOutcome::Uninitialized);
}

#[test]
fn keys_make_a_line() {
    let mut reader = LineReader::new();
    assert_eq!(reader.feed_key(Key::Unicode('h')), LineEvent::Echo('h'));
    assert_eq!(reader.feed_key(Key::Raw), LineEvent::Nothing);
    assert_eq!(reader.feed_key(Key::Unicode('x')), LineEvent::Echo('x'));
    assert_eq!(reader.feed_key(Key::Unicode('\x08')), LineEvent::Erase);
    assert_eq!(reader.feed_key(Key::Unicode('i')), LineEvent::Echo('i'));
    assert_eq!(reader.buf, vec!['h', 'i']);
    assert_eq!(reader.finish(), "hi");
    assert_eq!(reader.feed_key(Key::Unicode('\n')), LineEvent::Finished("hi".to_string()));
    let mut reader = LineReader::new();
    assert_eq!(reader.feed_key(Key::Unicode('\x08')), LineEvent::Nothing);
    assert_eq!(reader.feed_key(Key::Unicode('\r')), LineEvent::Finished(String::new()));
    assert_eq!(reader.feed_key(Key::Unicode('\u{e9}')), LineEvent::Echo('\u{e9}'));
    assert_eq!(reader.finish(), "\u{e9}");
}

#[test]
fn scancodes_make_a_line() {
    let mut reader = LineReader::new();
    // h down, h up, left shift down, i down, i up, left shift up
    assert_eq!(reader.feed_scancode(0x23), LineEvent::Echo('h'));
    assert_eq!(reader.feed_scancode(0xA3), LineEvent::Nothing);
    assert_eq!(reader.feed_scancode(0x2A), LineEvent::Nothing);
    assert_eq!(reader.feed_scancode(0x17), LineEvent::Echo('I'));
    assert_eq!(reader.feed_scancode(0x97), LineEvent::Nothing);
    assert_eq!(reader.feed_scancode(0xAA), LineEvent::Nothing);
    // 1 down, backspace down, an extended prefix and an arrow key, return down
    assert_eq!(reader.feed_scancode(0x02), LineEvent::Echo('1'));
    assert_eq!(reader.feed_scancode(0x0E), LineEvent::Erase);
    assert_eq!(reader.feed_scancode(0xE0), LineEvent::Nothing);
    assert_eq!(reader.feed_scancode(0x48), LineEvent::Nothing);
    assert_eq!(reader.feed_scancode(0x1C), LineEvent::Finished("hI".to_string()));
}

#[test]
fn the_keyboard_port_is_switched_with_a_command() {
    let on = keyboard_port_transfer(true);
    assert_eq!(on.transfer, Transfer::Command(0xAE));
    assert_eq!(on.step(0x00), Step::Next(
        TransferState { transfer: Transfer::Command(0xAE), stage: TransferStage::Moved, polls_left: 10000 },
        Ps2Action::WriteCommand(0xAE),
    ));
    assert_eq!(keyboard_port_transfer(false).transfer, Transfer::Command(0xAD));
    assert_eq!(port_message(true, Outcome::Sent), "[kbd] PS/2 keyboard port enabled\n");
    assert_eq!(
        port_message(true, Outcome::TimedOut),
        "[kbd] Warning: failed to enable PS/2 keyboard port (0xAE)\n"
    );
    assert_eq!(port_message(false, Outcome::Sent), "[kbd] PS/2 keyboard port disabled\n");
    assert_eq!(
        port_message(false, Outcome::TimedOut),
        "[kbd] Warning: failed to disable PS/2 keyboard port (0xAD)\n"
    );
}

#[test]
fn the_keyboard_driver_binds_the_vectors_of_its_device() {
    let mut driver = Ps2KbdDriver::new();
    assert_eq!(driver.probe(&mouse_device("PS/2 Keyboard", 0x00, &[])), Ok(()));
    assert_eq!(driver.probe(&mouse_device("x", 0x09, &[])), Ok(()));
    assert_eq!(driver.probe(&mouse_device("Keyboard", 0x00, &[])), Err("not a PS/2 keyboard"));
    assert_eq!(driver.start(&mouse_device("PS/2 Keyboard", 9, &[33])), vec![33]);
    assert_eq!(driver.start(&mouse_device("PS/2 Keyboard", 9, &[33])), vec![33]);
    assert_eq!(driver.registered_vectors, vec![33]);
    assert_eq!(Ps2KbdDriver::port_off_after(Outcome::Sent), None);
    assert_eq!(
        Ps2KbdDriver::port_off_after(Outcome::TimedOut),
        Some(Ps2Action::WriteCommand(0xAD))
    );
    assert_eq!(driver.stop(), vec![33]);
    assert_eq!(driver.release(), vec![33]);
    assert!(driver.registered_vectors.is_empty());
    assert_eq!(STARTED_MESSAGE, "[kbd] PS/2 keyboard port disabled by default at start()\n");
}
