//! The machine as its host sees it: what an input event does to it, what
//! one display frame consists of, and which pixels are to be shown.
use vstd::prelude::*;
use crate::cpu::Cpu;
use crate::display::{blank_grid, Display, Grid};
use crate::fault::Fault;
use crate::keyboard::Keyboard;
use crate::machine::{run, tick_timer, Machine};
use crate::memory::{initial_memory, with_program, Memory};
use crate::rom::Rom;

verus! {

/// Number of instructions that run in one display frame.
pub const CYCLES_PER_FRAME: u32 = 10;

/// The keys of the host's keyboard that matter to the machine.
#[derive(Clone, Copy, Debug, PartialEq, Eq, Structural)]
pub enum HostKey {
    Num1,
    Num2,
    Num3,
    Num4,
    Q,
    W,
    E,
    R,
    A,
    S,
    D,
    F,
    Z,
    X,
    C,
    V,
    /// The key that ends the session.
    Escape,
    /// Any other key, or none.
    Other,
}

/// What the host reports between two frames.
#[derive(Clone, Copy, Debug, PartialEq, Eq, Structural)]
pub enum HostEvent {
    /// The host asks the session to end.
    Quit,
    /// A key went down.
    KeyDown(HostKey),
    /// A key came up.
    KeyUp(HostKey),
    /// Anything else.
    Other,
}

/// How a frame ended.
#[derive(Clone, Copy, Debug, PartialEq, Eq, Structural)]
pub enum FrameEnd {
    /// The frame ran in full: the display is to be shown.
    Present,
    /// The host asked to stop: nothing ran, nothing is to be shown.
    Quit,
}

/// The key of the pad that a key of the host stands for:
///
/// ```text
/// 1 2 3 4        1 2 3 C
/// Q W E R   for  4 5 6 D
/// A S D F        7 8 9 E
/// Z X C V        A 0 B F
/// ```
pub open spec fn pad_key(key: HostKey) -> Option<u8> {
    match key {
        HostKey::X => Some(0x0u8),
        HostKey::Num1 => Some(0x1u8),
        HostKey::Num2 => Some(0x2u8),
        HostKey::Num3 => Some(0x3u8),
        HostKey::Q => Some(0x4u8),
        HostKey::W => Some(0x5u8),
        HostKey::E => Some(0x6u8),
        HostKey::A => Some(0x7u8),
        HostKey::S => Some(0x8u8),
        HostKey::D => Some(0x9u8),
        HostKey::Z => Some(0xAu8),
        HostKey::C => Some(0xBu8),
        HostKey::Num4 => Some(0xCu8),
        HostKey::R => Some(0xDu8),
        HostKey::F => Some(0xEu8),
        HostKey::V => Some(0xFu8),
        HostKey::Escape => None,
        HostKey::Other => None,
    }
}

/// Whether the event ends the session: a request to quit, or Escape going
/// down.
pub open spec fn stops(event: HostEvent) -> bool {
    event == HostEvent::Quit || event == HostEvent::KeyDown(HostKey::Escape)
}

/// The state after an event that does not end the session: a mapped key
/// that goes down is pressed, one that comes up is released, and nothing
/// else matters.
pub open spec fn after_event(s: Machine, event: HostEvent) -> Machine {
    match event {
        HostEvent::KeyDown(key) => match pad_key(key) {
            Some(k) => Machine { keys: s.keys.update(k as int, true), ..s },
            None => s,
        },
        HostEvent::KeyUp(key) => match pad_key(key) {
            Some(k) => Machine { keys: s.keys.update(k as int, false), ..s },
            None => s,
        },
        _ => s,
    }
}

/// The state after the events, taken in order up to the first that ends the
/// session, and whether one did.
pub open spec fn after_events(s: Machine, events: Seq<HostEvent>) -> (Machine, bool)
    decreases events.len(),
{
    if events.len() == 0 {
        (s, false)
    } else {
        let (reached, stopped) = after_events(s, events.drop_last());
        if stopped || stops(events.last()) {
            (reached, true)
        } else {
            (after_event(reached, events.last()), false)
        }
    }
}

/// One frame: the delay timer goes down by one; the events are taken in; if
/// none of them ends the session, one instruction runs for each byte of
/// `randoms`, up to the first fault.
pub open spec fn frame(s: Machine, events: Seq<HostEvent>, randoms: Seq<u8>) -> (
    Machine,
    Result<FrameEnd, Fault>,
) {
    let (listened, stopped) = after_events(tick_timer(s), events);
    if stopped {
        (listened, Ok(FrameEnd::Quit))
    } else {
        let (reached, fault) = run(listened, randoms);
        match fault {
            Some(f) => (reached, Err(f)),
            None => (reached, Ok(FrameEnd::Present)),
        }
    }
}

/// The cell that comes at place `k` when the grid is walked row by row from
/// the top, each row from the left.
pub open spec fn cell_at(k: int) -> (usize, usize) {
    ((k % 64) as usize, (k / 64) as usize)
}

/// The cells of `g` that are set, as (x, y), row by row from the top and
/// each row from the left.
pub open spec fn lit_cells(g: Grid) -> Seq<(usize, usize)> {
    Seq::new(2048, |k: int| cell_at(k)).filter(|c: (usize, usize)| g[c.0 as int][c.1 as int] > 0)
}

/// The key of the pad that a key of the host stands for, if it stands for
/// one.
pub fn map_key(key: HostKey) -> (mapped: Option<u8>)
    ensures
        mapped == pad_key(key),
        mapped matches Some(k) ==> k < 16,
{
    match key {
        HostKey::X => Some(0x0),
        HostKey::Num1 => Some(0x1),
        HostKey::Num2 => Some(0x2),
        HostKey::Num3 => Some(0x3),
        HostKey::Q => Some(0x4),
        HostKey::W => Some(0x5),
        HostKey::E => Some(0x6),
        HostKey::A => Some(0x7),
        HostKey::S => Some(0x8),
        HostKey::D => Some(0x9),
        HostKey::Z => Some(0xA),
        HostKey::C => Some(0xB),
        HostKey::Num4 => Some(0xC),
        HostKey::R => Some(0xD),
        HostKey::F => Some(0xE),
        HostKey::V => Some(0xF),
        HostKey::Escape => None,
        HostKey::Other => None,
    }
}

/// The machine with the loop of its host around it.
pub struct Chip8 {
    cpu: Cpu,
}

impl View for Chip8 {
    type V = Machine;

    closed spec fn view(&self) -> Machine {
        self.cpu@
    }
}

impl Chip8 {
    /// A machine with fresh memory, a blank display and no key pressed,
    /// about to run from address 0x200.
    pub fn new() -> (chip: Self)
        ensures
            chip@ == (Machine {
                pc: 0x200,
                v: Seq::new(16, |k: int| 0u8),
                i: 0,
                delay: 0,
                sound: 0,
                memory: initial_memory(),
                screen: blank_grid(),
                stack: Seq::empty(),
                keys: Seq::new(16, |j: int| false),
                halted: false,
            }),
    {
        let memory = Memory::new();
        let display = Display::new();
        let keyboard = Keyboard::new();
        Chip8 { cpu: Cpu::new(memory, display, keyboard) }
    }

    /// Copies the program into memory from address 0x200 on.
    pub fn load_rom(&mut self, rom: Rom)
        requires
            rom@.len() <= 0xE00,
        ensures
            final(self)@ == (Machine { memory: with_program(old(self)@.memory, rom@), ..old(self)@ }),
    {
        self.cpu.load_program(rom);
    }

    /// The interpreter inside.
    pub fn cpu(&self) -> (cpu: &Cpu)
        ensures
            cpu@ == self@,
    {
        &self.cpu
    }

    /// Takes in one event of the host. Returns whether the event ends the
    /// session; if it does, nothing has changed.
    pub fn handle_event(&mut self, event: HostEvent) -> (stop: bool)
        ensures
            stop == stops(event),
            final(self)@ == (if stop {
                old(self)@
            } else {
                after_event(old(self)@, event)
            }),
    {
        match event {
            HostEvent::Quit => true,
            HostEvent::KeyDown(HostKey::Escape) => true,
            HostEvent::KeyDown(key) => {
                if let Some(k) = map_key(key) {
                    self.cpu.press_key(k);
                }
                false
            },
            HostEvent::KeyUp(key) => {
                if let Some(k) = map_key(key) {
                    self.cpu.release_key(k);
                }
                false
            },
            HostEvent::Other => false,
        }
    }

    /// Takes in the events in order, up to the first that ends the session.
    /// Returns whether one did.
    pub fn handle_events(&mut self, events: &Vec<HostEvent>) -> (stop: bool)
        ensures
            after_events(old(self)@, events@) == (final(self)@, stop),
    {
        let mut i: usize = 0;
        while i < events.len()
            invariant
                i <= events.len(),
                after_events(old(self)@, events@.take(i as int)) == (self@, false),
            decreases events.len() - i,
        {
            let event: HostEvent = events[i];
            proof {
                assert(events@.take(i + 1).drop_last() =~= events@.take(i as int));
            }
            if self.handle_event(event) {
                proof {
                    lemma_stopped_stays(old(self)@, events@.take(i + 1), events@.skip(i + 1));
                    assert(events@.take(i + 1) + events@.skip(i + 1) =~= events@);
                }
                return true;
            }
            i += 1;
        }
        proof {
            assert(events@.take(i as int) =~= events@);
        }
        false
    }

    /// Runs one frame: lowers the delay timer, takes in the events, and,
    /// unless one of them ends the session, runs the frame's ten
    /// instructions. The outcome is that of the model's frame for some ten
    /// random bytes.
    pub fn run_frame(&mut self, events: &Vec<HostEvent>) -> (res: Result<FrameEnd, Fault>)
        ensures
            exists|randoms: Seq<u8>|
                randoms.len() == 10 && #[trigger] frame(old(self)@, events@, randoms) == (
                    final(self)@,
                    res,
                ),
    {
        self.cpu.decrement_timer();
        if self.handle_events(events) {
            proof {
                let zeros = Seq::new(10, |k: int| 0u8);
                assert(frame(old(self)@, events@, zeros) == (self@, Ok::<FrameEnd, Fault>(FrameEnd::Quit)));
            }
            return Ok(FrameEnd::Quit);
        }
        let ghost listened = self@;
        let ran = self.cpu.execute_cycles(CYCLES_PER_FRAME);
        let ghost randoms = choose|randoms: Seq<u8>|
            randoms.len() == 10 && #[trigger] run(listened, randoms) == (
                self@,
                match ran {
                    Ok(_) => None::<Fault>,
                    Err(f) => Some(f),
                },
            );
        match ran {
            Ok(()) => {
                proof {
                    assert(frame(old(self)@, events@, randoms) == (
                        self@,
                        Ok::<FrameEnd, Fault>(FrameEnd::Present),
                    ));
                }
                Ok(FrameEnd::Present)
            },
            Err(fault) => {
                proof {
                    assert(frame(old(self)@, events@, randoms) == (
                        self@,
                        Err::<FrameEnd, Fault>(fault),
                    ));
                }
                Err(fault)
            },
        }
    }

    /// The pixels that are set, as (x, y), row by row from the top and each
    /// row from the left: what the host has to paint.
    pub fn lit_pixels(&self) -> (lit: Vec<(usize, usize)>)
        ensures
            lit@ == lit_cells(self@.screen),
    {
        let ghost cells = Seq::new(2048, |k: int| cell_at(k));
        let ghost is_lit = |c: (usize, usize)| self@.screen[c.0 as int][c.1 as int] > 0;
        let mut lit: Vec<(usize, usize)> = Vec::new();
        proof {
            reveal(Seq::filter);
            assert(cells.take(0).filter(is_lit) =~= Seq::empty());
        }
        let mut y: usize = 0;
        while y < 32
            invariant
                y <= 32,
                cells == Seq::new(2048, |k: int| cell_at(k)),
                is_lit == |c: (usize, usize)| self@.screen[c.0 as int][c.1 as int] > 0,
                lit@ == cells.take(y * 64).filter(is_lit),
            decreases 32 - y,
        {
            let mut x: usize = 0;
            while x < 64
                invariant
                    x <= 64,
                    y < 32,
                    cells == Seq::new(2048, |k: int| cell_at(k)),
                    is_lit == |c: (usize, usize)| self@.screen[c.0 as int][c.1 as int] > 0,
                    lit@ == cells.take(y * 64 + x).filter(is_lit),
                decreases 64 - x,
            {
                proof {
                    reveal(Seq::filter);
                    let k = y * 64 + x;
                    assert(cells.take(k + 1).drop_last() =~= cells.take(k));
                    assert(cells.take(k + 1).last() == cell_at(k));
                    assert(cell_at(k) == (x, y));
                }
                if self.cpu.get_display_pixel(x, y) > 0 {
                    lit.push((x, y));
                }
                x += 1;
            }
            y += 1;
        }
        proof {
            assert(cells.take(2048) =~= cells);
        }
        lit
    }
}

/// Once an event has ended the session, later events change nothing.
pub proof fn lemma_stopped_stays(s: Machine, events: Seq<HostEvent>, more: Seq<HostEvent>)
    requires
        after_events(s, events).1,
    ensures
        after_events(s, events + more) == after_events(s, events),
    decreases more.len(),
{
    if more.len() == 0 {
        assert(events + more =~= events);
    } else {
        lemma_stopped_stays(s, events, more.drop_last());
        assert((events + more).drop_last() =~= events + more.drop_last());
    }
}

} // verus!
