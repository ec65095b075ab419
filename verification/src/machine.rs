//! The execution loop, as a state machine.
//!
//! One cycle refreshes the keyboard, fetches the three words of the
//! instruction at the instruction pointer, moves one byte from the first
//! address to the second and jumps to the third. The machine performs no
//! input or output. The host hands it an [`Event`], the machine takes one step
//! and answers with the [`Action`] that the host has to perform before the
//! next event.
//!
//! The move is always performed, also where source and destination are the
//! same address, so that an access to the disk controller is never skipped.

use crate::address::{decode, spec_decode, Target};
use crate::disk::{Access, AccessView, Outcome, OutcomeView, Transfer, TransferView};
use crate::keyboard::refreshed;
use crate::mapped::{
    disk_of, key_offset, keys_of, lemma_keys_read_back, lemma_mapped_size, mapped_size,
    size_of_mapped, spec_read, spec_write, video_of, Mapped, VideoMap, DISK_MAP_SIZE,
};
use crate::memory::{zeros, Memory};
use crate::word::{overlay, word_at};
use crate::{uxsize, MAP_START};
use vstd::prelude::*;
use vstd::utf8::{decode_utf8, encode_utf8, encode_utf8_decode_utf8, valid_utf8};

verus! {

/// The word that marks a debug trap in place of a source address.
pub const TRAP: uxsize = 0xFFFF_FFFF_FFFF_FFFF;

/// Number of bytes in an instruction: three words.
pub const INSTRUCTION_SIZE: usize = 24;

/// Why a machine has halted.
#[derive(Clone, Copy, Debug, PartialEq, Eq, Structural)]
pub enum Halt {
    /// The display sink was closed. This is the clean end of a run.
    WindowClosed,
    /// The program ran into a debug trap.
    DebugTrap,
    /// An access went outside main memory or the mapped region, or the host
    /// sent an event that does not answer the machine's last action.
    Fault,
}

/// Where a machine stands between two steps.
#[derive(Clone, Copy, Debug, PartialEq, Eq, Structural)]
pub enum State {
    /// The next cycle can start.
    Running,
    /// The source of the current instruction was the disk controller: the
    /// machine waits for the outcome of the transfer, whose status is the
    /// byte to store at `dst` before the jump to `next`.
    Reading { dst: uxsize, next: uxsize },
    /// The destination of the current instruction was the disk controller:
    /// the machine waits for the outcome of the transfer before the jump to
    /// `next`.
    Writing { next: uxsize },
    /// The machine has halted and takes no further step.
    Halted(Halt),
}

/// What the host reports to the machine.
#[derive(Clone, Debug, PartialEq, Eq)]
pub enum Event {
    /// The display sink is open and the next cycle is due. With it comes the
    /// sink's snapshot of pressed keys, where it gave one.
    Cycle(Option<Vec<u8>>),
    /// The display sink is closed.
    Closed,
    /// The storage medium has answered the transfer that the machine asked
    /// for.
    Disk(Outcome),
}

/// An `Event` with its data as sequences.
pub ghost enum EventView {
    Cycle(Option<Seq<u8>>),
    Closed,
    Disk(OutcomeView),
}

impl View for Event {
    type V = EventView;

    open spec fn view(&self) -> EventView {
        match *self {
            Event::Cycle(keys) => EventView::Cycle(
                match keys {
                    Some(keys) => Some(keys@),
                    None => None,
                },
            ),
            Event::Closed => EventView::Closed,
            Event::Disk(outcome) => EventView::Disk(outcome@),
        }
    }
}

/// What the machine asks of the host.
#[derive(Clone, Debug, PartialEq, Eq)]
pub enum Action {
    /// The instruction is complete. Present the framebuffer, then report
    /// `Event::Cycle` if the display sink is open and `Event::Closed` if not.
    Present,
    /// Perform the transfer and report its outcome with `Event::Disk`.
    Disk(Transfer),
    /// The program ran into a debug trap and the machine has halted. Emit
    /// the bytes it names and, where they are valid UTF-8, their text.
    Dump { data: Vec<u8>, text: Option<String> },
    /// The machine has halted, for this reason.
    Halt(Halt),
}

/// An `Action` with its data as sequences.
pub ghost enum ActionView {
    Present,
    Disk(TransferView),
    Dump { data: Seq<u8>, text: Option<Seq<char>> },
    Halt(Halt),
}

impl View for Action {
    type V = ActionView;

    open spec fn view(&self) -> ActionView {
        match *self {
            Action::Present => ActionView::Present,
            Action::Disk(transfer) => ActionView::Disk(transfer@),
            Action::Dump { data, text } => ActionView::Dump {
                data: data@,
                text: match text {
                    Some(text) => Some(text@),
                    None => None,
                },
            },
            Action::Halt(halt) => ActionView::Halt(halt),
        }
    }
}

/// Why a machine could not be set up.
#[derive(Clone, Copy, Debug, PartialEq, Eq, Structural)]
pub enum SetupError {
    /// The mapped region for this width and height does not fit the host's
    /// address range.
    TooLarge,
    /// Main memory is too short to hold the entry point in its first word.
    NoEntryPoint,
}

/// A machine: main memory, the mapped region and the instruction pointer.
#[derive(Clone, Debug)]
pub struct Machine {
    memory: Memory,
    map: Mapped,
    vpixels: usize,
    ip: uxsize,
    state: State,
}

/// What a machine holds.
pub ghost struct MachineView {
    /// Main memory.
    pub memory: Seq<u8>,
    /// The mapped region.
    pub map: Seq<u8>,
    /// Number of pixels in the framebuffer.
    pub vpixels: nat,
    /// Address of the next instruction.
    pub ip: uxsize,
    /// Where the machine stands.
    pub state: State,
}

impl MachineView {
    /// The mapped region has the size that its number of pixels asks for.
    pub open spec fn wf(self) -> bool {
        self.map.len() == mapped_size(self.vpixels)
    }

    /// This machine, halted for a fault.
    pub open spec fn fault(self) -> (MachineView, ActionView) {
        (MachineView { state: State::Halted(Halt::Fault), ..self }, ActionView::Halt(Halt::Fault))
    }

    /// This machine after the jump to `next` that ends an instruction.
    pub open spec fn jump(self, next: uxsize) -> (MachineView, ActionView) {
        (MachineView { ip: next, state: State::Running, ..self }, ActionView::Present)
    }

    /// The second half of an instruction: `val` is stored at the address
    /// `dst`, then the machine jumps to `next`. A destination outside main
    /// memory or the mapped region is a fault. A store that touches the disk
    /// controller makes the machine wait for the transfer first.
    pub open spec fn store(self, dst: uxsize, next: uxsize, val: u8) -> (MachineView, ActionView) {
        match spec_decode(dst) {
            Target::MainMemory(offset) => if offset < self.memory.len() {
                MachineView { memory: self.memory.update(offset as int, val), ..self }.jump(next)
            } else {
                self.fault()
            },
            Target::Mapped(offset) => if offset < self.map.len() {
                let (map, transfer) = spec_write(self.map, self.memory, offset as int, val);
                match transfer {
                    Some(transfer) => (
                        MachineView { map, state: State::Writing { next }, ..self },
                        ActionView::Disk(transfer),
                    ),
                    None => MachineView { map, ..self }.jump(next),
                }
            } else {
                self.fault()
            },
        }
    }

    /// The first half of an instruction: the byte at the address `src` is
    /// read and handed to `store`. A source outside main memory or the
    /// mapped region is a fault. A read of the disk controller makes the
    /// machine wait for the transfer, whose status is the byte.
    pub open spec fn load(self, src: uxsize, dst: uxsize, next: uxsize) -> (
        MachineView,
        ActionView,
    ) {
        match spec_decode(src) {
            Target::MainMemory(offset) => if offset < self.memory.len() {
                self.store(dst, next, self.memory[offset as int])
            } else {
                self.fault()
            },
            Target::Mapped(offset) => if offset < self.map.len() {
                match spec_read(self.map, self.memory, offset as int) {
                    AccessView::Byte(val) => self.store(dst, next, val),
                    AccessView::Disk(transfer) => (
                        MachineView { state: State::Reading { dst, next }, ..self },
                        ActionView::Disk(transfer),
                    ),
                }
            } else {
                self.fault()
            },
        }
    }

    /// A debug trap: the `len` bytes of main memory from `offset` on are
    /// handed out and the machine halts. A range outside main memory is a
    /// fault.
    pub open spec fn trap(self, offset: uxsize, len: uxsize) -> (MachineView, ActionView) {
        if offset + len <= self.memory.len() {
            let data = self.memory.subrange(offset as int, offset + len);
            (
                MachineView { state: State::Halted(Halt::DebugTrap), ..self },
                ActionView::Dump { data, text: spec_text(data) },
            )
        } else {
            self.fault()
        }
    }

    /// This machine with the keyboard bytes refreshed from the display
    /// sink's snapshot. Without a snapshot the keyboard bytes stay.
    pub open spec fn refresh(self, keys: Option<Seq<u8>>) -> MachineView {
        match keys {
            Some(keys) => MachineView {
                map: overlay(self.map, key_offset(self.vpixels) as int, refreshed(keys)),
                ..self
            },
            None => self,
        }
    }

    /// One cycle of a running machine: the keyboard is refreshed, the three
    /// words at the instruction pointer are fetched, and the instruction is
    /// carried out, as a debug trap where its first word is `TRAP` and as a
    /// move of one byte where it is not. An instruction that does not lie
    /// inside main memory is a fault.
    pub open spec fn cycle(self, keys: Option<Seq<u8>>) -> (MachineView, ActionView) {
        let fresh = self.refresh(keys);
        if fresh.ip + INSTRUCTION_SIZE <= fresh.memory.len() {
            let a = word_at(fresh.memory, fresh.ip as int);
            let b = word_at(fresh.memory, fresh.ip + 8);
            let c = word_at(fresh.memory, fresh.ip + 16);
            if a == TRAP {
                fresh.trap(b, c)
            } else {
                fresh.load(a, b, c)
            }
        } else {
            fresh.fault()
        }
    }

    /// One step: the machine after `event`, and the action it asks for.
    ///
    /// A halted machine stays as it is. A running machine starts a cycle on
    /// `Cycle` and halts on `Closed`. A machine that waits for a transfer
    /// completes the disk request with the outcome and goes on with the
    /// instruction. Any other event is a fault.
    pub open spec fn step(self, event: EventView) -> (MachineView, ActionView) {
        match self.state {
            State::Halted(halt) => (self, ActionView::Halt(halt)),
            State::Running => match event {
                EventView::Cycle(keys) => self.cycle(keys),
                EventView::Closed => (
                    MachineView { state: State::Halted(Halt::WindowClosed), ..self },
                    ActionView::Halt(Halt::WindowClosed),
                ),
                EventView::Disk(_) => self.fault(),
            },
            State::Reading { dst, next } => match event {
                EventView::Disk(outcome) => {
                    let (memory, status) = disk_of(self.map).spec_complete(self.memory, outcome);
                    MachineView { memory, ..self }.store(dst, next, status)
                },
                _ => self.fault(),
            },
            State::Writing { next } => match event {
                EventView::Disk(outcome) => {
                    let (memory, _) = disk_of(self.map).spec_complete(self.memory, outcome);
                    MachineView { memory, ..self }.jump(next)
                },
                _ => self.fault(),
            },
        }
    }
}

/// The machine that starts a program: main memory as given, a mapped region
/// of `vpixels` pixels that is all zero, the instruction pointer taken from
/// the first word of memory, and running.
pub open spec fn spec_new(memory: Seq<u8>, vpixels: nat) -> MachineView
    recommends
        8 <= memory.len(),
{
    MachineView {
        memory,
        map: zeros(mapped_size(vpixels)),
        vpixels,
        ip: word_at(memory, 0),
        state: State::Running,
    }
}

/// The text that `data` encodes, where it is valid UTF-8.
pub open spec fn spec_text(data: Seq<u8>) -> Option<Seq<char>> {
    if valid_utf8(data) {
        Some(decode_utf8(data))
    } else {
        None
    }
}

/// Calls `std::str::from_utf8`. The contract claims that it gives a text
/// exactly for the byte sequences that are valid UTF-8, and that the bytes of
/// the text are then the bytes it was given.
#[verifier::external_body]
fn from_utf8(data: &[u8]) -> (text: Option<String>)
    ensures
        text is Some <==> valid_utf8(data@),
        text matches Some(t) ==> encode_utf8(t@) == data@,
{
    match std::str::from_utf8(data) {
        Ok(text) => Some(text.to_owned()),
        Err(_) => None,
    }
}

/// The text that `data` encodes, where it is valid UTF-8.
pub fn text_of(data: &[u8]) -> (text: Option<String>)
    ensures
        (match text {
            Some(t) => spec_text(data@) == Some(t@),
            None => spec_text(data@) is None,
        }),
{
    let text = from_utf8(data);
    proof {
        if text is Some {
            encode_utf8_decode_utf8(text->Some_0@);
        }
    }
    text
}

impl View for Machine {
    type V = MachineView;

    closed spec fn view(&self) -> MachineView {
        MachineView {
            memory: self.memory@,
            map: self.map@,
            vpixels: self.vpixels as nat,
            ip: self.ip,
            state: self.state,
        }
    }
}

impl Machine {
    /// A machine for a program in `memory` and a display of `width` by
    /// `height` pixels. The mapped region starts out all zero, the
    /// instruction pointer is the first word of memory, and the machine is
    /// running.
    pub fn new(memory: Memory, width: usize, height: usize) -> (machine: Result<Machine, SetupError>)
        ensures
            (match machine {
                Ok(m) => {
                    &&& mapped_size((width * height) as nat) <= usize::MAX
                    &&& 8 <= memory@.len()
                    &&& m@ == spec_new(memory@, (width * height) as nat)
                    &&& m@.wf()
                },
                Err(SetupError::TooLarge) => mapped_size((width * height) as nat) > usize::MAX,
                Err(SetupError::NoEntryPoint) => {
                    &&& mapped_size((width * height) as nat) <= usize::MAX
                    &&& memory@.len() < 8
                },
            }),
    {
        let vpixels: usize = match width.checked_mul(height) {
            Some(vpixels) => vpixels,
            None => {
                return Err(SetupError::TooLarge);
            },
        };
        let map: Mapped = match Mapped::new(vpixels) {
            Some(map) => map,
            None => {
                return Err(SetupError::TooLarge);
            },
        };
        if memory.len() < 8 {
            return Err(SetupError::NoEntryPoint);
        }
        let ip: uxsize = memory.get_code(0);
        Ok(Machine { memory, map, vpixels, ip, state: State::Running })
    }

    /// Takes one step: the machine handles `event` and gives the action that
    /// the host has to perform next.
    pub fn step(&mut self, event: Event) -> (action: Action)
        requires
            old(self)@.wf(),
        ensures
            (final(self)@, action@) == old(self)@.step(event@),
            final(self)@.wf(),
    {
        match self.state {
            State::Halted(halt) => Action::Halt(halt),
            State::Running => match event {
                Event::Cycle(keys) => self.cycle(&keys),
                Event::Closed => {
                    self.state = State::Halted(Halt::WindowClosed);
                    Action::Halt(Halt::WindowClosed)
                },
                Event::Disk(_) => self.fault(),
            },
            State::Reading { dst, next } => match event {
                Event::Disk(outcome) => {
                    proof {
                        lemma_mapped_size(self.vpixels as nat);
                    }
                    let status: u8 = self.map.disk_map().complete(&mut self.memory, &outcome);
                    self.store(dst, next, status)
                },
                _ => self.fault(),
            },
            State::Writing { next } => match event {
                Event::Disk(outcome) => {
                    proof {
                        lemma_mapped_size(self.vpixels as nat);
                    }
                    let _status: u8 = self.map.disk_map().complete(&mut self.memory, &outcome);
                    self.jump(next)
                },
                _ => self.fault(),
            },
        }
    }

    /// Main memory.
    pub fn memory(&self) -> (memory: &Memory)
        ensures
            memory@ == self@.memory,
    {
        &self.memory
    }

    /// The mapped region.
    pub fn mapped(&self) -> (map: &Mapped)
        ensures
            map@ == self@.map,
    {
        &self.map
    }

    /// Number of pixels in the framebuffer.
    pub fn vpixels(&self) -> (vpixels: usize)
        ensures
            vpixels == self@.vpixels,
    {
        self.vpixels
    }

    /// Address of the next instruction.
    pub fn ip(&self) -> (ip: uxsize)
        ensures
            ip == self@.ip,
    {
        self.ip
    }

    /// Where the machine stands.
    pub fn state(&self) -> (state: State)
        ensures
            state == self@.state,
    {
        self.state
    }

    /// Whether the mapped region has the size that the number of pixels asks
    /// for. Every machine that `new` made has, and `step` keeps it so.
    pub fn is_well_formed(&self) -> (well_formed: bool)
        ensures
            well_formed == self@.wf(),
    {
        assert(self.map@.len() == self.map.bytes.len());
        match size_of_mapped(self.vpixels) {
            Some(size) => self.map.len() == size,
            None => false,
        }
    }

    /// The framebuffer as it is now, for the display sink.
    pub fn video_map(&self) -> (video: VideoMap)
        requires
            self@.wf(),
        ensures
            video.pixels@ == video_of(self@.map, self@.vpixels),
    {
        proof {
            lemma_mapped_size(self.vpixels as nat);
        }
        self.map.video_map(self.vpixels)
    }

    /// Halts for a fault.
    fn fault(&mut self) -> (action: Action)
        requires
            old(self)@.wf(),
        ensures
            (final(self)@, action@) == old(self)@.fault(),
            final(self)@.wf(),
    {
        self.state = State::Halted(Halt::Fault);
        Action::Halt(Halt::Fault)
    }

    /// Ends an instruction with the jump to `next`.
    fn jump(&mut self, next: uxsize) -> (action: Action)
        requires
            old(self)@.wf(),
        ensures
            (final(self)@, action@) == old(self)@.jump(next),
            final(self)@.wf(),
    {
        self.ip = next;
        self.state = State::Running;
        Action::Present
    }

    /// Stores `val` at the address `dst` and ends the instruction, or waits
    /// for the transfer that the store has started.
    fn store(&mut self, dst: uxsize, next: uxsize, val: u8) -> (action: Action)
        requires
            old(self)@.wf(),
        ensures
            (final(self)@, action@) == old(self)@.store(dst, next, val),
            final(self)@.wf(),
    {
        proof {
            lemma_mapped_size(self.vpixels as nat);
        }
        match decode(dst) {
            Target::MainMemory(offset) => {
                if offset < self.memory.len() as u64 {
                    self.memory.write_byte(offset as usize, val);
                    self.jump(next)
                } else {
                    self.fault()
                }
            },
            Target::Mapped(offset) => {
                if offset < self.map.len() as u64 {
                    match self.map.write(&self.memory, offset as usize, val) {
                        Some(transfer) => {
                            self.state = State::Writing { next };
                            Action::Disk(transfer)
                        },
                        None => self.jump(next),
                    }
                } else {
                    self.fault()
                }
            },
        }
    }

    /// Reads the byte at the address `src` and hands it to `store`, or waits
    /// for the transfer that the read has started.
    fn load(&mut self, src: uxsize, dst: uxsize, next: uxsize) -> (action: Action)
        requires
            old(self)@.wf(),
        ensures
            (final(self)@, action@) == old(self)@.load(src, dst, next),
            final(self)@.wf(),
    {
        proof {
            lemma_mapped_size(self.vpixels as nat);
        }
        match decode(src) {
            Target::MainMemory(offset) => {
                if offset < self.memory.len() as u64 {
                    let val: u8 = self.memory.read_byte(offset as usize);
                    self.store(dst, next, val)
                } else {
                    self.fault()
                }
            },
            Target::Mapped(offset) => {
                if offset < self.map.len() as u64 {
                    match self.map.read(&self.memory, offset as usize) {
                        Access::Byte(val) => self.store(dst, next, val),
                        Access::Disk(transfer) => {
                            self.state = State::Reading { dst, next };
                            Action::Disk(transfer)
                        },
                    }
                } else {
                    self.fault()
                }
            },
        }
    }

    /// Hands out the bytes that a debug trap names and halts.
    fn trap(&mut self, offset: uxsize, len: uxsize) -> (action: Action)
        requires
            old(self)@.wf(),
        ensures
            (final(self)@, action@) == old(self)@.trap(offset, len),
            final(self)@.wf(),
    {
        let size: u64 = self.memory.len() as u64;
        if offset <= size && len <= size - offset {
            let data: Vec<u8> = self.memory.range(offset as usize, len as usize);
            let text: Option<String> = text_of(data.as_slice());
            self.state = State::Halted(Halt::DebugTrap);
            Action::Dump { data, text }
        } else {
            self.fault()
        }
    }

    /// Refreshes the keyboard bytes from the display sink's snapshot.
    fn refresh(&mut self, keys: &Option<Vec<u8>>)
        requires
            old(self)@.wf(),
        ensures
            final(self)@ == old(self)@.refresh(
                match *keys {
                    Some(keys) => Some(keys@),
                    None => None,
                },
            ),
            final(self)@.wf(),
    {
        proof {
            lemma_mapped_size(self.vpixels as nat);
        }
        if keys.is_some() {
            let mut map = self.map.key_map(self.vpixels);
            map.update(keys);
            self.map.key_map_mut(self.vpixels, &map);
        }
    }

    /// Runs one cycle.
    fn cycle(&mut self, keys: &Option<Vec<u8>>) -> (action: Action)
        requires
            old(self)@.wf(),
        ensures
            (final(self)@, action@) == old(self)@.cycle(
                match *keys {
                    Some(keys) => Some(keys@),
                    None => None,
                },
            ),
            final(self)@.wf(),
    {
        self.refresh(keys);
        let size: u64 = self.memory.len() as u64;
        if self.ip <= size && INSTRUCTION_SIZE as u64 <= size - self.ip {
            let at: usize = self.ip as usize;
            let a: uxsize = self.memory.get_code(at);
            let b: uxsize = self.memory.get_code(at + 8);
            let c: uxsize = self.memory.get_code(at + 16);
            if a == TRAP {
                self.trap(b, c)
            } else {
                self.load(a, b, c)
            }
        } else {
            self.fault()
        }
    }
}

impl MachineView {
    /// `other` has main memory, mapped region and number of pixels of the
    /// same sizes as this machine.
    pub open spec fn same_shape(self, other: MachineView) -> bool {
        &&& other.memory.len() == self.memory.len()
        &&& other.map.len() == self.map.len()
        &&& other.vpixels == self.vpixels
    }
}

proof fn lemma_store_keeps_shape(m: MachineView, dst: uxsize, next: uxsize, val: u8)
    requires
        m.wf(),
    ensures
        m.same_shape(m.store(dst, next, val).0),
{
}

proof fn lemma_load_keeps_shape(m: MachineView, src: uxsize, dst: uxsize, next: uxsize)
    requires
        m.wf(),
    ensures
        m.same_shape(m.load(src, dst, next).0),
{
    match spec_decode(src) {
        Target::MainMemory(offset) => {
            lemma_store_keeps_shape(m, dst, next, m.memory[offset as int]);
        },
        Target::Mapped(offset) => {
            if offset < m.map.len() {
                match spec_read(m.map, m.memory, offset as int) {
                    AccessView::Byte(val) => {
                        lemma_store_keeps_shape(m, dst, next, val);
                    },
                    AccessView::Disk(_) => {},
                }
            }
        },
    }
}

proof fn lemma_cycle_keeps_shape(m: MachineView, keys: Option<Seq<u8>>)
    requires
        m.wf(),
    ensures
        m.same_shape(m.cycle(keys).0),
{
    let fresh = m.refresh(keys);
    assert(m.same_shape(fresh));
    if fresh.ip + INSTRUCTION_SIZE <= fresh.memory.len() {
        let a = word_at(fresh.memory, fresh.ip as int);
        let b = word_at(fresh.memory, fresh.ip + 8);
        let c = word_at(fresh.memory, fresh.ip + 16);
        if a != TRAP {
            lemma_load_keeps_shape(fresh, a, b, c);
        }
    }
}

/// A step changes neither the size of main memory, nor the size of the
/// mapped region, nor the number of pixels.
pub proof fn lemma_step_keeps_shape(m: MachineView, event: EventView)
    requires
        m.wf(),
    ensures
        m.step(event).0.wf(),
        m.same_shape(m.step(event).0),
{
    match m.state {
        State::Halted(_) => {},
        State::Running => {
            if let EventView::Cycle(keys) = event {
                lemma_cycle_keeps_shape(m, keys);
            }
        },
        State::Reading { dst, next } => {
            if let EventView::Disk(outcome) = event {
                let (memory, status) = disk_of(m.map).spec_complete(m.memory, outcome);
                lemma_store_keeps_shape(MachineView { memory, ..m }, dst, next, status);
            }
        },
        State::Writing { next } => {},
    }
}

/// A halted machine stays halted: whatever the event, it does not change and
/// answers with the reason for which it halted.
pub proof fn lemma_halted_is_final(m: MachineView, event: EventView)
    requires
        m.state is Halted,
    ensures
        m.step(event) == (m, ActionView::Halt(m.state->Halted_0)),
{
}

/// A cycle refreshes the keyboard before anything else: after a cycle with a
/// snapshot of pressed keys, whatever the instruction did short of writing to
/// the keyboard bytes itself, the refreshed machine holds the snapshot's
/// first `KMAP_SIZE` key codes in its order and the pad value behind them,
/// and the bytes in front of the keyboard are untouched by the refresh.
pub proof fn lemma_refresh_sets_keys(m: MachineView, keys: Seq<u8>)
    requires
        m.wf(),
    ensures
        keys_of(m.refresh(Some(keys)).map, m.vpixels) == refreshed(keys),
        m.refresh(Some(keys)).map.len() == m.map.len(),
        m.refresh(Some(keys)).map.subrange(0, key_offset(m.vpixels) as int) == m.map.subrange(
            0,
            key_offset(m.vpixels) as int,
        ),
        m.refresh(Some(keys)).memory == m.memory,
        m.refresh(None) == m,
{
    lemma_mapped_size(m.vpixels);
    lemma_keys_read_back(m.map, m.memory, m.vpixels, refreshed(keys), 0);
}

/// A byte that an instruction stores in main memory is the byte that a later
/// instruction reads from the same address: the store changes that byte of
/// memory and nothing else, and a read of the address hands the stored byte
/// on to its own destination.
pub proof fn lemma_memory_byte_is_read_back(
    m: MachineView,
    a: uxsize,
    v: u8,
    next: uxsize,
    dst: uxsize,
    then: uxsize,
)
    requires
        m.wf(),
        a < MAP_START,
        a < m.memory.len(),
    ensures
        ({
            let (after, action) = m.store(a, next, v);
            &&& action == ActionView::Present
            &&& after == MachineView { memory: m.memory.update(a as int, v), ..m.jump(next).0 }
            &&& after.memory[a as int] == v
            &&& after.load(a, dst, then) == after.store(dst, then, v)
        }),
{
}

/// Bytes that instructions store in the framebuffer stay there and can be
/// read: after a store at one framebuffer address and then at another, a
/// read of each address hands on the byte last stored there. Neither store
/// starts a transfer or changes main memory or any byte of the mapped region
/// but its own.
pub proof fn lemma_framebuffer_byte_is_read_back(
    m: MachineView,
    a: uxsize,
    b: uxsize,
    va: u8,
    vb: u8,
    next: uxsize,
    dst: uxsize,
    then: uxsize,
)
    requires
        m.wf(),
        a >= MAP_START,
        b >= MAP_START,
        DISK_MAP_SIZE <= a - MAP_START < key_offset(m.vpixels),
        DISK_MAP_SIZE <= b - MAP_START < key_offset(m.vpixels),
    ensures
        ({
            let (first, first_action) = m.store(a, next, va);
            let (second, second_action) = first.store(b, next, vb);
            &&& first_action == ActionView::Present
            &&& second_action == ActionView::Present
            &&& second.memory == m.memory
            &&& second.map == m.map.update(a - MAP_START, va).update(b - MAP_START, vb)
            &&& first.load(a, dst, then) == first.store(dst, then, va)
            &&& second.load(b, dst, then) == second.store(dst, then, vb)
            &&& a != b ==> second.load(a, dst, then) == second.store(dst, then, va)
        }),
{
    lemma_mapped_size(m.vpixels);
}

/// An instruction whose two addresses lie in main memory copies the byte at
/// the first to the second and jumps: after the cycle the destination holds
/// what the source held, no other byte of memory has changed, the
/// instruction pointer is the instruction's third word, and the machine is
/// running and asks for the frame to be presented.
pub proof fn lemma_move_in_memory(m: MachineView, keys: Option<Seq<u8>>)
    requires
        m.wf(),
        m.state == State::Running,
        m.ip + INSTRUCTION_SIZE <= m.memory.len(),
        word_at(m.memory, m.ip as int) < m.memory.len(),
        word_at(m.memory, m.ip as int) < MAP_START,
        word_at(m.memory, m.ip + 8) < m.memory.len(),
        word_at(m.memory, m.ip + 8) < MAP_START,
    ensures
        m.step(EventView::Cycle(keys)) == (
            MachineView {
                memory: m.memory.update(
                    word_at(m.memory, m.ip + 8) as int,
                    m.memory[word_at(m.memory, m.ip as int) as int],
                ),
                map: m.refresh(keys).map,
                vpixels: m.vpixels,
                ip: word_at(m.memory, m.ip + 16),
                state: State::Running,
            },
            ActionView::Present,
        ),
{
}

/// An instruction whose first word is `TRAP` halts the machine and hands out
/// the bytes of main memory that its other two words name as offset and
/// length, where they lie inside main memory; where they do not, the machine
/// halts for a fault. Main memory is left as it was.
pub proof fn lemma_trap_dumps(m: MachineView, keys: Option<Seq<u8>>)
    requires
        m.wf(),
        m.state == State::Running,
        m.ip + INSTRUCTION_SIZE <= m.memory.len(),
        word_at(m.memory, m.ip as int) == TRAP,
    ensures
        ({
            let offset = word_at(m.memory, m.ip + 8);
            let len = word_at(m.memory, m.ip + 16);
            let (after, action) = m.step(EventView::Cycle(keys));
            &&& after.memory == m.memory
            &&& after.ip == m.ip
            &&& offset + len <= m.memory.len() ==> after.state == State::Halted(Halt::DebugTrap)
                && action == (ActionView::Dump {
                data: m.memory.subrange(offset as int, offset + len),
                text: spec_text(m.memory.subrange(offset as int, offset + len)),
            })
            &&& offset + len > m.memory.len() ==> after.state == State::Halted(Halt::Fault)
                && action == ActionView::Halt(Halt::Fault)
        }),
{
}

} // verus!
