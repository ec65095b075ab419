//! The disk controller: it serves one request at a time, decides what the
//! storage medium has to do, and turns what the medium answered into a
//! status byte for the program.
//!
//! The controller never touches the medium itself. It names the transfer, the
//! host performs it, and the controller completes the request with the
//! outcome.

use crate::memory::Memory;
use crate::word::overlay;
use crate::{uxsize, SECTOR_SIZE};
use vstd::prelude::*;

verus! {

/// Status of a request that was served.
pub const STATUS_OK: u8 = 0;

/// Status of a transfer that would run past the end of main memory, and of a
/// failure whose code does not fit a byte.
pub const STATUS_OVERFLOW: u8 = 255;

/// A disk request, as the program leaves it at the start of the mapped
/// region: two words and a byte.
#[derive(Clone, Copy, Debug, PartialEq, Eq, Structural)]
pub struct DiskMap {
    /// Index of the sector on the medium.
    pub sector: uxsize,
    /// Offset in main memory where the transfer starts.
    pub addr: uxsize,
    /// Zero to read from the disk into memory, anything else to write memory
    /// to the disk.
    pub write: u8,
}

/// What the controller asks of the storage medium.
#[derive(Clone, Debug, PartialEq, Eq)]
pub enum Transfer {
    /// Read all that the medium holds for the sector.
    Load { sector: uxsize },
    /// Persist `data` as the contents of the sector.
    Store { sector: uxsize, data: Vec<u8> },
}

/// A `Transfer` with its data as a sequence.
pub ghost enum TransferView {
    Load { sector: uxsize },
    Store { sector: uxsize, data: Seq<u8> },
}

impl View for Transfer {
    type V = TransferView;

    open spec fn view(&self) -> TransferView {
        match *self {
            Transfer::Load { sector } => TransferView::Load { sector },
            Transfer::Store { sector, data } => TransferView::Store { sector, data: data@ },
        }
    }
}

/// What a read access to the mapped region comes to.
#[derive(Clone, Debug, PartialEq, Eq)]
pub enum Access {
    /// The access is complete and gave this byte.
    Byte(u8),
    /// The access gives the status of this transfer, once the medium has
    /// answered.
    Disk(Transfer),
}

/// An `Access` with its data as a sequence.
pub ghost enum AccessView {
    Byte(u8),
    Disk(TransferView),
}

impl View for Access {
    type V = AccessView;

    open spec fn view(&self) -> AccessView {
        match *self {
            Access::Byte(val) => AccessView::Byte(val),
            Access::Disk(transfer) => AccessView::Disk(transfer@),
        }
    }
}

/// What the storage medium answered to a transfer.
#[derive(Clone, Debug, PartialEq, Eq)]
pub enum Outcome {
    /// The sector was read; these are its contents.
    Loaded(Vec<u8>),
    /// The sector was persisted.
    Stored,
    /// The medium failed, with the platform's error code if it gave one.
    Failed(Option<i32>),
}

/// An `Outcome` with its data as a sequence.
pub ghost enum OutcomeView {
    Loaded(Seq<u8>),
    Stored,
    Failed(Option<i32>),
}

impl View for Outcome {
    type V = OutcomeView;

    open spec fn view(&self) -> OutcomeView {
        match *self {
            Outcome::Loaded(data) => OutcomeView::Loaded(data@),
            Outcome::Stored => OutcomeView::Stored,
            Outcome::Failed(code) => OutcomeView::Failed(code),
        }
    }
}

/// The status byte for a failure of the medium: the platform's error code
/// where it fits a byte, `STATUS_OVERFLOW` where it does not or where there
/// is none.
pub open spec fn spec_status_of(code: Option<i32>) -> u8 {
    match code {
        Some(c) => if 0 <= c <= 255 {
            c as u8
        } else {
            STATUS_OVERFLOW
        },
        None => STATUS_OVERFLOW,
    }
}

/// Computes the status byte for a failure of the medium.
pub fn status_of(code: Option<i32>) -> (status: u8)
    ensures
        status == spec_status_of(code),
{
    match code {
        Some(c) => if 0 <= c && c <= 255 {
            c as u8
        } else {
            STATUS_OVERFLOW
        },
        None => STATUS_OVERFLOW,
    }
}

/// Name of the directory that holds the sectors, one file each.
pub const DISK_DIR: &'static str = "disk";

/// The decimal digits of `n` in ASCII, most significant first, without
/// leading zeros.
pub open spec fn decimal(n: nat) -> Seq<u8>
    decreases n,
{
    if n < 10 {
        seq![(0x30 + n) as u8]
    } else {
        decimal(n / 10).push((0x30 + n % 10) as u8)
    }
}

/// The number that a sequence of ASCII digits stands for.
pub open spec fn decimal_value(digits: Seq<u8>) -> nat
    decreases digits.len(),
{
    if digits.len() == 0 {
        0
    } else {
        (decimal_value(digits.drop_last()) * 10 + (digits.last() - 0x30)) as nat
    }
}

/// The digits of a number stand for that number, so two sectors never share
/// a file name.
pub proof fn lemma_decimal_names_one_number(n: nat)
    ensures
        decimal(n).len() > 0,
        forall|i: int| 0 <= i < decimal(n).len() ==> 0x30 <= #[trigger] decimal(n)[i] <= 0x39,
        decimal_value(decimal(n)) == n,
    decreases n,
{
    if n < 10 {
        let d = decimal(n);
        assert(d.drop_last() =~= Seq::<u8>::empty());
        assert(decimal_value(d.drop_last()) == 0);
    } else {
        lemma_decimal_names_one_number(n / 10);
        let d = decimal(n);
        assert(d.drop_last() =~= decimal(n / 10));
    }
}

/// Two different sectors have different file names.
pub proof fn lemma_sector_names_differ(a: uxsize, b: uxsize)
    requires
        a != b,
    ensures
        decimal(a as nat) != decimal(b as nat),
{
    lemma_decimal_names_one_number(a as nat);
    lemma_decimal_names_one_number(b as nat);
}

/// Name of the file that holds `sector`: its index in decimal.
pub fn sector_name(sector: uxsize) -> (name: Vec<u8>)
    ensures
        name@ == decimal(sector as nat),
{
    let mut name: Vec<u8> = Vec::new();
    let mut rest: u64 = sector;
    while rest >= 10
        invariant
            decimal(sector as nat) == decimal(rest as nat) + name@,
        decreases rest,
    {
        let digit: u8 = 0x30 + (rest % 10) as u8;
        assert(decimal(rest as nat) == decimal((rest / 10) as nat).push(digit));
        assert(decimal((rest / 10) as nat).push(digit) + name@ == decimal((rest / 10) as nat)
            + name@.insert(0, digit));
        name.insert(0, digit);
        rest = rest / 10;
    }
    let digit: u8 = 0x30 + rest as u8;
    assert(decimal(rest as nat) + name@ == name@.insert(0, digit));
    name.insert(0, digit);
    name
}

impl DiskMap {
    /// What serving this request comes to, before the medium is involved.
    ///
    /// A read request asks the medium for the sector. A write request whose
    /// sector-sized source range runs past the end of `memory` is refused
    /// with `STATUS_OVERFLOW` and asks nothing of the medium; any other write
    /// request hands the medium that range.
    pub open spec fn spec_begin(self, memory: Seq<u8>) -> AccessView {
        if self.write == 0 {
            AccessView::Disk(TransferView::Load { sector: self.sector })
        } else if self.addr + SECTOR_SIZE > memory.len() {
            AccessView::Byte(STATUS_OVERFLOW)
        } else {
            AccessView::Disk(
                TransferView::Store {
                    sector: self.sector,
                    data: memory.subrange(self.addr as int, self.addr + SECTOR_SIZE),
                },
            )
        }
    }

    /// Main memory after the medium's answer, and the status byte.
    ///
    /// Contents that were read go to memory from `addr` on and give
    /// `STATUS_OK`, unless they would run past the end of memory: then
    /// memory stays as it is and the status is `STATUS_OVERFLOW`. A sector
    /// that was persisted leaves memory as it is and gives `STATUS_OK`. A
    /// failure leaves memory as it is and gives the status of its code.
    pub open spec fn spec_complete(self, memory: Seq<u8>, outcome: OutcomeView) -> (Seq<u8>, u8) {
        match outcome {
            OutcomeView::Loaded(data) => if self.addr + data.len() > memory.len() {
                (memory, STATUS_OVERFLOW)
            } else {
                (overlay(memory, self.addr as int, data), STATUS_OK)
            },
            OutcomeView::Stored => (memory, STATUS_OK),
            OutcomeView::Failed(code) => (memory, spec_status_of(code)),
        }
    }

    /// Starts serving this request: either the status is known at once, or
    /// the medium has a transfer to perform.
    pub fn begin(&self, memory: &Memory) -> (access: Access)
        ensures
            access@ == self.spec_begin(memory@),
    {
        let len: u64 = memory.len() as u64;
        if self.write == 0 {
            Access::Disk(Transfer::Load { sector: self.sector })
        } else if self.addr > len || len - self.addr < SECTOR_SIZE as u64 {
            Access::Byte(STATUS_OVERFLOW)
        } else {
            let data: Vec<u8> = memory.sector(self.addr as usize);
            Access::Disk(Transfer::Store { sector: self.sector, data })
        }
    }

    /// Completes this request with the medium's answer, and gives the status
    /// byte that the program reads.
    pub fn complete(&self, memory: &mut Memory, outcome: &Outcome) -> (status: u8)
        ensures
            (final(memory)@, status) == self.spec_complete(old(memory)@, outcome@),
    {
        match outcome {
            Outcome::Loaded(data) => {
                let len: u64 = memory.len() as u64;
                let n: u64 = data.len() as u64;
                if self.addr > len || len - self.addr < n {
                    STATUS_OVERFLOW
                } else {
                    memory.copy_in(self.addr as usize, data.as_slice());
                    STATUS_OK
                }
            },
            Outcome::Stored => STATUS_OK,
            Outcome::Failed(code) => status_of(*code),
        }
    }
}

/// A sector that was written from memory and is read back to the same place
/// restores the bytes that were written, whatever memory has held in between:
/// the data of the write request's transfer, given as the outcome of a read
/// request with the same sector and address, is accepted with `STATUS_OK`
/// and lands where it came from, and no other byte of memory changes.
pub proof fn lemma_disk_round_trip(
    writing: DiskMap,
    reading: DiskMap,
    before: Seq<u8>,
    between: Seq<u8>,
)
    requires
        writing.write != 0,
        reading.write == 0,
        writing.sector == reading.sector,
        writing.addr == reading.addr,
        writing.addr + SECTOR_SIZE <= before.len(),
        between.len() == before.len(),
    ensures
        ({
            let data = before.subrange(writing.addr as int, writing.addr + SECTOR_SIZE);
            let (after, status) = reading.spec_complete(between, OutcomeView::Loaded(data));
            &&& writing.spec_begin(before) == AccessView::Disk(
                TransferView::Store { sector: writing.sector, data },
            )
            &&& reading.spec_begin(between) == AccessView::Disk(
                TransferView::Load { sector: writing.sector },
            )
            &&& status == STATUS_OK
            &&& after.len() == before.len()
            &&& after.subrange(reading.addr as int, reading.addr + SECTOR_SIZE) == before.subrange(
                writing.addr as int,
                writing.addr + SECTOR_SIZE,
            )
            &&& forall|i: int|
                0 <= i < after.len() && !(reading.addr <= i < reading.addr + SECTOR_SIZE)
                    ==> after[i] == between[i]
        }),
{
}

/// A transfer that would run past the end of main memory gives
/// `STATUS_OVERFLOW` and changes nothing: contents that were read are not
/// copied, and a write request asks nothing of the medium.
pub proof fn lemma_disk_overflow(request: DiskMap, memory: Seq<u8>, data: Seq<u8>)
    ensures
        request.addr + data.len() > memory.len() ==> request.spec_complete(
            memory,
            OutcomeView::Loaded(data),
        ) == (memory, STATUS_OVERFLOW),
        request.write != 0 && request.addr + SECTOR_SIZE > memory.len() ==> request.spec_begin(
            memory,
        ) == AccessView::Byte(STATUS_OVERFLOW),
{
}

} // verus!
