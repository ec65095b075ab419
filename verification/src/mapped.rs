//! The mapped region: one buffer that holds, in this order, the disk
//! request, the framebuffer and the keyboard bytes.
//!
//! Every part is reached through an accessor that computes its offset from
//! the number of pixels. An accessor that reads hands out a copy of the part;
//! the accessor that writes takes a value and stores it in the buffer.

use crate::disk::{Access, AccessView, DiskMap, Transfer, TransferView};
use crate::keyboard::KeyMap;
use crate::memory::{zeros, Memory};
use crate::word::{
    lemma_pixel_round_trip, lemma_word_round_trip, overlay, pixel_at, pixel_bytes, read_pixel,
    read_word, word_at, word_bytes, write_bytes, write_pixel, write_word,
};
use crate::KMAP_SIZE;
use vstd::prelude::*;

verus! {

/// Number of bytes that the disk request takes at the start of the mapped
/// region: two words and a byte, filled up to whole words.
pub const DISK_MAP_SIZE: usize = 24;

/// Number of bytes in a pixel.
pub const PIXEL_SIZE: usize = 4;

/// The pixels of the framebuffer, one packed colour each.
#[derive(Clone, Debug, PartialEq, Eq)]
pub struct VideoMap {
    pub pixels: Vec<u32>,
}

/// The mapped region.
#[derive(Clone, Debug, PartialEq, Eq)]
pub struct Mapped {
    pub bytes: Vec<u8>,
}

impl View for Mapped {
    type V = Seq<u8>;

    open spec fn view(&self) -> Seq<u8> {
        self.bytes@
    }
}

/// Offset of the keyboard bytes in a mapped region of `vpixels` pixels.
pub open spec fn key_offset(vpixels: nat) -> nat {
    DISK_MAP_SIZE as nat + PIXEL_SIZE as nat * vpixels
}

/// Number of bytes in a mapped region of `vpixels` pixels: its three parts,
/// filled up to whole words.
pub open spec fn mapped_size(vpixels: nat) -> nat {
    (key_offset(vpixels) + KMAP_SIZE as nat + 7) / 8 * 8
}

/// The disk request that a mapped region holds.
pub open spec fn disk_of(map: Seq<u8>) -> DiskMap
    recommends
        DISK_MAP_SIZE <= map.len(),
{
    DiskMap { sector: word_at(map, 0), addr: word_at(map, 8), write: map[16] }
}

/// The mapped region `map` with the disk request `disk` stored in it.
pub open spec fn with_disk(map: Seq<u8>, disk: DiskMap) -> Seq<u8>
    recommends
        DISK_MAP_SIZE <= map.len(),
{
    overlay(
        overlay(overlay(map, 0, word_bytes(disk.sector)), 8, word_bytes(disk.addr)),
        16,
        seq![disk.write],
    )
}

/// The pixels that a mapped region of `vpixels` pixels holds.
pub open spec fn video_of(map: Seq<u8>, vpixels: nat) -> Seq<u32>
    recommends
        key_offset(vpixels) <= map.len(),
{
    Seq::new(vpixels, |i: int| pixel_at(map, DISK_MAP_SIZE + PIXEL_SIZE * i))
}

/// The bytes that hold `pixels`, one after the other.
pub open spec fn video_bytes(pixels: Seq<u32>) -> Seq<u8> {
    Seq::new(
        PIXEL_SIZE as nat * pixels.len(),
        |i: int| pixel_bytes(pixels[i / PIXEL_SIZE as int])[i % PIXEL_SIZE as int],
    )
}

/// The keyboard bytes that a mapped region of `vpixels` pixels holds.
pub open spec fn keys_of(map: Seq<u8>, vpixels: nat) -> Seq<u8>
    recommends
        key_offset(vpixels) + KMAP_SIZE <= map.len(),
{
    map.subrange(key_offset(vpixels) as int, key_offset(vpixels) + KMAP_SIZE)
}

/// What a read access at offset `addr` comes to. Offset 0 is the disk
/// controller: reading it serves the disk request that the region holds and
/// gives a status byte in place of the byte stored there. Every other offset
/// gives the byte stored at it.
pub open spec fn spec_read(map: Seq<u8>, memory: Seq<u8>, addr: int) -> AccessView
    recommends
        0 <= addr < map.len(),
        addr == 0 ==> DISK_MAP_SIZE <= map.len(),
{
    if addr == 0 {
        disk_of(map).spec_begin(memory)
    } else {
        AccessView::Byte(map[addr])
    }
}

/// The mapped region after a write access at offset `addr`, and the transfer
/// that the access starts. The byte is stored at every offset. A write at
/// offset 0 also touches the disk controller, which serves the request as
/// the region holds it once the byte is stored; the request's status is not
/// kept. No other offset starts a transfer.
pub open spec fn spec_write(map: Seq<u8>, memory: Seq<u8>, addr: int, val: u8) -> (
    Seq<u8>,
    Option<TransferView>,
)
    recommends
        0 <= addr < map.len(),
        addr == 0 ==> DISK_MAP_SIZE <= map.len(),
{
    let after = map.update(addr, val);
    let transfer = if addr == 0 {
        match disk_of(after).spec_begin(memory) {
            AccessView::Disk(transfer) => Some(transfer),
            AccessView::Byte(_) => None,
        }
    } else {
        None
    };
    (after, transfer)
}

/// Computes the size of a mapped region of `vpixels` pixels, where it fits
/// the host's address range.
pub fn size_of_mapped(vpixels: usize) -> (size: Option<usize>)
    ensures
        mapped_size(vpixels as nat) <= usize::MAX <==> size is Some,
        size matches Some(n) ==> n == mapped_size(vpixels as nat),
{
    match vpixels.checked_mul(PIXEL_SIZE) {
        Some(video) => match video.checked_add(DISK_MAP_SIZE + KMAP_SIZE + 7) {
            Some(n) => Some(n / 8 * 8),
            None => None,
        },
        None => None,
    }
}

impl Mapped {
    /// A mapped region of `vpixels` pixels, all zero, unless its size does
    /// not fit the host's address range.
    pub fn new(vpixels: usize) -> (map: Option<Mapped>)
        ensures
            mapped_size(vpixels as nat) <= usize::MAX <==> map is Some,
            map matches Some(m) ==> m@ == zeros(mapped_size(vpixels as nat)),
    {
        match size_of_mapped(vpixels) {
            Some(n) => {
                let bytes: Vec<u8> = vec![0u8; n];
                assert(bytes@ =~= zeros(n as nat));
                Some(Mapped { bytes })
            },
            None => None,
        }
    }

    /// Number of bytes.
    pub fn len(&self) -> (n: usize)
        ensures
            n == self@.len(),
    {
        self.bytes.len()
    }

    /// Read access at offset `addr`.
    pub fn read(&self, memory: &Memory, addr: usize) -> (access: Access)
        requires
            addr < self@.len(),
            addr == 0 ==> DISK_MAP_SIZE <= self@.len(),
        ensures
            access@ == spec_read(self@, memory@, addr as int),
    {
        if addr == 0 {
            self.disk_map().begin(memory)
        } else {
            Access::Byte(self.bytes[addr])
        }
    }

    /// Write access at offset `addr`: stores `val` and gives the transfer
    /// that the access starts, if it starts one.
    pub fn write(&mut self, memory: &Memory, addr: usize, val: u8) -> (transfer: Option<Transfer>)
        requires
            addr < old(self)@.len(),
            addr == 0 ==> DISK_MAP_SIZE <= old(self)@.len(),
        ensures
            final(self)@ == spec_write(old(self)@, memory@, addr as int, val).0,
            (match transfer {
                Some(t) => spec_write(old(self)@, memory@, addr as int, val).1 == Some(t@),
                None => spec_write(old(self)@, memory@, addr as int, val).1 is None,
            }),
    {
        self.bytes[addr] = val;
        if addr == 0 {
            match self.disk_map().begin(memory) {
                Access::Disk(transfer) => Some(transfer),
                Access::Byte(_) => None,
            }
        } else {
            None
        }
    }

    /// All bytes, for reading.
    pub fn data(&self) -> (bytes: &[u8])
        ensures
            bytes@ == self@,
    {
        self.bytes.as_slice()
    }

    /// All bytes, for writing in place.
    pub fn data_mut(&mut self) -> (bytes: &mut [u8])
        ensures
            bytes@ == old(self)@,
            final(bytes)@ == final(self)@,
    {
        self.bytes.as_mut_slice()
    }

    /// The disk request.
    pub fn disk_map(&self) -> (disk: DiskMap)
        requires
            DISK_MAP_SIZE <= self@.len(),
        ensures
            disk == disk_of(self@),
    {
        DiskMap {
            sector: read_word(self.bytes.as_slice(), 0),
            addr: read_word(self.bytes.as_slice(), 8),
            write: self.bytes[16],
        }
    }

    /// Stores a disk request.
    pub fn disk_map_mut(&mut self, disk: &DiskMap)
        requires
            DISK_MAP_SIZE <= old(self)@.len(),
        ensures
            final(self)@ == with_disk(old(self)@, *disk),
    {
        write_word(&mut self.bytes, 0, disk.sector);
        write_word(&mut self.bytes, 8, disk.addr);
        self.bytes[16] = disk.write;
    }

    /// The framebuffer of `vpixels` pixels, as it is now.
    pub fn video_map(&self, vpixels: usize) -> (video: VideoMap)
        requires
            key_offset(vpixels as nat) <= self@.len(),
        ensures
            video.pixels@ == video_of(self@, vpixels as nat),
    {
        let mut pixels: Vec<u32> = Vec::with_capacity(vpixels);
        let mut i: usize = 0;
        while i < vpixels
            invariant
                i <= vpixels,
                key_offset(vpixels as nat) <= self.bytes.len(),
                pixels@.len() == i,
                forall|j: int|
                    0 <= j < i ==> pixels@[j] == pixel_at(self@, DISK_MAP_SIZE + PIXEL_SIZE * j),
            decreases vpixels - i,
        {
            pixels.push(read_pixel(self.bytes.as_slice(), DISK_MAP_SIZE + PIXEL_SIZE * i));
            i = i + 1;
        }
        VideoMap { pixels }
    }

    /// Stores a framebuffer of `vpixels` pixels.
    pub fn video_map_mut(&mut self, vpixels: usize, video: &VideoMap)
        requires
            video.pixels@.len() == vpixels,
            key_offset(vpixels as nat) <= old(self)@.len(),
        ensures
            final(self)@ == overlay(old(self)@, DISK_MAP_SIZE as int, video_bytes(video.pixels@)),
    {
        let mut i: usize = 0;
        while i < vpixels
            invariant
                i <= vpixels,
                video.pixels@.len() == vpixels,
                key_offset(vpixels as nat) <= self.bytes.len(),
                self@.len() == old(self)@.len(),
                forall|j: int|
                    0 <= j < self@.len() ==> self@[j] == if DISK_MAP_SIZE <= j < DISK_MAP_SIZE
                        + PIXEL_SIZE * i {
                        video_bytes(video.pixels@)[j - DISK_MAP_SIZE]
                    } else {
                        old(self)@[j]
                    },
            decreases vpixels - i,
        {
            write_pixel(&mut self.bytes, DISK_MAP_SIZE + PIXEL_SIZE * i, video.pixels[i]);
            i = i + 1;
        }
    }

    /// The keyboard bytes of a region of `vpixels` pixels.
    pub fn key_map(&self, vpixels: usize) -> (keys: KeyMap)
        requires
            key_offset(vpixels as nat) + KMAP_SIZE <= self@.len(),
        ensures
            keys.keys@ == keys_of(self@, vpixels as nat),
    {
        assert(self@.len() == self.bytes.len());
        let at: usize = DISK_MAP_SIZE + PIXEL_SIZE * vpixels;
        let mut keys = KeyMap::new();
        let mut i: usize = 0;
        while i < KMAP_SIZE
            invariant
                i <= KMAP_SIZE,
                at == key_offset(vpixels as nat),
                at + KMAP_SIZE <= self.bytes.len(),
                forall|j: int| 0 <= j < i ==> keys.keys@[j] == self@[at + j],
            decreases KMAP_SIZE - i,
        {
            keys.keys[i] = self.bytes[at + i];
            i = i + 1;
        }
        assert(keys.keys@ =~= keys_of(self@, vpixels as nat));
        keys
    }

    /// Stores the keyboard bytes of a region of `vpixels` pixels.
    pub fn key_map_mut(&mut self, vpixels: usize, keys: &KeyMap)
        requires
            key_offset(vpixels as nat) + KMAP_SIZE <= old(self)@.len(),
        ensures
            final(self)@ == overlay(old(self)@, key_offset(vpixels as nat) as int, keys.keys@),
    {
        assert(self@.len() == self.bytes.len());
        write_bytes(&mut self.bytes, DISK_MAP_SIZE + PIXEL_SIZE * vpixels, keys.keys.as_slice());
    }
}

/// Bytes written to the framebuffer stay: after a write at one framebuffer
/// offset and then at another, a read at each gives the byte last written
/// there, neither write starts a transfer, and no byte outside the two
/// offsets changes.
pub proof fn lemma_framebuffer_writes(
    map: Seq<u8>,
    memory: Seq<u8>,
    vpixels: nat,
    a: int,
    b: int,
    va: u8,
    vb: u8,
)
    requires
        key_offset(vpixels) <= map.len(),
        DISK_MAP_SIZE <= a < key_offset(vpixels),
        DISK_MAP_SIZE <= b < key_offset(vpixels),
    ensures
        ({
            let (first, first_transfer) = spec_write(map, memory, a, va);
            let (second, second_transfer) = spec_write(first, memory, b, vb);
            &&& first_transfer is None
            &&& second_transfer is None
            &&& second.len() == map.len()
            &&& spec_read(first, memory, a) == AccessView::Byte(va)
            &&& spec_read(second, memory, b) == AccessView::Byte(vb)
            &&& a != b ==> spec_read(second, memory, a) == AccessView::Byte(va)
            &&& forall|i: int| 0 <= i < map.len() && i != a && i != b ==> second[i] == map[i]
        }),
{
}

/// Keyboard bytes that were stored are the bytes that the program reads:
/// after the keys are stored in a region of `vpixels` pixels, a read at the
/// `i`-th keyboard offset gives the `i`-th key, and the region holds the same
/// keys and, before them, the same bytes as it did.
pub proof fn lemma_keys_read_back(
    map: Seq<u8>,
    memory: Seq<u8>,
    vpixels: nat,
    keys: Seq<u8>,
    i: int,
)
    requires
        keys.len() == KMAP_SIZE,
        key_offset(vpixels) + KMAP_SIZE <= map.len(),
        0 <= i < KMAP_SIZE,
    ensures
        ({
            let after = overlay(map, key_offset(vpixels) as int, keys);
            &&& spec_read(after, memory, key_offset(vpixels) + i) == AccessView::Byte(keys[i])
            &&& keys_of(after, vpixels) == keys
            &&& after.subrange(0, key_offset(vpixels) as int) == map.subrange(
                0,
                key_offset(vpixels) as int,
            )
        }),
{
    let after = overlay(map, key_offset(vpixels) as int, keys);
    assert(keys_of(after, vpixels) =~= keys);
    assert(after.subrange(0, key_offset(vpixels) as int) =~= map.subrange(
        0,
        key_offset(vpixels) as int,
    ));
}

/// A disk request that was stored is the request that the region holds.
pub proof fn lemma_disk_read_back(map: Seq<u8>, disk: DiskMap)
    requires
        DISK_MAP_SIZE <= map.len(),
    ensures
        disk_of(with_disk(map, disk)) == disk,
        with_disk(map, disk).len() == map.len(),
{
    lemma_word_round_trip(disk.sector);
    lemma_word_round_trip(disk.addr);
}

/// Pixels that were stored are the pixels that the region holds.
pub proof fn lemma_video_read_back(map: Seq<u8>, pixels: Seq<u32>)
    requires
        key_offset(pixels.len()) <= map.len(),
    ensures
        video_of(overlay(map, DISK_MAP_SIZE as int, video_bytes(pixels)), pixels.len()) == pixels,
{
    let after = overlay(map, DISK_MAP_SIZE as int, video_bytes(pixels));
    assert forall|i: int| 0 <= i < pixels.len() implies #[trigger] video_of(after, pixels.len())[i]
        == pixels[i] by {
        lemma_pixel_round_trip(pixels[i]);
        let at = DISK_MAP_SIZE + PIXEL_SIZE * i;
        assert(after[at] == pixel_bytes(pixels[i])[0]);
        assert(after[at + 1] == pixel_bytes(pixels[i])[1]);
        assert(after[at + 2] == pixel_bytes(pixels[i])[2]);
        assert(after[at + 3] == pixel_bytes(pixels[i])[3]);
    }
    assert(video_of(after, pixels.len()) =~= pixels);
}

/// The size of a mapped region is a whole number of words and has room for
/// its three parts, with less than a word to spare.
pub proof fn lemma_mapped_size(vpixels: nat)
    ensures
        mapped_size(vpixels) % 8 == 0,
        key_offset(vpixels) + KMAP_SIZE <= mapped_size(vpixels) < key_offset(vpixels) + KMAP_SIZE
            + 8,
        DISK_MAP_SIZE <= key_offset(vpixels),
{
}

} // verus!
