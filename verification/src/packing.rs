//! Packing several pixels into one 32-bit storage word.
//!
//! A word is cut into fields of equal width, 4 or 8 bits, the field of the
//! lowest slot in the lowest bits. The helpers here read and replace one
//! field; the laws say that replacing a field changes that field and no other.

use vstd::prelude::*;

verus! {

/// How many bits of a word one pixel takes.
#[derive(Debug, Copy, Clone, PartialEq, Eq, Structural)]
pub enum Depth {
    Four,
    Eight,
}

impl Depth {
    /// The width of one field.
    pub open spec fn bits(self) -> u32 {
        match self {
            Depth::Four => 4,
            Depth::Eight => 8,
        }
    }

    /// The number of fields in one word.
    pub open spec fn per_word(self) -> u32 {
        match self {
            Depth::Four => 8,
            Depth::Eight => 4,
        }
    }

    /// The bits of the lowest field.
    pub open spec fn mask(self) -> u32 {
        match self {
            Depth::Four => 0xF,
            Depth::Eight => 0xFF,
        }
    }

    /// The number of words that hold the 64 slots of a tile.
    pub open spec fn words(self) -> int {
        match self {
            Depth::Four => 8,
            Depth::Eight => 16,
        }
    }

    /// The position of the lowest bit of the field of a slot in its word.
    pub open spec fn offset(self, slot: u32) -> u32 {
        ((slot % self.per_word()) * self.bits()) as u32
    }

    pub fn bits_per_pixel(self) -> (n: u32)
        ensures
            n == self.bits(),
    {
        match self {
            Depth::Four => 4,
            Depth::Eight => 8,
        }
    }

    pub fn pixels_per_word(self) -> (n: u32)
        ensures
            n == self.per_word(),
    {
        match self {
            Depth::Four => 8,
            Depth::Eight => 4,
        }
    }

    pub fn field_mask(self) -> (m: u32)
        ensures
            m == self.mask(),
    {
        match self {
            Depth::Four => 0xF,
            Depth::Eight => 0xFF,
        }
    }

    /// The shift that brings the field of a slot to the lowest bits.
    pub fn shift(self, slot: u32) -> (s: u32)
        ensures
            s == self.offset(slot),
            s + self.bits() <= 32,
            s % self.bits() == 0,
    {
        proof {
            lemma_offset(self, slot);
        }
        (slot % self.pixels_per_word()) * self.bits_per_pixel()
    }
}

/// The value of the field of a slot in a word.
pub open spec fn field(word: u32, depth: Depth, slot: u32) -> u32 {
    (word >> depth.offset(slot)) & depth.mask()
}

/// The word with the field of a slot replaced by the low bits of a value:
/// the field is cleared, then the value is set in its place.
pub open spec fn with_field(word: u32, depth: Depth, slot: u32, value: u32) -> u32 {
    (word & !(depth.mask() << depth.offset(slot))) | ((value & depth.mask()) << depth.offset(slot))
}

/// The word whose every field holds the low bits of a value.
pub open spec fn replicated(depth: Depth, value: u32) -> u32 {
    match depth {
        Depth::Four => ((value & 0xF) * 0x1111_1111) as u32,
        Depth::Eight => ((value & 0xFF) * 0x0101_0101) as u32,
    }
}

/// The pixel values that a run of words holds, slot by slot.
pub open spec fn slots(words: Seq<u32>, depth: Depth) -> Seq<u8> {
    Seq::new(
        (words.len() * depth.per_word()) as nat,
        |i: int| field(words[i / (depth.per_word() as int)], depth, i as u32) as u8,
    )
}

/// Reads the field of a slot.
pub fn extract(word: u32, depth: Depth, slot: u32) -> (v: u32)
    ensures
        v == field(word, depth, slot),
        v <= depth.mask(),
{
    let s: u32 = depth.shift(slot);
    let m: u32 = depth.field_mask();
    assert((word >> s) & m <= m) by (bit_vector);
    (word >> s) & m
}

/// Replaces the field of a slot by the low bits of a value.
pub fn insert(word: u32, depth: Depth, slot: u32, value: u32) -> (w: u32)
    ensures
        w == with_field(word, depth, slot, value),
{
    let s: u32 = depth.shift(slot);
    let m: u32 = depth.field_mask();
    (word & !(m << s)) | ((value & m) << s)
}

/// Fills every field of a word with the low bits of a value.
pub fn replicate(depth: Depth, value: u32) -> (w: u32)
    ensures
        w == replicated(depth, value),
{
    match depth {
        Depth::Four => {
            assert((value & 0xF) * 0x1111_1111 <= 0xFFFF_FFFF) by (bit_vector);
            (value & 0xF) * 0x1111_1111
        },
        Depth::Eight => {
            assert((value & 0xFF) * 0x0101_0101 <= 0xFFFF_FFFF) by (bit_vector);
            (value & 0xFF) * 0x0101_0101
        },
    }
}

/// The field of every slot lies inside the word, at a multiple of the width.
pub proof fn lemma_offset(depth: Depth, slot: u32)
    ensures
        depth.offset(slot) + depth.bits() <= 32,
        depth.offset(slot) % depth.bits() == 0,
        depth.offset(slot) == (slot % depth.per_word()) * depth.bits(),
{
    let k: u32 = slot % depth.per_word();
    assert(k == 0 || k == 1 || k == 2 || k == 3 || k == 4 || k == 5 || k == 6 || k == 7);
}

/// A field that was replaced holds the low bits of the value it was given.
pub proof fn lemma_insert_then_extract(word: u32, depth: Depth, slot: u32, value: u32)
    ensures
        field(with_field(word, depth, slot, value), depth, slot) == value & depth.mask(),
{
    let s: u32 = depth.offset(slot);
    lemma_offset(depth, slot);
    match depth {
        Depth::Four => {
            assert(s <= 28 ==> (((word & !(0xFu32 << s)) | ((value & 0xF) << s)) >> s) & 0xF
                == value & 0xF) by (bit_vector);
        },
        Depth::Eight => {
            assert(s <= 24 ==> (((word & !(0xFFu32 << s)) | ((value & 0xFF) << s)) >> s) & 0xFF
                == value & 0xFF) by (bit_vector);
        },
    }
}

/// Replacing the field of one slot leaves the field of every other slot of
/// the word as it was.
pub proof fn lemma_insert_keeps_others(word: u32, depth: Depth, slot: u32, other: u32, value: u32)
    requires
        slot % depth.per_word() != other % depth.per_word(),
    ensures
        field(with_field(word, depth, slot, value), depth, other) == field(word, depth, other),
{
    let s: u32 = depth.offset(slot);
    let t: u32 = depth.offset(other);
    lemma_offset(depth, slot);
    lemma_offset(depth, other);
    match depth {
        Depth::Four => {
            assert(s != t);
            assert(s <= 28 && t <= 28 && s % 4 == 0 && t % 4 == 0 && s != t ==> (((word & !(0xFu32
                << s)) | ((value & 0xF) << s)) >> t) & 0xF == (word >> t) & 0xF) by (bit_vector);
        },
        Depth::Eight => {
            assert(s != t);
            assert(s <= 24 && t <= 24 && s % 8 == 0 && t % 8 == 0 && s != t ==> (((word & !(0xFFu32
                << s)) | ((value & 0xFF) << s)) >> t) & 0xFF == (word >> t) & 0xFF)
                by (bit_vector);
        },
    }
}

/// Every field of a replicated word holds the low bits of the value.
pub proof fn lemma_replicated_fields(depth: Depth, value: u32, slot: u32)
    ensures
        field(replicated(depth, value), depth, slot) == value & depth.mask(),
{
    let s: u32 = depth.offset(slot);
    lemma_offset(depth, slot);
    match depth {
        Depth::Four => {
            let v: u32 = value & 0xF;
            assert(v <= 0xF) by (bit_vector)
                requires
                    v == value & 0xF,
            ;
            assert(v * 0x1111_1111 <= 0xFFFF_FFFF) by (nonlinear_arith)
                requires
                    v <= 0xF,
            ;
            let w: u32 = (v * 0x1111_1111) as u32;
            assert(s <= 28 && s % 4 == 0 && v <= 0xF && w == v * 0x1111_1111u32 ==> (w >> s) & 0xF
                == v) by (bit_vector);
        },
        Depth::Eight => {
            let v: u32 = value & 0xFF;
            assert(v <= 0xFF) by (bit_vector)
                requires
                    v == value & 0xFF,
            ;
            assert(v * 0x0101_0101 <= 0xFFFF_FFFF) by (nonlinear_arith)
                requires
                    v <= 0xFF,
            ;
            let w: u32 = (v * 0x0101_0101) as u32;
            assert(s <= 24 && s % 8 == 0 && v <= 0xFF && w == v * 0x0101_0101u32 ==> (w >> s)
                & 0xFF == v) by (bit_vector);
        },
    }
}

/// Replacing the field of slot `index` in the word that holds it gives slot
/// `index` the low bits of the value and leaves the other slots of the run
/// as they were.
pub proof fn lemma_insert_updates_slots(words: Seq<u32>, depth: Depth, index: u32, value: u32)
    requires
        index < words.len() * depth.per_word(),
        words.len() <= 16,
    ensures
        slots(
            words.update(
                index as int / (depth.per_word() as int),
                with_field(words[index as int / (depth.per_word() as int)], depth, index, value),
            ),
            depth,
        ) == slots(words, depth).update(index as int, (value & depth.mask()) as u8),
{
    let per: int = depth.per_word() as int;
    let at: int = index as int / per;
    let old_word: u32 = words[at];
    let new_word: u32 = with_field(old_word, depth, index, value);
    let after: Seq<u32> = words.update(at, new_word);
    let want: Seq<u8> = slots(words, depth).update(index as int, (value & depth.mask()) as u8);
    assert(slots(after, depth).len() == want.len());
    assert forall|i: int| 0 <= i < want.len() implies slots(after, depth)[i] == want[i] by {
        if i == index as int {
            lemma_insert_then_extract(old_word, depth, index, value);
        } else if i / per == at {
            assert((i as u32) % depth.per_word() != index % depth.per_word());
            lemma_insert_keeps_others(old_word, depth, index, i as u32, value);
        }
    }
    assert(slots(after, depth) =~= want);
}

/// Two words whose fields agree slot by slot are the same word.
pub proof fn lemma_fields_determine_word(a: u32, b: u32, depth: Depth)
    requires
        forall|slot: u32| slot < depth.per_word() ==> field(a, depth, slot) == field(b, depth, slot),
    ensures
        a == b,
{
    match depth {
        Depth::Four => {
            assert(field(a, depth, 0) == field(b, depth, 0));
            assert(field(a, depth, 1) == field(b, depth, 1));
            assert(field(a, depth, 2) == field(b, depth, 2));
            assert(field(a, depth, 3) == field(b, depth, 3));
            assert(field(a, depth, 4) == field(b, depth, 4));
            assert(field(a, depth, 5) == field(b, depth, 5));
            assert(field(a, depth, 6) == field(b, depth, 6));
            assert(field(a, depth, 7) == field(b, depth, 7));
            assert((a >> 0) & 0xF == (b >> 0) & 0xF && (a >> 4) & 0xF == (b >> 4) & 0xF && (a >> 8)
                & 0xF == (b >> 8) & 0xF && (a >> 12) & 0xF == (b >> 12) & 0xF && (a >> 16) & 0xF
                == (b >> 16) & 0xF && (a >> 20) & 0xF == (b >> 20) & 0xF && (a >> 24) & 0xF == (b
                >> 24) & 0xF && (a >> 28) & 0xF == (b >> 28) & 0xF ==> a == b) by (bit_vector);
        },
        Depth::Eight => {
            assert(field(a, depth, 0) == field(b, depth, 0));
            assert(field(a, depth, 1) == field(b, depth, 1));
            assert(field(a, depth, 2) == field(b, depth, 2));
            assert(field(a, depth, 3) == field(b, depth, 3));
            assert((a >> 0) & 0xFF == (b >> 0) & 0xFF && (a >> 8) & 0xFF == (b >> 8) & 0xFF && (a
                >> 16) & 0xFF == (b >> 16) & 0xFF && (a >> 24) & 0xFF == (b >> 24) & 0xFF ==> a
                == b) by (bit_vector);
        },
    }
}

/// The slots of a tile determine its words: two runs of tile words that hold
/// the same 64 pixel values are the same run.
pub proof fn lemma_slots_determine_words(a: Seq<u32>, b: Seq<u32>, depth: Depth)
    requires
        a.len() == depth.words(),
        b.len() == depth.words(),
        slots(a, depth) == slots(b, depth),
    ensures
        a == b,
{
    let per: int = depth.per_word() as int;
    assert forall|i: int| 0 <= i < a.len() implies a[i] == b[i] by {
        assert forall|slot: u32| slot < depth.per_word() implies field(a[i], depth, slot) == field(
            b[i],
            depth,
            slot,
        ) by {
            let j: int = i * per + slot;
            assert(0 <= j < 64 && j / per == i && (j as u32) % depth.per_word() == slot);
            assert(slots(a, depth)[j] == field(a[j / per], depth, j as u32) as u8);
            assert(slots(b, depth)[j] == field(b[j / per], depth, j as u32) as u8);
            let x: u32 = field(a[i], depth, j as u32);
            let y: u32 = field(b[i], depth, j as u32);
            let m: u32 = depth.mask();
            let wa: u32 = a[i] >> depth.offset(slot);
            let wb: u32 = b[i] >> depth.offset(slot);
            assert(wa & m <= m && wb & m <= m) by (bit_vector);
            assert(x == field(a[i], depth, slot));
            assert(y == field(b[i], depth, slot));
            assert(x as u8 == y as u8);
        }
        lemma_fields_determine_word(a[i], b[i], depth);
    }
    assert(a =~= b);
}

} // verus!
