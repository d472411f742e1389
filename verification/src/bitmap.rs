//! A bitmap of slots, one bit per slot, set while the slot is free.

use vstd::prelude::*;

verus! {

/// Number of slots that one word of the bitmap keeps.
const WORD_BITS: u32 = 64;

/// Bit `b` of `word`.
spec fn bit(word: u64, b: int) -> bool {
    (word >> (b as u64)) & 1u64 == 1u64
}

/// Which of `0..n_slots` are free.
#[derive(Debug)]
pub struct SlotBitmap {
    words: Vec<u64>,
    n_slots: u32,
}

impl View for SlotBitmap {
    type V = Set<int>;

    /// The free slots.
    closed spec fn view(&self) -> Set<int> {
        Set::new(
            |i: int|
                0 <= i < self.n_slots && bit(
                    self.words@[i / WORD_BITS as int],
                    i % WORD_BITS as int,
                ),
        )
    }
}

impl SlotBitmap {
    /// Every word is in full use.
    pub closed spec fn wf(&self) -> bool {
        self.n_slots == self.words@.len() * WORD_BITS
    }

    /// Number of slots, free or not.
    pub closed spec fn slots(&self) -> nat {
        self.n_slots as nat
    }

    /// The free slots are slots, of which there are no more than a `u32` can count.
    pub proof fn lemma_free_slots(&self)
        ensures
            self@ <= vstd::set_lib::set_int_range(0, self.slots() as int),
            self@.finite(),
            self@.len() <= self.slots() <= u32::MAX,
    {
        let all = vstd::set_lib::set_int_range(0, self.slots() as int);
        vstd::set_lib::lemma_int_range(0, self.slots() as int);
        assert(self@ <= all);
        vstd::set_lib::lemma_set_subset_finite(all, self@);
        vstd::set_lib::lemma_len_subset(self@, all);
    }

    /// A bitmap of `n_slots` slots, all of them free.
    pub fn new(n_slots: u32) -> (res: SlotBitmap)
        requires
            n_slots % 64 == 0,
        ensures
            res.wf(),
            res.slots() == n_slots,
            res@ == vstd::set_lib::set_int_range(0, n_slots as int),
    {
        let n_words: u32 = n_slots / WORD_BITS;
        let mut words: Vec<u64> = Vec::new();
        let mut i: u32 = 0;
        while i < n_words
            invariant
                i <= n_words,
                words@.len() == i,
                forall|j: int| 0 <= j < i ==> words@[j] == u64::MAX,
            decreases n_words - i,
        {
            words.push(u64::MAX);
            i += 1;
        }
        let res = SlotBitmap { words, n_slots };
        assert forall|j: int| 0 <= j < n_slots implies res@.contains(j) by {
            let b = (j % 64) as u64;
            assert((u64::MAX >> b) & 1u64 == 1u64) by (bit_vector)
                requires
                    b < 64,
            ;
        }
        assert(res@ =~= vstd::set_lib::set_int_range(0, n_slots as int));
        res
    }

    /// Takes the lowest free slot, or none if every slot is in use.
    pub fn alloc_one(&mut self) -> (res: Option<u32>)
        requires
            old(self).wf(),
        ensures
            final(self).wf(),
            final(self).slots() == old(self).slots(),
            match res {
                Some(slot) => {
                    &&& old(self)@.contains(slot as int)
                    &&& forall|i: int| i < slot ==> !old(self)@.contains(i)
                    &&& final(self)@ == old(self)@.remove(slot as int)
                },
                None => old(self)@ =~= Set::empty() && final(self)@ == old(self)@,
            },
    {
        let mut w: usize = 0;
        while w < self.words.len()
            invariant
                *self == *old(self),
                self.wf(),
                w <= self.words@.len(),
                forall|i: int| i < w * 64 ==> !self@.contains(i),
            decreases self.words@.len() - w,
        {
            let word = self.words[w];
            if word != 0 {
                let b: u32 = word.trailing_zeros();
                proof {
                    vstd::std_specs::bits::axiom_u64_trailing_zeros(word);
                    assert(bit(word, b as int));
                }
                let slot: u32 = w as u32 * WORD_BITS + b;
                let cleared: u64 = word & !(1u64 << (b as u64));
                proof {
                    assert(slot as int / 64 == w && slot as int % 64 == b);
                    assert forall|i: int| i < slot implies !old(self)@.contains(i) by {
                        if w * 64 <= i {
                            let c = (i % 64) as u64;
                            assert((word >> c) & 1u64 == 0u64);
                        }
                    }
                }
                self.words[w] = cleared;
                proof {
                    lemma_word_update(word, cleared, b as u64, false);
                    assert(self@ =~= old(self)@.remove(slot as int));
                }
                return Some(slot);
            }
            proof {
                assert forall|i: int| i < (w + 1) * 64 implies !self@.contains(i) by {
                    if w * 64 <= i {
                        let c = (i % 64) as u64;
                        assert((0u64 >> c) & 1u64 == 0u64) by (bit_vector);
                    }
                }
            }
            w += 1;
        }
        assert(old(self)@ =~= Set::empty());
        None
    }

    /// Whether `slot` is free.
    pub fn is_free(&self, slot: u32) -> (res: bool)
        requires
            self.wf(),
            slot < self.slots(),
        ensures
            res == self@.contains(slot as int),
    {
        let word = self.words[(slot / WORD_BITS) as usize];
        let b: u64 = (slot % WORD_BITS) as u64;
        (word >> b) & 1 == 1
    }

    /// Makes `slot` free.
    pub fn free_one(&mut self, slot: u32)
        requires
            old(self).wf(),
            slot < old(self).slots(),
        ensures
            final(self).wf(),
            final(self).slots() == old(self).slots(),
            final(self)@ == old(self)@.insert(slot as int),
    {
        let w: usize = (slot / WORD_BITS) as usize;
        let b: u64 = (slot % WORD_BITS) as u64;
        let word = self.words[w];
        let set: u64 = word | (1u64 << b);
        self.words[w] = set;
        proof {
            lemma_word_update(word, set, b, true);
            assert(self@ =~= old(self)@.insert(slot as int));
        }
    }
}

/// Setting or clearing bit `b` of a word decides that bit and keeps the others.
proof fn lemma_word_update(before: u64, after: u64, b: u64, value: bool)
    requires
        b < 64,
        value ==> after == before | (1u64 << b),
        !value ==> after == before & !(1u64 << b),
    ensures
        bit(after, b as int) == value,
        forall|c: int| 0 <= c < 64 && c != b ==> bit(after, c) == bit(before, c),
{
    if value {
        assert((after >> b) & 1u64 == 1u64) by (bit_vector)
            requires
                b < 64,
                after == before | (1u64 << b),
        ;
    } else {
        assert((after >> b) & 1u64 == 0u64) by (bit_vector)
            requires
                b < 64,
                after == before & !(1u64 << b),
        ;
    }
    assert forall|c: int| 0 <= c < 64 && c != b implies bit(after, c) == bit(before, c) by {
        let d = c as u64;
        assert((after >> d) & 1u64 == (before >> d) & 1u64) by (bit_vector)
            requires
                b < 64,
                d < 64,
                d != b,
                after == before | (1u64 << b) || after == before & !(1u64 << b),
        ;
    }
}

} // verus!
