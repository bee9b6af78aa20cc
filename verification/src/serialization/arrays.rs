//! Arrays of a fixed length: the elements one after another, first to last,
//! with nothing in between.

use vstd::prelude::*;
use crate::error::Error;
use crate::serialization::{Deserializable, Serializable, SliceCursor};

verus! {

/// The bytes of the values of `items`, in order.
pub open spec fn wire_all<T: Serializable>(items: Seq<T>) -> Seq<u8>
    decreases items.len(),
{
    if items.len() == 0 {
        Seq::empty()
    } else {
        wire_all(items.drop_last()) + items.last().wire()
    }
}

/// `count` values of a type take `count` times the width of the type.
pub proof fn lemma_wire_all_len<T: Serializable>(items: Seq<T>)
    ensures
        wire_all(items).len() == items.len() * T::width(),
    decreases items.len(),
{
    if items.len() == 0 {
        assert(items.len() * T::width() == 0) by (nonlinear_arith)
            requires
                items.len() == 0,
        ;
    } else {
        let front = items.drop_last();
        lemma_wire_all_len(front);
        items.last().lemma_wire_width();
        assert(front.len() * T::width() + T::width() == items.len() * T::width())
            by (nonlinear_arith)
            requires
                front.len() + 1 == items.len(),
        ;
    }
}

/// Sequences of the same length that are written as the same bytes hold the
/// same values.
pub proof fn lemma_wire_all_injective<T: Serializable>(a: Seq<T>, b: Seq<T>)
    requires
        a.len() == b.len(),
        wire_all(a) == wire_all(b),
    ensures
        a == b,
    decreases a.len(),
{
    if a.len() > 0 {
        let a_front = a.drop_last();
        let b_front = b.drop_last();
        lemma_wire_all_len(a_front);
        lemma_wire_all_len(b_front);
        a.last().lemma_wire_width();
        b.last().lemma_wire_width();
        let cut = wire_all(a_front).len() as int;
        let whole = wire_all(a);
        assert(whole.take(cut) =~= wire_all(a_front));
        assert(whole.take(cut) =~= wire_all(b_front));
        assert(whole.skip(cut) =~= a.last().wire());
        assert(whole.skip(cut) =~= b.last().wire());
        a.last().lemma_wire_injective(&b.last());
        lemma_wire_all_injective(a_front, b_front);
        assert(a =~= a_front.push(a.last()));
        assert(b =~= b_front.push(b.last()));
    } else {
        assert(a =~= b);
    }
}

/// `count * width <= room` is decided by one division, with no product
/// that could leave the machine's range.
proof fn lemma_fits_by_division(count: nat, width: nat, room: nat)
    requires
        count > 0,
    ensures
        (count * width <= room) == (width <= room / count),
{
    assert((count * width <= room) == (width <= room / count)) by (nonlinear_arith)
        requires
            count > 0,
    ;
}

impl<T: Serializable, const N: usize> Serializable for [T; N] {
    open spec fn width() -> nat {
        N as nat * T::width()
    }

    open spec fn wire(&self) -> Seq<u8> {
        wire_all(self@)
    }

    proof fn lemma_wire_width(&self) {
        lemma_wire_all_len(self@);
    }

    proof fn lemma_wire_injective(&self, other: &Self) {
        lemma_wire_all_injective(self@, other@);
        assert(*self =~= *other);
    }

    fn fits_in(room: usize) -> (fits: bool) {
        if N == 0 {
            assert(N as nat * T::width() == 0) by (nonlinear_arith)
                requires
                    N == 0,
            ;
            true
        } else {
            proof {
                lemma_fits_by_division(N as nat, T::width(), room as nat);
            }
            T::fits_in(room / N)
        }
    }

    fn serialize(&self, cursor: &mut SliceCursor) -> (r: Result<(), Error>) {
        proof {
            lemma_wire_all_len(self@);
        }
        if !Self::fits_in(cursor.remaining()) {
            return Err(Error::BufferOverflow);
        }
        assert(cursor@.bytes =~= cursor@.wrote(wire_all(self@.take(0))).bytes);
        let mut i: usize = 0;
        while i < N
            invariant
                i <= N,
                cursor.wf(),
                old(cursor).wf(),
                N as nat * T::width() <= old(cursor)@.room(),
                cursor@ == old(cursor)@.wrote(wire_all(self@.take(i as int))),
                final(cursor.slice)@ == final(old(cursor).slice)@,
            decreases N - i,
        {
            let ghost done = self@.take(i as int);
            let ghost next = self@.take(i as int + 1);
            proof {
                assert(next.drop_last() =~= done);
                assert(next.last() == self@[i as int]);
                lemma_wire_all_len(done);
                lemma_wire_all_len(next);
                self@[i as int].lemma_wire_width();
                assert(next.len() * T::width() <= N as nat * T::width()) by (nonlinear_arith)
                    requires
                        next.len() <= N,
                ;
            }
            self[i].serialize(cursor)?;
            assert(cursor@.bytes =~= old(cursor)@.wrote(wire_all(next)).bytes);
            i = i + 1;
        }
        assert(self@.take(N as int) =~= self@);
        Ok(())
    }
}

impl<T: Deserializable + Copy + Default, const N: usize> Deserializable for [T; N] {
    fn deserialize(cursor: &mut SliceCursor) -> (r: Result<Self, Error>) {
        if !Self::fits_in(cursor.remaining()) {
            return Err(Error::TruncatedInput);
        }
        let mut items: [T; N] = [T::default(); N];
        let ghost input = cursor@.ahead().take((N as nat * T::width()) as int);
        let mut i: usize = 0;
        while i < N
            invariant
                i <= N,
                cursor.wf(),
                old(cursor).wf(),
                N as nat * T::width() <= old(cursor)@.room(),
                input == old(cursor)@.ahead().take((N as nat * T::width()) as int),
                cursor@ == old(cursor)@.skipped(i as nat * T::width()),
                wire_all(items@.take(i as int)) == input.take((i as nat * T::width()) as int),
                final(cursor.slice)@ == final(old(cursor).slice)@,
            decreases N - i,
        {
            let ghost done = items@.take(i as int);
            proof {
                assert((i + 1) as nat * T::width() == i as nat * T::width() + T::width())
                    by (nonlinear_arith);
                assert((i + 1) as nat * T::width() <= N as nat * T::width()) by (nonlinear_arith)
                    requires
                        i + 1 <= N,
                ;
            }
            let value = T::deserialize(cursor)?;
            items[i] = value;
            proof {
                let next = items@.take(i as int + 1);
                assert(next.drop_last() =~= done);
                assert(next.last() == value);
                assert(wire_all(next) =~= input.take(((i + 1) as nat * T::width()) as int));
            }
            i = i + 1;
        }
        assert(items@.take(N as int) =~= items@);
        assert(input.take((N as nat * T::width()) as int) =~= input);
        Ok(items)
    }
}

} // verus!
