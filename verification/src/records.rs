//! Records that stand one after the other in a range of bytes: what a walk over
//! them gathers, their bytes put together, and the sum of their lengths.
use vstd::prelude::*;
use crate::error::HiiError;

verus! {

/// `pre` put in front of what a walk over the rest of a range gives: the
/// records found there, or the defect that stopped it.
pub open spec fn prepend<T>(pre: Seq<T>, rest: Result<Seq<T>, HiiError>) -> Result<
    Seq<T>,
    HiiError,
> {
    match rest {
        Ok(found) => Ok(pre + found),
        Err(e) => Err(e),
    }
}

/// The sum of the lengths of the byte sequences in `records`.
pub open spec fn total_len(records: Seq<Seq<u8>>) -> int
    decreases records.len(),
{
    if records.len() == 0 {
        0
    } else {
        records[0].len() + total_len(records.skip(1))
    }
}

/// The byte sequences of `records`, one after the other.
pub open spec fn concat(records: Seq<Seq<u8>>) -> Seq<u8>
    decreases records.len(),
{
    if records.len() == 0 {
        Seq::empty()
    } else {
        records[0] + concat(records.skip(1))
    }
}

/// One more record at the end adds its bytes at the end, and its length to
/// the sum.
pub proof fn lemma_concat_push(records: Seq<Seq<u8>>, record: Seq<u8>)
    ensures
        concat(records.push(record)) == concat(records) + record,
        total_len(records.push(record)) == total_len(records) + record.len(),
        concat(records).len() == total_len(records),
    decreases records.len(),
{
    if records.len() == 0 {
        assert(records.push(record).skip(1) =~= records);
        assert(concat(records.push(record)) == record + concat(records));
        assert(concat(records.push(record)) =~= concat(records) + record);
    } else {
        lemma_concat_push(records.skip(1), record);
        assert(records.push(record).skip(1) =~= records.skip(1).push(record));
        assert(concat(records.push(record)) =~= concat(records) + record);
    }
}

/// The bytes of records one after the other are as many as the lengths of the
/// records add up to, and that is no negative number.
pub proof fn lemma_total_len_bounds(records: Seq<Seq<u8>>)
    ensures
        concat(records).len() == total_len(records),
        total_len(records) >= 0,
    decreases records.len(),
{
    if records.len() > 0 {
        lemma_total_len_bounds(records.skip(1));
    }
}

/// A walk that has gathered `seen` and then finds `x` has gathered `seen` and
/// `x` before it goes on: it makes no difference whether `x` is put in front
/// of the rest first, or behind what was seen.
pub proof fn lemma_prepend_push<T>(seen: Seq<T>, x: T, rest: Result<Seq<T>, HiiError>)
    ensures
        prepend(seen, prepend(seq![x], rest)) == prepend(seen.push(x), rest),
{
    match rest {
        Ok(found) => {
            assert(seen + (seq![x] + found) =~= seen.push(x) + found);
        },
        Err(_) => {},
    }
}

/// The records before a position are those before it among one record more.
pub proof fn lemma_take_push(records: Seq<Seq<u8>>, record: Seq<u8>, i: int)
    requires
        0 <= i <= records.len(),
    ensures
        records.push(record).take(i) == records.take(i),
{
    assert(records.push(record).take(i) =~= records.take(i));
}

} // verus!
