//! A reader that fails where its stream ends before the promised length, so
//! that no body is shorter than announced.

use vstd::prelude::*;

use crate::text::push_signed_decimal;

verus! {

/// A stream and how much of it is expected and was read.
#[derive(Debug)]
pub struct ExactLengthReader<R> {
    /// The stream itself.
    pub inner: R,
    /// How many bytes the stream has to give.
    pub expected: i64,
    /// How many bytes it gave so far.
    pub read_so_far: i64,
}

/// A stream that ended before its expected length.
#[derive(Clone, Copy, Debug, PartialEq, Eq, Structural)]
pub struct EndedEarly {
    pub expected: i64,
    pub read_so_far: i64,
}

impl EndedEarly {
    /// The text of the error.
    pub fn message(&self) -> (r: String)
        ensures
            r@ == "decryption stream ended early: expected "@ + crate::text::signed_decimal(
                self.expected as int,
            ) + " bytes, got "@ + crate::text::signed_decimal(self.read_so_far as int),
    {
        let mut r: String = "decryption stream ended early: expected ".to_owned();
        push_signed_decimal(&mut r, self.expected);
        r.append(" bytes, got ");
        push_signed_decimal(&mut r, self.read_so_far);
        r
    }
}

/// Whether a read of `n` bytes after `so_far` bytes ends the stream too soon: no
/// bytes mean the end.
pub open spec fn ends_early(expected: int, so_far: int, n: nat) -> bool {
    n == 0 && so_far < expected
}

impl<R> ExactLengthReader<R> {
    /// What was read is never negative.
    pub open spec fn wf(self) -> bool {
        self.read_so_far >= 0
    }

    /// A reader of which nothing was read yet.
    pub fn new(inner: R, expected: i64) -> (r: ExactLengthReader<R>)
        ensures
            r.wf(),
            r == (ExactLengthReader { inner, expected, read_so_far: 0 }),
    {
        ExactLengthReader { inner, expected, read_so_far: 0 }
    }

    /// Counts a read of `n` bytes. No bytes mean the end of the stream, which
    /// fails before the expected length.
    pub fn poll_read(&mut self, n: usize) -> (r: Result<(), EndedEarly>)
        requires
            old(self).wf(),
            old(self).read_so_far + n <= i64::MAX,
        ensures
            final(self).wf(),
            *final(self) == (ExactLengthReader {
                read_so_far: (old(self).read_so_far + n) as i64,
                ..*old(self)
            }),
            r == if ends_early(old(self).expected as int, old(self).read_so_far as int, n as nat) {
                Err::<(), EndedEarly>(
                    EndedEarly {
                        expected: old(self).expected,
                        read_so_far: old(self).read_so_far,
                    },
                )
            } else {
                Ok(())
            },
    {
        self.read_so_far = self.read_so_far + n as i64;
        if n == 0 && self.read_so_far < self.expected {
            return Err(EndedEarly { expected: self.expected, read_so_far: self.read_so_far });
        }
        Ok(())
    }
}

/// How many bytes a run of reads gives.
pub open spec fn total(reads: Seq<nat>) -> nat
    decreases reads.len(),
{
    if reads.len() == 0 {
        0
    } else {
        total(reads.drop_last()) + reads.last()
    }
}

/// Whether every read of a run passes.
pub open spec fn all_pass(reads: Seq<nat>, expected: int) -> bool {
    forall|i: int|
        0 <= i < reads.len() ==> !ends_early(expected, total(reads.take(i)) as int, #[trigger] reads[i])
}

/// A body that is read to its end without an error is never shorter than
/// expected.
pub proof fn law_body_is_never_short(reads: Seq<nat>, expected: int)
    requires
        all_pass(reads, expected),
        reads.len() > 0,
        reads.last() == 0,
    ensures
        total(reads) >= expected,
{
    let last = reads.len() - 1;
    assert(!ends_early(expected, total(reads.take(last)) as int, reads[last]));
    assert(reads.take(last) =~= reads.drop_last());
}

/// A body of the expected length is read to its end without an error.
pub proof fn law_full_body_passes(reads: Seq<nat>, expected: int)
    requires
        forall|i: int| 0 <= i < reads.len() - 1 ==> #[trigger] reads[i] > 0,
        total(reads) >= expected,
    ensures
        all_pass(reads, expected),
{
    assert forall|i: int| 0 <= i < reads.len() implies !ends_early(
        expected,
        total(reads.take(i)) as int,
        #[trigger] reads[i],
    ) by {
        if i == reads.len() - 1 {
            assert(reads.take(i) =~= reads.drop_last());
        }
    }
}

/// A read fails exactly where it gives no byte before the expected length is
/// reached; each read adds what it gave.
pub proof fn law_only_an_early_end_fails(expected: int, so_far: int, n: nat, reads: Seq<nat>)
    ensures
        n > 0 ==> !ends_early(expected, so_far, n),
        ends_early(expected, so_far, 0) <==> expected - so_far > 0,
        total(Seq::empty()) == 0,
        total(reads.push(n)) == total(reads) + n,
{
    assert(reads.push(n).drop_last() =~= reads);
}

/// What a call of `poll_read` does: it adds what was read, changes nothing else,
/// and fails exactly where the stream ended while bytes were missing.
pub proof fn law_poll_read_counts<R>(
    reader: &mut ExactLengthReader<R>,
    n: usize,
    r: Result<(), EndedEarly>,
)
    requires
        call_ensures(ExactLengthReader::<R>::poll_read, (reader, n), r),
        old(reader).read_so_far >= 0,
        old(reader).read_so_far + n <= i64::MAX,
    ensures
        final(reader).read_so_far - old(reader).read_so_far == n,
        final(reader).expected == old(reader).expected,
        final(reader).inner == old(reader).inner,
        r is Err <==> n == 0 && old(reader).read_so_far < old(reader).expected,
        r matches Err(e) ==> e.expected == old(reader).expected && e.read_so_far < e.expected
            && e.read_so_far == old(reader).read_so_far,
{
}

/// The text of the error says how many bytes were expected and how many came; a
/// new reader has read none.
pub proof fn law_error_says_what_is_missing<R>(
    e: EndedEarly,
    text: String,
    inner: R,
    expected: i64,
    fresh: ExactLengthReader<R>,
)
    requires
        call_ensures(EndedEarly::message, (&e,), text),
        call_ensures(ExactLengthReader::<R>::new, (inner, expected), fresh),
    ensures
        text@ == "decryption stream ended early: expected "@ + crate::text::signed_decimal(
            e.expected as int,
        ) + " bytes, got "@ + crate::text::signed_decimal(e.read_so_far as int),
        fresh.inner == inner && fresh.expected == expected && fresh.read_so_far == 0,
{
}

}
