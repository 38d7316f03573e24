//! Small shared types.

use vstd::prelude::*;
use crate::error::DecodeError;

verus! {

/// A position in the module grid: column `x` of row `y`.
#[derive(Debug, Clone, Copy, PartialEq, Eq, Structural)]
pub struct GridPoint {
    pub x: usize,
    pub y: usize,
}

/// A stream that hands out its items one at a time and can hand out a fixed
/// number of them at once.
///
/// The model of a stream is the sequence of items that are still to come and
/// the way it ends behind them: cleanly, or in an error.
pub trait IteratorExt: Sized {
    type Item;

    /// The invariant of the stream.
    spec fn wf(&self) -> bool;

    /// The items that are still to come, in order.
    spec fn remaining(&self) -> Seq<Self::Item>;

    /// The error in which the stream ends behind its items, if it does.
    spec fn failure(&self) -> Option<DecodeError>;

    /// Hands out the next item; `Ok(None)` at a clean end, and the stream's
    /// error at a failed one.
    fn next(&mut self) -> (item: Result<Option<Self::Item>, DecodeError>)
        requires
            old(self).wf(),
        ensures
            final(self).wf(),
            match item {
                Ok(Some(first)) => {
                    &&& old(self).remaining().len() > 0
                    &&& first == old(self).remaining()[0]
                    &&& final(self).remaining() == old(self).remaining().skip(1)
                    &&& final(self).failure() == old(self).failure()
                },
                Ok(None) => {
                    &&& old(self).remaining().len() == 0
                    &&& old(self).failure() is None
                    &&& final(self).remaining().len() == 0
                    &&& final(self).failure() is None
                },
                Err(e) => {
                    &&& old(self).remaining().len() == 0
                    &&& old(self).failure() == Some(e)
                    &&& final(self).remaining().len() == 0
                    &&& final(self).failure() is None
                },
            },
    ;

    /// Hands out the next `n` items. Where fewer are left the stream is
    /// drained and the call fails: with the stream's own error if it ends in
    /// one, else with `Truncated`.
    fn take_or_err(&mut self, n: usize) -> (taken: Result<Vec<Self::Item>, DecodeError>)
        requires
            old(self).wf(),
        ensures
            final(self).wf(),
            match taken {
                Ok(items) => {
                    &&& n <= old(self).remaining().len()
                    &&& items@ == old(self).remaining().take(n as int)
                    &&& final(self).remaining() == old(self).remaining().skip(n as int)
                    &&& final(self).failure() == old(self).failure()
                },
                Err(e) => {
                    &&& n > old(self).remaining().len()
                    &&& e == match old(self).failure() {
                        Some(failure) => failure,
                        None => DecodeError::Truncated,
                    }
                    &&& final(self).remaining().len() == 0
                    &&& final(self).failure() is None
                },
            },
    {
        let mut result: Vec<Self::Item> = Vec::with_capacity(n);
        let mut taken: usize = 0;
        while taken < n
            invariant
                self.wf(),
                taken <= n,
                taken <= old(self).remaining().len(),
                result@ == old(self).remaining().take(taken as int),
                self.remaining() == old(self).remaining().skip(taken as int),
                self.failure() == old(self).failure(),
            decreases n - taken,
        {
            match self.next() {
                Ok(Some(item)) => {
                    result.push(item);
                    proof {
                        let all = old(self).remaining();
                        assert(all.skip(taken as int).skip(1) =~= all.skip(taken + 1));
                        assert(all.take(taken as int).push(all[taken as int]) =~= all.take(
                            taken + 1,
                        ));
                    }
                },
                Ok(None) => {
                    return Err(DecodeError::Truncated);
                },
                Err(e) => {
                    return Err(e);
                },
            }
            taken += 1;
        }
        Ok(result)
    }

    /// Hands out every item that is left. It fails with the stream's own
    /// error where the stream ends in one.
    fn collect(&mut self) -> (all: Result<Vec<Self::Item>, DecodeError>)
        requires
            old(self).wf(),
        ensures
            final(self).wf(),
            final(self).remaining().len() == 0,
            final(self).failure() is None,
            match all {
                Ok(items) => items@ == old(self).remaining() && old(self).failure() is None,
                Err(e) => old(self).failure() == Some(e),
            },
    {
        let mut result: Vec<Self::Item> = Vec::new();
        loop
            invariant
                self.wf(),
                result@.len() <= old(self).remaining().len(),
                result@ == old(self).remaining().take(result@.len() as int),
                self.remaining() == old(self).remaining().skip(result@.len() as int),
                self.failure() == old(self).failure(),
            decreases self.remaining().len(),
        {
            let ghost taken = result@.len() as int;
            match self.next() {
                Ok(Some(item)) => {
                    result.push(item);
                    proof {
                        let all = old(self).remaining();
                        assert(all.skip(taken).skip(1) =~= all.skip(taken + 1));
                        assert(all.take(taken).push(all[taken]) =~= all.take(taken + 1));
                    }
                },
                Ok(None) => {
                    proof {
                        let all = old(self).remaining();
                        assert(all.take(taken) =~= all);
                    }
                    return Ok(result);
                },
                Err(e) => {
                    return Err(e);
                },
            }
        }
    }
}

} // verus!
