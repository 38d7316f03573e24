//! Run-length encoding of a one-dimensional scan.

use vstd::prelude::*;
use vstd::laws_eq::obeys_concrete_eq;

verus! {

/// A maximal span of equal values on a scan: it begins at index `start` and
/// holds `len` items.
#[derive(Debug, Clone, Copy, PartialEq, Eq, Structural)]
pub struct RleItem {
    pub start: u32,
    pub len: u32,
}

/// The runs tile the indices `0..n` in order: none is empty, the first begins
/// at 0, each begins where the one before it ends, and the last ends at `n`.
pub open spec fn tiles(runs: Seq<RleItem>, n: nat) -> bool {
    &&& runs.len() == 0 <==> n == 0
    &&& runs.len() > 0 ==> runs[0].start == 0 && runs.last().start + runs.last().len == n
    &&& forall|i: int|
        0 <= i < runs.len() ==> (#[trigger] runs[i]).len > 0 && runs[i].start + runs[i].len <= n
    &&& forall|i: int, j: int|
        0 <= i && j == i + 1 && j < runs.len() ==> (#[trigger] runs[i]).start + runs[i].len == (
        #[trigger] runs[j]).start
}

/// Every item under a run equals the item at the run's start.
pub open spec fn runs_are_constant<T>(runs: Seq<RleItem>, s: Seq<T>) -> bool {
    forall|i: int, j: int|
        0 <= i < runs.len() && runs[i].start <= j < runs[i].start + runs[i].len ==> #[trigger] s[j]
            == s[(#[trigger] runs[i]).start as int]
}

/// Neighbouring runs begin with different values.
pub open spec fn runs_are_maximal<T>(runs: Seq<RleItem>, s: Seq<T>) -> bool {
    forall|i: int, j: int|
        0 <= i && j == i + 1 && j < runs.len() ==> s[(#[trigger] runs[i]).start as int] != s[(
        #[trigger] runs[j]).start as int]
}

/// `runs` is the run-length encoding of `s`: the runs tile `s`, each covers
/// equal items only, and none can be extended.
pub open spec fn is_run_length_encoding<T>(runs: Seq<RleItem>, s: Seq<T>) -> bool {
    &&& tiles(runs, s.len())
    &&& runs_are_constant(runs, s)
    &&& runs_are_maximal(runs, s)
}

/// Growing the last run by one item keeps the tiling, one index further.
proof fn lemma_tiles_grow(runs: Seq<RleItem>, last: RleItem, n: nat)
    requires
        tiles(runs.push(last), n),
        last.len < u32::MAX,
    ensures
        tiles(runs.push(RleItem { start: last.start, len: (last.len + 1) as u32 }), (n + 1) as nat),
{
    let before = runs.push(last);
    let after = runs.push(RleItem { start: last.start, len: (last.len + 1) as u32 });
    assert(before.last() == last);
    assert forall|i: int| 0 <= i < after.len() implies (#[trigger] after[i]).len > 0 && after[i].start
        + after[i].len <= n + 1 by {
        if i < runs.len() {
            assert(after[i] == before[i]);
        }
    }
    assert forall|i: int, j: int| 0 <= i && j == i + 1 && j < after.len() implies (
    #[trigger] after[i]).start + after[i].len == (#[trigger] after[j]).start by {
        assert(after[i] == before[i]);
        assert(after[j].start == before[j].start);
    }
    if runs.len() > 0 {
        assert(after[0] == before[0]);
    }
}

/// Opening a run of one item behind the tiling keeps it, one index further.
proof fn lemma_tiles_open(runs: Seq<RleItem>, n: nat)
    requires
        tiles(runs, n),
        n > 0,
        n < u32::MAX,
    ensures
        tiles(runs.push(RleItem { start: n as u32, len: 1 }), (n + 1) as nat),
{
    let after = runs.push(RleItem { start: n as u32, len: 1 });
    assert forall|i: int| 0 <= i < after.len() implies (#[trigger] after[i]).len > 0 && after[i].start
        + after[i].len <= n + 1 by {
        if i < runs.len() {
            assert(after[i] == runs[i]);
        }
    }
    assert forall|i: int, j: int| 0 <= i && j == i + 1 && j < after.len() implies (
    #[trigger] after[i]).start + after[i].len == (#[trigger] after[j]).start by {
        assert(after[i] == runs[i]);
        if j < runs.len() {
            assert(after[j] == runs[j]);
        } else {
            assert(runs[i] == runs.last());
        }
    }
    assert(after[0] == runs[0]);
}

/// Growing the last run over an item equal to the run's first keeps the
/// encoding.
proof fn lemma_encoding_grow<T>(runs: Seq<RleItem>, last: RleItem, s: Seq<T>, n: nat)
    requires
        n < s.len(),
        is_run_length_encoding(runs.push(last), s.take(n as int)),
        last.len < u32::MAX,
        s[n as int] == s[last.start as int],
    ensures
        is_run_length_encoding(
            runs.push(RleItem { start: last.start, len: (last.len + 1) as u32 }),
            s.take(n as int + 1),
        ),
{
    let before = runs.push(last);
    let grown = RleItem { start: last.start, len: (last.len + 1) as u32 };
    let after = runs.push(grown);
    let s0 = s.take(n as int);
    let s1 = s.take(n as int + 1);
    lemma_tiles_grow(runs, last, n);
    assert(before.last() == last);
    assert forall|i: int, j: int|
        0 <= i < after.len() && after[i].start <= j < after[i].start + after[i].len implies
        #[trigger] s1[j] == s1[(#[trigger] after[i]).start as int] by {
        if i < runs.len() {
            assert(after[i] == before[i]);
            assert(s0[j] == s0[before[i].start as int]);
        } else if j < n {
            assert(after[i].start == before[i].start);
            assert(s0[j] == s0[before[i].start as int]);
        }
    }
    assert forall|i: int, j: int| 0 <= i && j == i + 1 && j < after.len() implies s1[(
    #[trigger] after[i]).start as int] != s1[(#[trigger] after[j]).start as int] by {
        assert(after[i] == before[i]);
        assert(after[j].start == before[j].start);
        assert(s0[before[i].start as int] != s0[before[j].start as int]);
    }
}

/// Opening a run at an item that differs from the last run's first keeps the
/// encoding.
proof fn lemma_encoding_open<T>(runs: Seq<RleItem>, s: Seq<T>, n: nat)
    requires
        0 < n < s.len(),
        n < u32::MAX,
        is_run_length_encoding(runs, s.take(n as int)),
        s[n as int] != s[runs.last().start as int],
    ensures
        is_run_length_encoding(runs.push(RleItem { start: n as u32, len: 1 }), s.take(n as int + 1)),
{
    let after = runs.push(RleItem { start: n as u32, len: 1 });
    let s0 = s.take(n as int);
    let s1 = s.take(n as int + 1);
    lemma_tiles_open(runs, n);
    assert forall|i: int, j: int|
        0 <= i < after.len() && after[i].start <= j < after[i].start + after[i].len implies
        #[trigger] s1[j] == s1[(#[trigger] after[i]).start as int] by {
        if i < runs.len() {
            assert(after[i] == runs[i]);
            assert(s0[j] == s0[runs[i].start as int]);
        }
    }
    assert forall|i: int, j: int| 0 <= i && j == i + 1 && j < after.len() implies s1[(
    #[trigger] after[i]).start as int] != s1[(#[trigger] after[j]).start as int] by {
        assert(after[i] == runs[i]);
        if j < runs.len() {
            assert(after[j] == runs[j]);
            assert(s0[runs[i].start as int] != s0[runs[j].start as int]);
        } else {
            assert(runs[i] == runs.last());
        }
    }
}

/// Encodes a scan as its runs, in scan order.
///
/// The runs always tile the scan. Where `==` on `T` is plain equality they
/// are the scan's maximal spans of equal values.
pub fn run_length_encode<T: PartialEq>(items: &[T]) -> (runs: Vec<RleItem>)
    requires
        items@.len() <= u32::MAX,
    ensures
        tiles(runs@, items@.len()),
        obeys_concrete_eq::<T>() ==> is_run_length_encoding(runs@, items@),
        obeys_concrete_eq::<T>() ==> runs@ == run_length_encoding(items@),
{
    let runs = encode_runs(items);
    proof {
        if obeys_concrete_eq::<T>() {
            lemma_encoding_is_unique(runs@, run_length_encoding(items@), items@);
        }
    }
    runs
}

/// The loop of `run_length_encode`: it closes a run wherever an item differs
/// from the first item of the run that is open.
fn encode_runs<T: PartialEq>(items: &[T]) -> (runs: Vec<RleItem>)
    requires
        items@.len() <= u32::MAX,
    ensures
        tiles(runs@, items@.len()),
        obeys_concrete_eq::<T>() ==> is_run_length_encoding(runs@, items@),
{
    let mut result: Vec<RleItem> = Vec::new();
    let n: usize = items.len();
    if n == 0 {
        return result;
    }
    let mut count: u32 = 1;
    let mut run_start: usize = 0;
    let mut pos: usize = 1;
    let ghost open = RleItem { start: 0, len: 1 };
    assert(is_run_length_encoding(result@.push(open), items@.take(1)));
    while pos < n
        invariant
            n == items@.len(),
            n <= u32::MAX,
            1 <= pos <= n,
            count >= 1,
            run_start + count == pos,
            open == (RleItem { start: run_start as u32, len: count }),
            tiles(result@.push(open), pos as nat),
            obeys_concrete_eq::<T>() ==> is_run_length_encoding(
                result@.push(open),
                items@.take(pos as int),
            ),
        decreases n - pos,
    {
        let ghost closed = result@;
        proof {
            reveal(obeys_concrete_eq);
        }
        if items[pos] == items[run_start] {
            proof {
                lemma_tiles_grow(closed, open, pos as nat);
                if obeys_concrete_eq::<T>() {
                    lemma_encoding_grow(closed, open, items@, pos as nat);
                }
                open = RleItem { start: run_start as u32, len: (count + 1) as u32 };
            }
            count += 1;
        } else {
            result.push(RleItem { len: count, start: run_start as u32 });
            proof {
                assert(result@ == closed.push(open));
                lemma_tiles_open(result@, pos as nat);
                if obeys_concrete_eq::<T>() {
                    lemma_encoding_open(result@, items@, pos as nat);
                }
                open = RleItem { start: pos as u32, len: 1 };
            }
            count = 1;
            run_start = pos;
        }
        pos += 1;
    }
    result.push(RleItem { len: count, start: run_start as u32 });
    proof {
        assert(items@.take(n as int) == items@);
    }
    result
}

/// Two encodings of one scan agree on every run that both hold.
proof fn lemma_encodings_agree<T>(a: Seq<RleItem>, b: Seq<RleItem>, s: Seq<T>, i: int)
    requires
        is_run_length_encoding(a, s),
        is_run_length_encoding(b, s),
        0 <= i < a.len(),
        i < b.len(),
    ensures
        a[i] == b[i],
    decreases i,
{
    if i > 0 {
        lemma_encodings_agree(a, b, s, i - 1);
        assert(a[i - 1].start + a[i - 1].len == a[i].start);
        assert(b[i - 1].start + b[i - 1].len == b[i].start);
    }
    assert(a[i].start == b[i].start);
    lemma_run_extends(a, b, s, i);
    lemma_run_extends(b, a, s, i);
}

/// Of two runs of two encodings that begin at the same index, neither ends
/// inside the other: the run behind it would begin with the same value.
proof fn lemma_run_extends<T>(a: Seq<RleItem>, b: Seq<RleItem>, s: Seq<T>, i: int)
    requires
        is_run_length_encoding(a, s),
        is_run_length_encoding(b, s),
        0 <= i < a.len(),
        i < b.len(),
        a[i].start == b[i].start,
    ensures
        a[i].len >= b[i].len,
{
    if a[i].len < b[i].len {
        assert(b[i].start + b[i].len <= s.len());
        assert(a.last().start + a.last().len == s.len());
        assert(i < a.len() - 1);
        let next = a[i + 1].start as int;
        assert(a[i].start + a[i].len == a[i + 1].start);
        assert(s[a[i].start as int] != s[a[i + 1].start as int]);
        assert(s[next] == s[b[i].start as int]);
    }
}

/// A scan has at most one run-length encoding.
pub proof fn lemma_encoding_is_unique<T>(a: Seq<RleItem>, b: Seq<RleItem>, s: Seq<T>)
    requires
        is_run_length_encoding(a, s),
        is_run_length_encoding(b, s),
    ensures
        a == b,
{
    lemma_no_run_behind_last(a, b, s);
    lemma_no_run_behind_last(b, a, s);
    assert forall|i: int| 0 <= i < a.len() implies a[i] == b[i] by {
        lemma_encodings_agree(a, b, s, i);
    }
    assert(a =~= b);
}

/// An encoding of a scan holds no fewer runs than another encoding of it:
/// behind its last run, which ends the scan, the other has no room for one.
proof fn lemma_no_run_behind_last<T>(a: Seq<RleItem>, b: Seq<RleItem>, s: Seq<T>)
    requires
        is_run_length_encoding(a, s),
        is_run_length_encoding(b, s),
    ensures
        a.len() >= b.len(),
{
    if 0 < a.len() < b.len() {
        let last = a.len() - 1;
        lemma_encodings_agree(a, b, s, last);
        assert(b[last].start + b[last].len == b[last + 1].start);
        assert(b[last + 1].len > 0);
        assert(b[last + 1].start + b[last + 1].len <= s.len());
    }
}

/// The run-length encoding of a scan.
pub open spec fn run_length_encoding<T>(s: Seq<T>) -> Seq<RleItem> {
    choose|runs: Seq<RleItem>| is_run_length_encoding(runs, s)
}

/// The value of run number `i` on a scan of two values that begins with
/// `first`: runs alternate.
pub open spec fn run_value(first: bool, i: int) -> bool {
    if i % 2 == 0 {
        first
    } else {
        !first
    }
}

/// The scan that the runs stand for when the first run holds `first`: each
/// run contributes `len` copies of its value.
pub open spec fn expand(runs: Seq<RleItem>, first: bool) -> Seq<bool>
    decreases runs.len(),
{
    if runs.len() == 0 {
        Seq::empty()
    } else {
        expand(runs.drop_last(), first) + Seq::new(
            runs.last().len as nat,
            |k: int| run_value(first, runs.len() - 1),
        )
    }
}

/// Sum of the lengths of the runs.
pub open spec fn total_len(runs: Seq<RleItem>) -> nat
    decreases runs.len(),
{
    if runs.len() == 0 {
        0
    } else {
        total_len(runs.drop_last()) + runs.last().len as nat
    }
}

/// Without its last run, a tiling tiles the indices up to that run's start.
proof fn lemma_prefix_tiles(runs: Seq<RleItem>, n: nat)
    requires
        tiles(runs, n),
        runs.len() > 0,
    ensures
        tiles(runs.drop_last(), runs.last().start as nat),
{
    let head = runs.drop_last();
    let cut = runs.last().start as int;
    if head.len() > 0 {
        assert(head[0] == runs[0]);
        assert(head.last() == runs[runs.len() - 2]);
        assert(runs[runs.len() - 2].start + runs[runs.len() - 2].len == runs[runs.len() - 1].start);
    }
    assert forall|i: int| 0 <= i < head.len() implies (#[trigger] head[i]).len > 0 && head[i].start
        + head[i].len <= cut by {
        assert(head[i] == runs[i]);
        lemma_starts_increase(runs, n, i, runs.len() - 1);
    }
    assert forall|i: int, j: int| 0 <= i && j == i + 1 && j < head.len() implies (
    #[trigger] head[i]).start + head[i].len == (#[trigger] head[j]).start by {
        assert(head[i] == runs[i]);
        assert(head[j] == runs[j]);
    }
}

/// Without its last run, an encoding encodes the scan up to that run's start.
proof fn lemma_prefix_encoding<T>(runs: Seq<RleItem>, s: Seq<T>)
    requires
        is_run_length_encoding(runs, s),
        runs.len() > 0,
    ensures
        is_run_length_encoding(runs.drop_last(), s.take(runs.last().start as int)),
{
    let head = runs.drop_last();
    let cut = runs.last().start as int;
    let prefix = s.take(cut);
    lemma_prefix_tiles(runs, s.len());
    assert forall|i: int, j: int|
        0 <= i < head.len() && head[i].start <= j < head[i].start + head[i].len implies
        #[trigger] prefix[j] == prefix[(#[trigger] head[i]).start as int] by {
        assert(head[i] == runs[i]);
        assert(s[j] == s[runs[i].start as int]);
    }
    assert forall|i: int, j: int| 0 <= i && j == i + 1 && j < head.len() implies prefix[(
    #[trigger] head[i]).start as int] != prefix[(#[trigger] head[j]).start as int] by {
        assert(head[i] == runs[i]);
        assert(head[j] == runs[j]);
        assert(s[runs[i].start as int] != s[runs[j].start as int]);
    }
}

/// In a tiling an earlier run ends no later than a later run begins.
proof fn lemma_starts_increase(runs: Seq<RleItem>, n: nat, i: int, j: int)
    requires
        tiles(runs, n),
        0 <= i < j < runs.len(),
    ensures
        runs[i].start + runs[i].len <= runs[j].start,
    decreases j - i,
{
    if j == i + 1 {
        assert(runs[i].start + runs[i].len == runs[j].start);
    } else {
        lemma_starts_increase(runs, n, i, j - 1);
        assert(runs[j - 1].start + runs[j - 1].len == runs[j].start);
        assert(runs[j - 1].len > 0);
    }
}

/// On a scan of booleans the runs alternate in value, beginning with the
/// scan's first item.
proof fn lemma_runs_alternate(runs: Seq<RleItem>, s: Seq<bool>, i: int)
    requires
        is_run_length_encoding(runs, s),
        0 <= i < runs.len(),
    ensures
        s[runs[i].start as int] == run_value(s[0], i),
    decreases i,
{
    if i > 0 {
        lemma_runs_alternate(runs, s, i - 1);
        assert(s[runs[i - 1].start as int] != s[runs[i].start as int]);
    }
}

/// The run lengths of a tiling of `0..n` add up to `n`.
pub proof fn lemma_total_len(runs: Seq<RleItem>, n: nat)
    requires
        tiles(runs, n),
    ensures
        total_len(runs) == n,
    decreases runs.len(),
{
    if runs.len() > 0 {
        lemma_prefix_tiles(runs, n);
        lemma_total_len(runs.drop_last(), runs.last().start as nat);
    }
}

/// Run-length round trip on a scan of booleans: writing out each run as `len`
/// copies of its value, the values alternating from the scan's first item,
/// gives the scan back; the lengths add up to the scan's length; and the
/// starts strictly increase.
pub proof fn lemma_run_length_round_trip(runs: Seq<RleItem>, s: Seq<bool>)
    requires
        is_run_length_encoding(runs, s),
    ensures
        expand(runs, s[0]) == s,
        total_len(runs) == s.len(),
        forall|i: int, j: int|
            0 <= i < j < runs.len() ==> (#[trigger] runs[i]).start < (#[trigger] runs[j]).start,
    decreases runs.len(),
{
    lemma_total_len(runs, s.len());
    assert forall|i: int, j: int| 0 <= i < j < runs.len() implies (#[trigger] runs[i]).start < (
    #[trigger] runs[j]).start by {
        lemma_starts_increase(runs, s.len(), i, j);
    }
    if runs.len() == 0 {
        assert(expand(runs, s[0]) =~= s);
    } else {
        let head = runs.drop_last();
        let cut = runs.last().start as int;
        let prefix = s.take(cut);
        lemma_prefix_encoding(runs, s);
        lemma_run_length_round_trip(head, prefix);
        lemma_runs_alternate(runs, s, runs.len() - 1);
        if head.len() > 0 {
            assert(prefix[0] == s[0]);
        } else {
            assert(expand(head, s[0]) =~= prefix);
        }
        assert forall|j: int| cut <= j < s.len() implies #[trigger] s[j] == run_value(
            s[0],
            runs.len() - 1,
        ) by {
            assert(s[j] == s[runs[runs.len() - 1].start as int]);
        }
        assert(expand(runs, s[0]) =~= s);
    }
}

} // verus!
