//! Run-length encoding, used to send room layers to clients.
use vstd::prelude::*;
use vstd::laws_eq::obeys_concrete_eq;
use vstd::pervasive::strictly_cloned;

verus! {

/// A run-length encoded sequence: the concatenation of its runs.
#[derive(Debug, Clone)]
pub struct Rle<T> {
    pub runs: Vec<Run<T>>,
}

impl<T> View for Rle<T> {
    type V = Seq<Run<T>>;

    open spec fn view(&self) -> Seq<Run<T>> {
        self.runs@
    }
}

/// `count` copies of `value`.
#[derive(Debug, Clone)]
pub struct Run<T> {
    pub value: T,
    pub count: u32,
}

/// Cloning a value of `T` gives back an equal value.
pub open spec fn clone_is_identity<T: Clone>() -> bool {
    forall|a: T, b: T| #[trigger] strictly_cloned(a, b) ==> a == b
}

/// `n` copies of `v`.
pub open spec fn repeat<T>(v: T, n: nat) -> Seq<T> {
    Seq::new(n, |_i: int| v)
}

/// The sequence that a list of runs stands for.
pub open spec fn expand<T>(runs: Seq<Run<T>>) -> Seq<T>
    decreases runs.len(),
{
    if runs.len() == 0 {
        Seq::empty()
    } else {
        expand(runs.drop_last()) + repeat(runs.last().value, runs.last().count as nat)
    }
}

/// Every run is nonempty and neighbouring runs hold different values: the
/// shortest list of runs for its expansion.
pub open spec fn is_canonical<T>(runs: Seq<Run<T>>) -> bool {
    &&& forall|i: int| 0 <= i < runs.len() ==> (#[trigger] runs[i]).count >= 1
    &&& forall|i: int| 0 <= i < runs.len() - 1 ==> (#[trigger] runs[i]).value != runs[i + 1].value
}

/// `runs` is the canonical run-length encoding of `data`.
pub open spec fn encodes<T>(runs: Seq<Run<T>>, data: Seq<T>) -> bool {
    is_canonical(runs) && expand(runs) == data
}

/// The elements of `s` from `lo` up to `hi` are all equal to `s[lo]`.
pub open spec fn all_same<T>(s: Seq<T>, lo: int, hi: int) -> bool {
    forall|k: int| lo <= k < hi ==> #[trigger] s[k] == s[lo]
}

/// No stretch of equal elements in `s` is longer than a run can count.
pub open spec fn runs_fit_u32<T>(s: Seq<T>) -> bool {
    forall|i: int|
        0 <= i && i + u32::MAX < s.len() ==> !#[trigger] all_same(s, i, i + u32::MAX + 1)
}

proof fn lemma_repeat_push<T>(v: T, n: nat)
    ensures
        repeat(v, n + 1) == repeat(v, n).push(v),
{
    assert(repeat(v, n + 1) =~= repeat(v, n).push(v));
}

/// Whether no stretch of equal elements of `data` is longer than a run can
/// count, so that `data` can be encoded.
pub fn runs_fit<T: PartialEq>(data: &[T]) -> (b: bool)
    requires
        obeys_concrete_eq::<T>(),
    ensures
        b == runs_fit_u32(data@),
{
    proof {
        reveal(obeys_concrete_eq);
    }
    if data.len() == 0 {
        return true;
    }
    let mut count: u64 = 1;
    let mut i: usize = 1;
    while i < data.len()
        invariant
            obeys_concrete_eq::<T>(),
            1 <= i <= data.len(),
            1 <= count <= i,
            count <= u32::MAX,
            all_same(data@, i - count, i as int),
            i - count > 0 ==> data@[i - count - 1] != data@[i - count],
            forall|j: int| 0 <= j && j + u32::MAX + 1 <= i ==> !#[trigger] all_same(data@, j, j + u32::MAX + 1),
        decreases data.len() - i,
    {
        proof {
            reveal(obeys_concrete_eq);
        }
        let ghost start = i - count;
        if data[i] == data[i - 1] {
            assert(data@[i - 1] == data@[start]);
            assert(all_same(data@, start, i + 1));
            if count == u32::MAX as u64 {
                assert(all_same(data@, start, start + u32::MAX + 1));
                return false;
            }
            count = count + 1;
        } else {
            count = 1;
        }
        proof {
            assert forall|j: int| 0 <= j && j + u32::MAX + 1 <= i + 1 implies !#[trigger] all_same(
                data@,
                j,
                j + u32::MAX + 1,
            ) by {
                if j + u32::MAX + 1 <= i {
                } else {
                    let s = i + 1 - count;
                    if all_same(data@, j, j + u32::MAX + 1) && s > j {
                        assert(data@[s - 1] == data@[j]);
                        assert(data@[s as int] == data@[j]);
                    }
                }
            }
        }
        i = i + 1;
    }
    true
}

/// Encodes `data` as its canonical list of runs.
pub fn encode<T: Clone + PartialEq>(data: &[T]) -> (rle: Rle<T>)
    requires
        obeys_concrete_eq::<T>(),
        clone_is_identity::<T>(),
        runs_fit_u32(data@),
    ensures
        encodes(rle.runs@, data@),
{
    if data.len() == 0 {
        let empty: Vec<Run<T>> = Vec::new();
        assert(data@ =~= Seq::<T>::empty());
        return Rle { runs: empty };
    }
    proof {
        reveal(obeys_concrete_eq);
    }
    let mut runs: Vec<Run<T>> = Vec::new();
    let first = data[0].clone();
    assert(strictly_cloned(data@[0], first));
    let mut current_run = Run { value: first, count: 1 };
    assert(expand(runs@.push(current_run)) =~= data@.take(1)) by {
        reveal_with_fuel(expand, 2);
        assert(runs@.push(current_run).drop_last() =~= runs@);
        assert(repeat(current_run.value, 1) =~= seq![data@[0]]);
    }
    let mut i: usize = 1;
    while i < data.len()
        invariant
            obeys_concrete_eq::<T>(),
            clone_is_identity::<T>(),
            runs_fit_u32(data@),
            1 <= i <= data.len(),
            1 <= current_run.count <= i,
            is_canonical(runs@.push(current_run)),
            expand(runs@.push(current_run)) == data@.take(i as int),
            current_run.value == data@[i - 1],
            all_same(data@, i - current_run.count, i as int),
        decreases data.len() - i,
    {
        let ghost old_runs = runs@.push(current_run);
        let ghost start = i - current_run.count;
        proof {
            reveal(obeys_concrete_eq);
        }
        if data[i] == current_run.value {
            assert(data@[i - 1] == data@[start]);
            assert(all_same(data@, start, i + 1));
            if current_run.count == u32::MAX {
                assert(all_same(data@, start, start + u32::MAX + 1));
                assert(false);
            }
            current_run.count = current_run.count + 1;
            proof {
                let new_runs = runs@.push(current_run);
                lemma_repeat_push(current_run.value, (current_run.count - 1) as nat);
                assert(new_runs.drop_last() =~= runs@);
                assert(old_runs.drop_last() =~= runs@);
                assert(data@.take(i + 1) =~= data@.take(i as int).push(data@[i as int]));
                assert(forall|j: int| 0 <= j < new_runs.len() - 1 ==> new_runs[j] == old_runs[j]);
            }
        } else {
            runs.push(current_run);
            let next = data[i].clone();
            assert(strictly_cloned(data@[i as int], next));
            current_run = Run { value: next, count: 1 };
            proof {
                let new_runs = runs@.push(current_run);
                assert(new_runs.drop_last() =~= old_runs);
                assert(repeat(current_run.value, 1) =~= seq![data@[i as int]]);
                assert(data@.take(i + 1) =~= data@.take(i as int).push(data@[i as int]));
            }
        }
        i = i + 1;
    }
    runs.push(current_run);
    assert(data@.take(data.len() as int) =~= data@);
    Rle { runs }
}

/// Expands `rle` into the sequence it stands for.
pub fn decode<T: Clone>(rle: &Rle<T>) -> (data: Vec<T>)
    requires
        clone_is_identity::<T>(),
    ensures
        data@ == expand(rle.runs@),
{
    let mut data: Vec<T> = Vec::new();
    let mut r: usize = 0;
    while r < rle.runs.len()
        invariant
            clone_is_identity::<T>(),
            r <= rle.runs.len(),
            data@ == expand(rle.runs@.take(r as int)),
        decreases rle.runs.len() - r,
    {
        let run = &rle.runs[r];
        let ghost before = data@;
        let mut k: u32 = 0;
        while k < run.count
            invariant
                clone_is_identity::<T>(),
                k <= run.count,
                data@ == before + repeat(run.value, k as nat),
            decreases run.count - k,
        {
            let v = run.value.clone();
            assert(strictly_cloned(run.value, v));
            data.push(v);
            proof {
                lemma_repeat_push(run.value, k as nat);
                assert(data@ =~= before + repeat(run.value, (k + 1) as nat));
            }
            k = k + 1;
        }
        assert(rle.runs@.take(r + 1).drop_last() =~= rle.runs@.take(r as int));
        r = r + 1;
    }
    assert(rle.runs@.take(rle.runs.len() as int) =~= rle.runs@);
    data
}

proof fn lemma_canonical_drop_last<T>(runs: Seq<Run<T>>)
    requires
        is_canonical(runs),
        runs.len() > 0,
    ensures
        is_canonical(runs.drop_last()),
{
    let d = runs.drop_last();
    assert forall|i: int| 0 <= i < d.len() implies (#[trigger] d[i]).count >= 1 by {
        assert(d[i] == runs[i]);
    }
    assert forall|i: int| 0 <= i < d.len() - 1 implies (#[trigger] d[i]).value != d[i + 1].value by {
        assert(d[i] == runs[i]);
        assert(d[i + 1] == runs[i + 1]);
    }
}

proof fn lemma_expand_empty<T>(runs: Seq<Run<T>>)
    requires
        is_canonical(runs),
        expand(runs).len() == 0,
    ensures
        runs.len() == 0,
{
    if runs.len() > 0 {
        assert(runs[runs.len() - 1].count >= 1);
        assert(expand(runs).len() == expand(runs.drop_last()).len() + runs.last().count);
    }
}

/// The last block of equal elements of a canonical expansion is exactly
/// the last run.
proof fn lemma_last_block<T>(runs: Seq<Run<T>>)
    requires
        is_canonical(runs),
        runs.len() > 0,
    ensures
        expand(runs).len() >= runs.last().count,
        forall|k: int|
            expand(runs).len() - runs.last().count <= k < expand(runs).len() ==> #[trigger] expand(
                runs,
            )[k] == runs.last().value,
        runs.len() == 1 ==> expand(runs).len() == runs.last().count,
        runs.len() >= 2 ==> {
            &&& expand(runs).len() > runs.last().count
            &&& expand(runs)[expand(runs).len() - runs.last().count - 1] != runs.last().value
        },
{
    let d = runs.drop_last();
    let e = expand(runs);
    let c = runs.last().count as int;
    assert(e == expand(d) + repeat(runs.last().value, c as nat));
    assert forall|k: int| e.len() - c <= k < e.len() implies #[trigger] e[k] == runs.last().value by {
        assert(e[k] == repeat(runs.last().value, c as nat)[k - expand(d).len()]);
    }
    if runs.len() == 1 {
        assert(d.len() == 0);
    }
    if runs.len() >= 2 {
        lemma_canonical_drop_last(runs);
        let dd = d.drop_last();
        assert(d.last() == runs[runs.len() - 2]);
        assert(d.last().count >= 1);
        assert(expand(d) == expand(dd) + repeat(d.last().value, d.last().count as nat));
        let j = expand(d).len() - 1;
        assert(expand(d)[j] == repeat(d.last().value, d.last().count as nat)[j - expand(dd).len()]);
        assert(e[e.len() - c - 1] == expand(d)[j]);
        assert(runs[runs.len() - 2].value != runs[runs.len() - 1].value);
    }
}

/// A sequence has only one canonical run-length encoding.
pub proof fn law_canonical_encoding_unique<T>(a: Seq<Run<T>>, b: Seq<Run<T>>)
    requires
        is_canonical(a),
        is_canonical(b),
        expand(a) == expand(b),
    ensures
        a == b,
    decreases a.len() + b.len(),
{
    if a.len() == 0 {
        lemma_expand_empty(b);
        assert(a =~= b);
    } else if b.len() == 0 {
        lemma_expand_empty(a);
        assert(a =~= b);
    } else {
        let e = expand(a);
        lemma_last_block(a);
        lemma_last_block(b);
        let ca = a.last().count as int;
        let cb = b.last().count as int;
        assert(e[e.len() - 1] == a.last().value);
        assert(e[e.len() - 1] == b.last().value);
        if ca < cb {
            assert(a.len() >= 2);
            assert(e[e.len() - ca - 1] == b.last().value);
            assert(false);
        }
        if cb < ca {
            assert(b.len() >= 2);
            assert(e[e.len() - cb - 1] == a.last().value);
            assert(false);
        }
        let da = a.drop_last();
        let db = b.drop_last();
        assert(expand(da) =~= e.take(e.len() - ca));
        assert(expand(db) =~= e.take(e.len() - cb));
        lemma_canonical_drop_last(a);
        lemma_canonical_drop_last(b);
        law_canonical_encoding_unique(da, db);
        assert(a.last() == b.last());
        assert(a =~= b) by {
            assert forall|i: int| 0 <= i < a.len() implies a[i] == b[i] by {
                if i < a.len() - 1 {
                    assert(a[i] == da[i]);
                    assert(b[i] == db[i]);
                }
            }
        }
    }
}

/// Decoding an encoding gives back the encoded data.
pub proof fn law_decode_inverts_encode<T>(data: Seq<T>, runs: Seq<Run<T>>)
    requires
        encodes(runs, data),
    ensures
        expand(runs) == data,
{
}

/// Encoding the expansion of a canonical list of runs gives back that list.
pub proof fn law_encode_inverts_decode<T>(runs: Seq<Run<T>>, reencoded: Seq<Run<T>>)
    requires
        is_canonical(runs),
        encodes(reencoded, expand(runs)),
    ensures
        reencoded == runs,
{
    law_canonical_encoding_unique(reencoded, runs);
}

} // verus!
