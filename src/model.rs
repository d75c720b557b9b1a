//! The abstract behaviour of the adapter, as a state machine over sequences.
use vstd::prelude::*;

verus! {

/// What a caller can observe of an adapter: the elements handed out so far
/// (in order), the elements the source will still yield, and whether a call
/// of `next` has already found the source exhausted.
pub struct AdapterState<T> {
    pub returned: Seq<T>,
    pub remaining: Seq<T>,
    pub finished: bool,
}

/// The state of a fresh adapter over a source that yields `source`.
pub open spec fn initial<T>(source: Seq<T>) -> AdapterState<T> {
    AdapterState { returned: Seq::empty(), remaining: source, finished: false }
}

/// One call of `next`: it hands out the first remaining element; with none
/// left, it returns `None` and the state is finished from then on.
pub open spec fn step<T>(s: AdapterState<T>) -> (AdapterState<T>, Option<T>) {
    if s.remaining.len() > 0 {
        (
            AdapterState {
                returned: s.returned.push(s.remaining[0]),
                remaining: s.remaining.drop_first(),
                finished: false,
            },
            Some(s.remaining[0]),
        )
    } else {
        (AdapterState { returned: s.returned, remaining: s.remaining, finished: true }, None)
    }
}

/// What `peek` sees: the element the next call of `next` returns.
pub open spec fn peek_of<T>(s: AdapterState<T>) -> Option<T> {
    if s.remaining.len() > 0 {
        Some(s.remaining[0])
    } else {
        None
    }
}

/// What `prev` sees: the element handed out before the last one; once the
/// source was found exhausted, the last element handed out.
pub open spec fn prev_of<T>(s: AdapterState<T>) -> Option<T> {
    let n = s.returned.len();
    if s.finished {
        if n > 0 {
            Some(s.returned[n - 1])
        } else {
            None
        }
    } else if n >= 2 {
        Some(s.returned[n - 2])
    } else {
        None
    }
}

/// The state after `k` calls of `next`, starting from `s`.
pub open spec fn after<T>(s: AdapterState<T>, k: nat) -> AdapterState<T>
    decreases k,
{
    if k == 0 {
        s
    } else {
        step(after(s, (k - 1) as nat)).0
    }
}

/// What the call of `next` that follows `k` earlier calls returns, starting from `s`.
pub open spec fn result_after<T>(s: AdapterState<T>, k: nat) -> Option<T> {
    step(after(s, k)).1
}

/// `r` is `None` when `orig` is, and otherwise a clone of the element in `orig`.
pub open spec fn is_clone_of<T: Clone>(orig: Option<T>, r: Option<T>) -> bool {
    match orig {
        Some(x) => r is Some && cloned(x, r->0),
        None => r is None,
    }
}

/// The element a reference option points at, if any.
pub open spec fn deref_of<T>(r: Option<&T>) -> Option<T> {
    match r {
        Some(x) => Some(*x),
        None => None,
    }
}

/// After `k` calls of `next` on a fresh adapter over `source`: while `k` is
/// at most the length, the first `k` elements were returned and the rest are
/// to come; past it, all were returned and the end was reached.
proof fn lemma_after_initial<T>(source: Seq<T>, k: nat)
    ensures
        k <= source.len() ==> after(initial(source), k) == (AdapterState {
            returned: source.take(k as int),
            remaining: source.skip(k as int),
            finished: false,
        }),
        k > source.len() ==> after(initial(source), k) == (AdapterState {
            returned: source,
            remaining: Seq::<T>::empty(),
            finished: true,
        }),
    decreases k,
{
    if k == 0 {
        assert(source.take(0) =~= Seq::<T>::empty());
        assert(source.skip(0) =~= source);
    } else {
        lemma_after_initial(source, (k - 1) as nat);
        if k <= source.len() {
            assert(source.take(k - 1).push(source.skip(k - 1)[0]) =~= source.take(k as int));
            assert(source.skip(k - 1).drop_first() =~= source.skip(k as int));
        } else if k == source.len() + 1 {
            assert(source.take(source.len() as int) =~= source);
            assert(source.skip(source.len() as int) =~= Seq::<T>::empty());
        }
    }
}

/// Calling `next` once for each element of the source returns the elements
/// in order, and the call after those returns `None`.
pub proof fn lemma_yields_source_in_order<T>(source: Seq<T>)
    ensures
        forall|i: int|
            0 <= i < source.len() ==> #[trigger] result_after(initial(source), i as nat) == Some(
                source[i],
            ),
        result_after(initial(source), source.len()) is None,
{
    assert forall|i: int| 0 <= i < source.len() implies #[trigger] result_after(
        initial(source),
        i as nat,
    ) == Some(source[i]) by {
        lemma_after_initial(source, i as nat);
    }
    lemma_after_initial(source, source.len());
}

/// Right after the i-th call of `next`, for i from 2 to the length of the
/// source, `prev` reports what the (i-1)-th call returned, the element two
/// places before the next one.
pub proof fn lemma_prev_is_previous_result<T>(source: Seq<T>)
    ensures
        forall|i: nat|
            2 <= i <= source.len() ==> #[trigger] prev_of(after(initial(source), i))
                == result_after(initial(source), (i - 2) as nat) && prev_of(
                after(initial(source), i),
            ) == Some(source[i - 2]),
{
    assert forall|i: nat| 2 <= i <= source.len() implies #[trigger] prev_of(
        after(initial(source), i),
    ) == result_after(initial(source), (i - 2) as nat) && prev_of(after(initial(source), i))
        == Some(source[i - 2]) by {
        lemma_after_initial(source, i);
        lemma_after_initial(source, (i - 2) as nat);
    }
}

/// After the first call of `next` there is no previous element.
pub proof fn lemma_no_prev_after_first_call<T>(source: Seq<T>)
    ensures
        prev_of(after(initial(source), 1)) is None,
{
    lemma_after_initial(source, 1);
}

/// Every call of `next` made after the source's last element was returned
/// leaves `prev` reporting that last element, for good.
pub proof fn lemma_prev_frozen_at_end<T>(source: Seq<T>)
    requires
        source.len() > 0,
    ensures
        forall|k: nat|
            k > source.len() ==> #[trigger] prev_of(after(initial(source), k)) == Some(
                source.last(),
            ),
{
    assert forall|k: nat| k > source.len() implies #[trigger] prev_of(after(initial(source), k))
        == Some(source.last()) by {
        lemma_after_initial(source, k);
    }
}

/// Over an empty source, every call of `next` returns `None`, and `prev` and
/// `peek` report nothing, before and after any number of calls.
pub proof fn lemma_empty_source<T>(k: nat)
    ensures
        result_after(initial(Seq::<T>::empty()), k) is None,
        prev_of(after(initial(Seq::<T>::empty()), k)) is None,
        peek_of(after(initial(Seq::<T>::empty()), k)) is None,
{
    lemma_after_initial(Seq::<T>::empty(), k);
}

} // verus!
