//! Value-level counterparts of the expression macros of the kernel's macro
//! utilities: the greatest and least of a list, counting, and identity.

use vstd::prelude::*;

verus! {

/// The value that `max!(..)` computes: the first element when it is at least
/// the greatest of the rest, else the greatest of the rest; `0` for no element.
pub open spec fn max_spec(s: Seq<usize>) -> usize
    decreases s.len(),
{
    if s.len() == 0 {
        0
    } else if s.len() == 1 {
        s[0]
    } else {
        let rest = max_spec(s.drop_first());
        if s[0] >= rest {
            s[0]
        } else {
            rest
        }
    }
}

/// The value that `min!(..)` computes: the first element when it is at most
/// the least of the rest, else the least of the rest; `0` for no element.
pub open spec fn min_spec(s: Seq<usize>) -> usize
    decreases s.len(),
{
    if s.len() == 0 {
        0
    } else if s.len() == 1 {
        s[0]
    } else {
        let rest = min_spec(s.drop_first());
        if s[0] <= rest {
            s[0]
        } else {
            rest
        }
    }
}

/// The greatest of the values, `0` when there is none.
pub fn max(values: &[usize]) -> (res: usize)
    ensures
        res == max_spec(values@),
{
    let n = values.len();
    if n == 0 {
        return 0;
    }
    let mut i: usize = n - 1;
    let mut acc = values[i];
    assert(values@.subrange(i as int, n as int) =~= seq![acc]);
    while i > 0
        invariant
            0 <= i < n,
            n == values@.len(),
            acc == max_spec(values@.subrange(i as int, n as int)),
        decreases i,
    {
        i -= 1;
        let x = values[i];
        let ghost s = values@.subrange(i as int, n as int);
        assert(s.drop_first() =~= values@.subrange(i + 1, n as int));
        if x >= acc {
            acc = x;
        }
    }
    assert(values@.subrange(0, n as int) =~= values@);
    acc
}

/// The least of the values, `0` when there is none.
pub fn min(values: &[usize]) -> (res: usize)
    ensures
        res == min_spec(values@),
{
    let n = values.len();
    if n == 0 {
        return 0;
    }
    let mut i: usize = n - 1;
    let mut acc = values[i];
    assert(values@.subrange(i as int, n as int) =~= seq![acc]);
    while i > 0
        invariant
            0 <= i < n,
            n == values@.len(),
            acc == min_spec(values@.subrange(i as int, n as int)),
        decreases i,
    {
        i -= 1;
        let x = values[i];
        let ghost s = values@.subrange(i as int, n as int);
        assert(s.drop_first() =~= values@.subrange(i + 1, n as int));
        if x <= acc {
            acc = x;
        }
    }
    assert(values@.subrange(0, n as int) =~= values@);
    acc
}

/// `static_max!(..)`: the same value as [`max`], for values known at compile time.
pub fn static_max(values: &[usize]) -> (res: usize)
    ensures
        res == max_spec(values@),
{
    max(values)
}

/// `static_min!(..)`: the same value as [`min`], for values known at compile time.
pub fn static_min(values: &[usize]) -> (res: usize)
    ensures
        res == min_spec(values@),
{
    min(values)
}

/// `count_exprs!(..)`: the number of expressions given.
pub fn count_exprs<T>(exprs: &[T]) -> (res: usize)
    ensures
        res == exprs@.len(),
{
    exprs.len()
}

/// `count_idents!(..)`: the number of identifiers given.
pub fn count_idents<T>(idents: &[T]) -> (res: usize)
    ensures
        res == idents@.len(),
{
    idents.len()
}

/// `identity_expand!(..)`: its input, unchanged.
pub fn identity_expand<T>(value: T) -> (res: T)
    ensures
        res == value,
{
    value
}

/// Of a non-empty list, the greatest value is one of its elements and is at
/// least every element.
pub proof fn lemma_max_is_greatest(s: Seq<usize>)
    requires
        s.len() > 0,
    ensures
        s.contains(max_spec(s)),
        forall|i: int| 0 <= i < s.len() ==> s[i] <= max_spec(s),
    decreases s.len(),
{
    if s.len() == 1 {
        assert(s[0] == max_spec(s));
    } else {
        let r = s.drop_first();
        lemma_max_is_greatest(r);
        assert forall|i: int| 0 <= i < s.len() implies s[i] <= max_spec(s) by {
            if i > 0 {
                assert(s[i] == r[i - 1]);
            }
        }
        if s[0] >= max_spec(r) {
            assert(s[0] == max_spec(s));
        } else {
            let j = choose|j: int| 0 <= j < r.len() && r[j] == max_spec(r);
            assert(s[j + 1] == max_spec(s));
        }
    }
}

/// Of a non-empty list, the least value is one of its elements and is at
/// most every element.
pub proof fn lemma_min_is_least(s: Seq<usize>)
    requires
        s.len() > 0,
    ensures
        s.contains(min_spec(s)),
        forall|i: int| 0 <= i < s.len() ==> min_spec(s) <= s[i],
    decreases s.len(),
{
    if s.len() == 1 {
        assert(s[0] == min_spec(s));
    } else {
        let r = s.drop_first();
        lemma_min_is_least(r);
        assert forall|i: int| 0 <= i < s.len() implies min_spec(s) <= s[i] by {
            if i > 0 {
                assert(s[i] == r[i - 1]);
            }
        }
        if s[0] <= min_spec(r) {
            assert(s[0] == min_spec(s));
        } else {
            let j = choose|j: int| 0 <= j < r.len() && r[j] == min_spec(r);
            assert(s[j + 1] == min_spec(s));
        }
    }
}

/// Hands the arguments to a callback, as `callback!(cb(args))` does.
pub fn callback<A, R, F: Fn(A) -> R>(cb: F, args: A) -> (res: R)
    requires
        call_requires(cb, (args,)),
    ensures
        call_ensures(cb, (args,), res),
{
    cb(args)
}

/// Hands each argument to the callback in turn, as `callback_foreach!`
/// does, and gives the results in order.
pub fn callback_foreach<A: Copy, R, F: Fn(A) -> R>(cb: F, args: &[A]) -> (res: Vec<R>)
    requires
        forall|i: int| 0 <= i < args@.len() ==> call_requires(cb, (#[trigger] args@[i],)),
    ensures
        res@.len() == args@.len(),
        forall|i: int| 0 <= i < args@.len() ==> call_ensures(cb, (#[trigger] args@[i],), res@[i]),
{
    let mut res: Vec<R> = Vec::new();
    let mut i: usize = 0;
    while i < args.len()
        invariant
            i <= args@.len(),
            res@.len() == i,
            forall|k: int| 0 <= k < args@.len() ==> call_requires(cb, (#[trigger] args@[k],)),
            forall|k: int| 0 <= k < i ==> call_ensures(cb, (#[trigger] args@[k],), res@[k]),
        decreases args@.len() - i,
    {
        let a = args[i];
        let r = cb(a);
        res.push(r);
        i += 1;
    }
    res
}

/// The number of elements of an array, as `array_size!` expands to.
pub fn array_size<T>(array: &[T]) -> (res: usize)
    ensures
        res == array@.len(),
{
    array.len()
}

/// An array of `len` elements, each the value of the initialiser, as
/// `constinit_array!([T; len] with init)` builds it.
pub fn constinit_array<T, F: Fn() -> T>(len: usize, init: F) -> (res: Vec<T>)
    requires
        call_requires(init, ()),
    ensures
        res@.len() == len,
        forall|i: int| 0 <= i < len ==> call_ensures(init, (), #[trigger] res@[i]),
{
    let mut res: Vec<T> = Vec::new();
    let mut i: usize = 0;
    while i < len
        invariant
            i <= len,
            res@.len() == i,
            call_requires(init, ()),
            forall|k: int| 0 <= k < i ==> call_ensures(init, (), #[trigger] res@[k]),
        decreases len - i,
    {
        let v = init();
        res.push(v);
        i += 1;
    }
    res
}

} // verus!
