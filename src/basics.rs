//! Classic small functions: Fibonacci numbers, the first word of a string,
//! and the largest element of a slice.
use vstd::prelude::*;
use vstd::std_specs::cmp::PartialOrdSpec;
use core::cmp::Ordering;

verus! {

/// The Fibonacci numbers: 0, 1, 1, 2, 3, 5, ...
pub open spec fn fib_spec(n: nat) -> nat
    decreases n,
{
    if n == 0 {
        0
    } else if n == 1 {
        1
    } else {
        fib_spec((n - 1) as nat) + fib_spec((n - 2) as nat)
    }
}

proof fn lemma_fib_monotone(i: nat, j: nat)
    requires
        i <= j,
    ensures
        fib_spec(i) <= fib_spec(j),
    decreases j - i,
{
    if i < j {
        lemma_fib_monotone(i, (j - 1) as nat);
        if j >= 2 {
            assert(fib_spec(j) == fib_spec((j - 1) as nat) + fib_spec((j - 2) as nat));
        }
    }
}

/// The last Fibonacci number below `i32::MAX`, step by step.
proof fn lemma_fib_46()
    ensures
        fib_spec(46) == 1836311903,
{
    assert(fib_spec(0) == 0);
    assert(fib_spec(1) == 1);
    assert(fib_spec(2) == 1);
    assert(fib_spec(3) == 2);
    assert(fib_spec(4) == 3);
    assert(fib_spec(5) == 5);
    assert(fib_spec(6) == 8);
    assert(fib_spec(7) == 13);
    assert(fib_spec(8) == 21);
    assert(fib_spec(9) == 34);
    assert(fib_spec(10) == 55);
    assert(fib_spec(11) == 89);
    assert(fib_spec(12) == 144);
    assert(fib_spec(13) == 233);
    assert(fib_spec(14) == 377);
    assert(fib_spec(15) == 610);
    assert(fib_spec(16) == 987);
    assert(fib_spec(17) == 1597);
    assert(fib_spec(18) == 2584);
    assert(fib_spec(19) == 4181);
    assert(fib_spec(20) == 6765);
    assert(fib_spec(21) == 10946);
    assert(fib_spec(22) == 17711);
    assert(fib_spec(23) == 28657);
    assert(fib_spec(24) == 46368);
    assert(fib_spec(25) == 75025);
    assert(fib_spec(26) == 121393);
    assert(fib_spec(27) == 196418);
    assert(fib_spec(28) == 317811);
    assert(fib_spec(29) == 514229);
    assert(fib_spec(30) == 832040);
    assert(fib_spec(31) == 1346269);
    assert(fib_spec(32) == 2178309);
    assert(fib_spec(33) == 3524578);
    assert(fib_spec(34) == 5702887);
    assert(fib_spec(35) == 9227465);
    assert(fib_spec(36) == 14930352);
    assert(fib_spec(37) == 24157817);
    assert(fib_spec(38) == 39088169);
    assert(fib_spec(39) == 63245986);
    assert(fib_spec(40) == 102334155);
    assert(fib_spec(41) == 165580141);
    assert(fib_spec(42) == 267914296);
    assert(fib_spec(43) == 433494437);
    assert(fib_spec(44) == 701408733);
    assert(fib_spec(45) == 1134903170);
    assert(fib_spec(46) == 1836311903);
}

/// The largest index whose Fibonacci number fits in an `i32`.
pub const FIB_MAX_INDEX: i32 = 46;

/// The `n`-th Fibonacci number; a negative `n` gives 1.
pub fn fib(n: i32) -> (r: i32)
    requires
        n <= FIB_MAX_INDEX,
    ensures
        n >= 0 ==> r == fib_spec(n as nat),
        n < 0 ==> r == 1,
{
    if n == 0 {
        return 0;
    }
    proof {
        lemma_fib_46();
    }
    let mut x: i32 = 0;
    let mut y: i32 = 1;
    let mut k: i32 = 1;
    while k < n
        invariant
            1 <= k,
            n >= 1 ==> k <= n,
            n < 1 ==> k == 1,
            n <= 46,
            x == fib_spec((k - 1) as nat),
            y == fib_spec(k as nat),
            fib_spec(46) == 1836311903,
        decreases n - k,
    {
        proof {
            lemma_fib_monotone((k + 1) as nat, 46);
        }
        let z = x + y;
        x = y;
        y = z;
        k = k + 1;
    }
    y
}

/// Returns the part of `s` before its first space, or all of `s` where it
/// holds none.
#[allow(non_snake_case)]
pub fn findFirstWord(s: &str) -> (r: &str)
    ensures
        r@ == s@.take(r@.len() as int),
        forall|j: int| 0 <= j < r@.len() ==> s@[j] != ' ',
        r@.len() < s@.len() ==> s@[r@.len() as int] == ' ',
{
    let n = s.unicode_len();
    let mut i: usize = 0;
    while i < n
        invariant
            i <= n,
            n == s@.len(),
            forall|j: int| 0 <= j < i ==> s@[j] != ' ',
        decreases n - i,
    {
        if s.get_char(i) == ' ' {
            return s.substring_char(0, i);
        }
        i = i + 1;
    }
    s.substring_char(0, n)
}

/// The element a left-to-right scan keeps as largest: it starts at the
/// first element and moves to each element it finds strictly greater.
pub open spec fn largest_of<T: PartialOrd>(s: Seq<T>) -> T
    decreases s.len(),
{
    if s.len() <= 1 {
        s[0]
    } else {
        let m = largest_of(s.drop_last());
        if m.partial_cmp_spec(&s.last()) == Some(Ordering::Less) {
            s.last()
        } else {
            m
        }
    }
}

/// `<` is a strict order on `T`: irreflexive and transitive.
pub open spec fn less_is_strict_order<T: PartialOrd>() -> bool {
    &&& forall|x: T| #[trigger] x.partial_cmp_spec(&x) != Some(Ordering::Less)
    &&& forall|x: T, y: T, z: T|
        #[trigger] x.partial_cmp_spec(&y) == Some(Ordering::Less) && #[trigger] y.partial_cmp_spec(
            &z,
        ) == Some(Ordering::Less) ==> x.partial_cmp_spec(&z) == Some(Ordering::Less)
}

/// Where `<` is a strict order, no element of a non-empty sequence is greater
/// than what the scan keeps.
pub proof fn lemma_largest_is_maximal<T: PartialOrd>(s: Seq<T>)
    requires
        s.len() > 0,
        less_is_strict_order::<T>(),
    ensures
        forall|i: int|
            0 <= i < s.len() ==> largest_of(s).partial_cmp_spec(&#[trigger] s[i]) != Some(
                Ordering::Less,
            ),
    decreases s.len(),
{
    if s.len() == 1 {
        assert(largest_of(s) == s[0]);
    } else {
        let p = s.drop_last();
        lemma_largest_is_maximal(p);
        let m = largest_of(p);
        let last = s[s.len() - 1];
        assert forall|i: int| 0 <= i < s.len() implies largest_of(s).partial_cmp_spec(
            &#[trigger] s[i],
        ) != Some(Ordering::Less) by {
            if i < s.len() - 1 {
                assert(s[i] == p[i]);
                assert(m.partial_cmp_spec(&p[i]) != Some(Ordering::Less));
                if m.partial_cmp_spec(&last) == Some(Ordering::Less) {
                    if last.partial_cmp_spec(&s[i]) == Some(Ordering::Less) {
                        assert(m.partial_cmp_spec(&s[i]) == Some(Ordering::Less));
                    }
                }
            } else {
                assert(last.partial_cmp_spec(&last) != Some(Ordering::Less));
            }
        }
    }
}

/// The largest element of a non-empty slice, by the scan of `largest_of`.
pub fn find_largest<T: PartialOrd + Copy>(list: &[T]) -> (r: T)
    requires
        list@.len() > 0,
    ensures
        list@.contains(r),
        T::obeys_partial_cmp_spec() ==> r == largest_of(list@),
        T::obeys_partial_cmp_spec() && less_is_strict_order::<T>() ==> forall|i: int|
            0 <= i < list@.len() ==> r.partial_cmp_spec(&#[trigger] list@[i]) != Some(
                Ordering::Less,
            ),
{
    let mut largest = list[0];
    let mut i: usize = 1;
    assert(list@.take(1).drop_last().len() == 0);
    while i < list.len()
        invariant
            1 <= i <= list@.len(),
            list@.contains(largest),
            T::obeys_partial_cmp_spec() ==> largest == largest_of(list@.take(i as int)),
        decreases list@.len() - i,
    {
        let x = list[i];
        assert(list@.take(i as int + 1).drop_last() =~= list@.take(i as int));
        if largest < x {
            largest = x;
        }
        i = i + 1;
    }
    assert(list@.take(list@.len() as int) =~= list@);
    proof {
        if less_is_strict_order::<T>() {
            lemma_largest_is_maximal(list@);
        }
    }
    largest
}

/// A reference to the largest element of a non-empty slice, by the scan
/// of `largest_of`.
pub fn find_largest2<T: PartialOrd>(list: &[T]) -> (r: &T)
    requires
        list@.len() > 0,
    ensures
        list@.contains(*r),
        T::obeys_partial_cmp_spec() ==> *r == largest_of(list@),
        T::obeys_partial_cmp_spec() && less_is_strict_order::<T>() ==> forall|i: int|
            0 <= i < list@.len() ==> r.partial_cmp_spec(&#[trigger] list@[i]) != Some(
                Ordering::Less,
            ),
{
    let mut largest = &list[0];
    let mut i: usize = 1;
    assert(list@.take(1).drop_last().len() == 0);
    while i < list.len()
        invariant
            1 <= i <= list@.len(),
            list@.contains(*largest),
            T::obeys_partial_cmp_spec() ==> *largest == largest_of(list@.take(i as int)),
        decreases list@.len() - i,
    {
        let x = &list[i];
        assert(list@.take(i as int + 1).drop_last() =~= list@.take(i as int));
        if *largest < *x {
            largest = x;
        }
        i = i + 1;
    }
    assert(list@.take(list@.len() as int) =~= list@);
    proof {
        if less_is_strict_order::<T>() {
            lemma_largest_is_maximal(list@);
        }
    }
    largest
}

/// Does nothing: a program that reaches this point goes on normally.
pub fn test_panic() {
}

} // verus!
