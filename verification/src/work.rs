//! Splitting a batch of work over a pool of workers.
//!
//! A manager that fans a data batch out to `workers` children gives each
//! child a stride of `len / workers` items and keeps the remainder for
//! itself; merging the children's partial sums in order gives exactly the
//! fold of the whole batch.

use vstd::prelude::*;

use vstd::arithmetic::div_mod::lemma_fundamental_div_mod;
use vstd::arithmetic::mul::lemma_mul_inequality;
use vstd::wrapping::u64_specs;

verus! {

/// Fold a sequence onto `acc` with wrapping 64-bit addition, left to
/// right.
pub open spec fn wrap_fold(s: Seq<u64>, acc: u64) -> u64
    decreases s.len(),
{
    if s.len() == 0 {
        acc
    } else {
        wrap_fold(s.skip(1), u64_specs::wrapping_add(acc, s[0]))
    }
}

/// Folding a concatenation folds the two parts in turn: merging partial
/// results in order is the fold of the whole.
pub proof fn lemma_wrap_fold_app(a: Seq<u64>, b: Seq<u64>, acc: u64)
    ensures
        wrap_fold(a + b, acc) == wrap_fold(b, wrap_fold(a, acc)),
    decreases a.len(),
{
    if a.len() == 0 {
        assert(a + b =~= b);
    } else {
        assert((a + b)[0] == a[0]);
        assert((a + b).skip(1) =~= a.skip(1) + b);
        lemma_wrap_fold_app(a.skip(1), b, u64_specs::wrapping_add(acc, a[0]));
    }
}

/// Fold `data[from..to)` onto `neutral` with wrapping addition.
pub fn wrapping_sum_range(data: &Vec<u64>, from: usize, to: usize, neutral: u64) -> (r: u64)
    requires
        from <= to <= data@.len(),
    ensures
        r == wrap_fold(data@.subrange(from as int, to as int), neutral),
{
    let mut acc = neutral;
    let mut i = from;
    while i < to
        invariant
            from <= i <= to <= data@.len(),
            wrap_fold(data@.subrange(i as int, to as int), acc) == wrap_fold(
                data@.subrange(from as int, to as int),
                neutral,
            ),
        decreases to - i,
    {
        proof {
            assert(data@.subrange(i as int, to as int)[0] == data@[i as int]);
            assert(data@.subrange(i as int, to as int).skip(1) =~= data@.subrange(
                i as int + 1,
                to as int,
            ));
        }
        acc = acc.wrapping_add(data[i]);
        i += 1;
    }
    proof {
        assert(data@.subrange(to as int, to as int) =~= Seq::<u64>::empty());
    }
    acc
}

/// The ranges handed to each of `workers` workers for a batch of `len`
/// items: worker `i` gets `[i * stride, (i + 1) * stride)` with
/// `stride == len / workers`; the manager keeps `[workers * stride, len)`
/// for itself. With no workers, the manager computes the whole batch
/// inline and the split is empty.
pub fn split_work(len: usize, workers: usize) -> (r: Vec<(usize, usize)>)
    ensures
        workers == 0 ==> r@.len() == 0,
        workers > 0 ==> {
            let stride = (len as int) / (workers as int);
            &&& r@.len() == workers
            &&& (forall|i: int|
                0 <= i < workers ==> (#[trigger] r@[i]).0 == i * stride && r@[i].1 == (i + 1)
                    * stride)
            &&& (workers as int) * stride <= len
        },
{
    let mut r: Vec<(usize, usize)> = Vec::new();
    if workers == 0 {
        return r;
    }
    let stride = len / workers;
    proof {
        lemma_fundamental_div_mod(len as int, workers as int);
    }
    let mut i: usize = 0;
    while i < workers
        invariant
            i <= workers,
            workers > 0,
            stride == (len as int) / (workers as int),
            (workers as int) * stride <= len,
            r@.len() == i,
            forall|j: int|
                0 <= j < i ==> (#[trigger] r@[j]).0 == j * stride && r@[j].1 == (j + 1) * stride,
        decreases workers - i,
    {
        proof {
            lemma_mul_inequality(i as int, workers as int, stride as int);
            lemma_mul_inequality(i as int + 1, workers as int, stride as int);
        }
        let lo = i * stride;
        let hi = (i + 1) * stride;
        r.push((lo, hi));
        i += 1;
    }
    r
}

/// The fan-out computation as the manager performs it: split the batch
/// over `workers` workers, fold each worker's range, merge the partial
/// sums in worker order, and fold the kept remainder last. The result is
/// exactly the wrapping fold of the whole batch onto `neutral`.
pub fn wrapping_sum_split(data: &Vec<u64>, workers: usize, neutral: u64) -> (r: u64)
    ensures
        r == wrap_fold(data@, neutral),
{
    let len = data.len();
    let parts = split_work(len, workers);
    let mut acc = neutral;
    let mut done: usize = 0;
    let mut p: usize = 0;
    while p < parts.len()
        invariant
            data@.len() == len,
            p <= parts@.len(),
            done <= len,
            workers == 0 ==> parts@.len() == 0,
            workers > 0 ==> {
                let stride = (len as int) / (workers as int);
                &&& parts@.len() == workers
                &&& (forall|i: int|
                    0 <= i < workers ==> (#[trigger] parts@[i]).0 == i * stride && parts@[i].1 == (
                    i + 1) * stride)
                &&& (workers as int) * stride <= len
                &&& done == p * stride
            },
            acc == wrap_fold(data@.subrange(0, done as int), neutral),
        decreases parts@.len() - p,
    {
        proof {
            let stride = (len as int) / (workers as int);
            lemma_mul_inequality(p as int + 1, workers as int, stride);
            assert((p as int + 1) * stride == p * stride + stride) by (nonlinear_arith);
        }
        let (lo, hi) = (parts[p].0, parts[p].1);
        let part = wrapping_sum_range(data, lo, hi, acc);
        proof {
            assert(data@.subrange(0, lo as int) + data@.subrange(lo as int, hi as int)
                =~= data@.subrange(0, hi as int));
            lemma_wrap_fold_app(
                data@.subrange(0, lo as int),
                data@.subrange(lo as int, hi as int),
                neutral,
            );
        }
        acc = part;
        done = hi;
        p += 1;
    }
    // the manager's own remainder
    let r = wrapping_sum_range(data, done, len, acc);
    proof {
        assert(data@.subrange(0, done as int) + data@.subrange(done as int, len as int)
            =~= data@.subrange(0, len as int));
        lemma_wrap_fold_app(
            data@.subrange(0, done as int),
            data@.subrange(done as int, len as int),
            neutral,
        );
        assert(data@.subrange(0, len as int) =~= data@);
    }
    r
}

} // verus!
