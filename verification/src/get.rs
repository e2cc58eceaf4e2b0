//! The decisions of GET requests to the jolpica-f1 API: which pages of a multi-page response to
//! request, and when to retry a request that failed with an HTTP error. The requests themselves
//! are made by the caller, which hands the results to these functions.

use vstd::prelude::*;

use crate::error::{F1Error, Result};
use crate::response::{following_page, last_page, Pagination};

verus! {

/// Whether `pages` are the pages of a response from `first` on: `first`, then each the page that
/// follows the one before it, up to the last page.
pub open spec fn is_page_sequence(pages: Seq<Pagination>, first: Pagination) -> bool {
    &&& pages.len() >= 1
    &&& pages[0] == first
    &&& forall|i: int| 0 <= i < pages.len() - 1 ==> following_page(#[trigger] pages[i]) == Some(pages[i + 1])
    &&& following_page(pages.last()) is None
}

/// Whether the pages from `first` on can be listed in a finite number: the limit is not zero
/// unless `first` is the last page.
pub open spec fn plannable(first: Pagination) -> bool {
    first.limit > 0 || last_page(first)
}

/// Whether the pages from `first` on can be listed, see [`plannable`].
pub fn is_plannable(first: Pagination) -> (r: bool)
    ensures
        r == plannable(first),
{
    first.limit > 0 || first.offset as u64 + first.limit as u64 >= first.total as u64
}

/// Lists the pages of a response from the page of `first` on, e.g. from the pagination of the
/// first page that was requested, up to the last page; [`F1Error::ExceededMaxPageCount`], with
/// the number of pages and `max_page_count`, if there are more than `max_page_count`.
pub fn multi_page_plan(first: Pagination, max_page_count: Option<usize>) -> (r: Result<
    Vec<Pagination>,
>)
    requires
        plannable(first),
    ensures
        match r {
            Ok(pages) => is_page_sequence(pages@, first) && (max_page_count matches Some(m)
                ==> pages@.len() <= m),
            Err(e) => exists|pages: Seq<Pagination>|
                #![trigger is_page_sequence(pages, first)]
                {
                    &&& is_page_sequence(pages, first)
                    &&& max_page_count matches Some(m)
                    &&& m < pages.len()
                    &&& e == F1Error::ExceededMaxPageCount((pages.len() as usize, m))
                },
        },
{
    let mut pages: Vec<Pagination> = Vec::new();
    pages.push(first);
    let mut current = first;
    loop
        invariant
            plannable(first),
            pages@.len() >= 1,
            pages@[0] == first,
            current == pages@.last(),
            current.limit == first.limit,
            current.total == first.total,
            pages@.len() > 1 ==> current.offset < current.total,
            forall|i: int|
                0 <= i < pages@.len() - 1 ==> following_page(#[trigger] pages@[i]) == Some(
                    pages@[i + 1],
                ),
        ensures
            is_page_sequence(pages@, first),
        decreases (if last_page(current) { 0 } else { current.total - current.offset }),
    {
        if current.offset as u64 + current.limit as u64 >= current.total as u64 {
            break;
        }
        let next = Pagination { limit: current.limit, offset: current.offset + current.limit, total: current.total };
        pages.push(next);
        current = next;
    }
    match max_page_count {
        Some(max) => {
            if pages.len() > max {
                return Err(F1Error::ExceededMaxPageCount((pages.len(), max)));
            }
        },
        None => {},
    }
    Ok(pages)
}

/// The number of retries that `max_retries` allows: none when it is `None`.
pub open spec fn retries_allowed(max_retries: Option<usize>) -> usize {
    match max_retries {
        Some(n) => n,
        None => 0,
    }
}

/// Whether `x` is an [`F1Error::Http`] error.
pub open spec fn is_http_error<T>(x: Result<T>) -> bool {
    x matches Err(F1Error::Http(_))
}

/// Whether `results`, the results of the calls of a function in the order they were made, are
/// the calls that [`retry_on_http_error`] makes with `max_retries` retries, and `r` is what it
/// then returns. Every call but the last failed with an HTTP error. Without retries there is one
/// call, whose result is returned. Otherwise the calls go on until one does not fail with an HTTP
/// error, whose result is returned, or until `max_retries + 1` calls all failed with one, when
/// [`F1Error::HttpRetries`] holds `max_retries` and the last HTTP error.
pub open spec fn retry_outcome<T>(results: Seq<Result<T>>, max_retries: usize, r: Result<T>) -> bool {
    &&& results.len() >= 1
    &&& forall|j: int| 0 <= j < results.len() - 1 ==> is_http_error(#[trigger] results[j])
    &&& if max_retries == 0 {
        results.len() == 1 && r == results[0]
    } else if is_http_error(results.last()) {
        &&& results.len() == max_retries + 1
        &&& results.last() matches Err(F1Error::Http(e))
        &&& r == Err::<T, F1Error>(F1Error::HttpRetries((max_retries, e)))
    } else {
        results.len() <= max_retries + 1 && r == results.last()
    }
}

/// Runs `f`, and runs it again while it fails with [`F1Error::Http`], at most `max_retries` more
/// times (none when `max_retries` is `None`). `f` is given the number of the attempt, from 0 for
/// the first call, so that each result is tied to the call that gave it. The first result that
/// is not an HTTP error is returned as it is. Without retries, an HTTP error is returned as it is
/// too; when every retry failed with an HTTP error, [`F1Error::HttpRetries`] holds the number of
/// retries and the last error.
pub fn retry_on_http_error<T, F>(f: F, max_retries: Option<usize>) -> (r: Result<T>)
    where
        F: Fn(usize) -> Result<T>,
    requires
        forall|j: usize| call_requires(f, (j,)),
    ensures
        exists|results: Seq<Result<T>>|
            #[trigger] retry_outcome(results, retries_allowed(max_retries), r) && forall|j: int|
                0 <= j < results.len() ==> call_ensures(f, (j as usize,), #[trigger] results[j]),
{
    let n: usize = match max_retries {
        Some(n) => n,
        None => 0,
    };
    assert(retries_allowed(max_retries) == n);
    let first = f(0);
    let ghost mut results: Seq<Result<T>> = seq![first];
    assert(results[0] == first);
    if n == 0 {
        assert(retry_outcome(results, n, first));
        return first;
    }
    let mut last = match first {
        Err(F1Error::Http(e)) => e,
        other => {
            assert(retry_outcome(results, n, other));
            return other;
        },
    };
    let mut attempt: usize = 0;
    while attempt < n
        invariant
            forall|j: usize| call_requires(f, (j,)),
            retries_allowed(max_retries) == n,
            0 < n,
            attempt <= n,
            results.len() == attempt + 1,
            forall|j: int| 0 <= j < results.len() ==> is_http_error(#[trigger] results[j]),
            forall|j: int|
                0 <= j < results.len() ==> call_ensures(f, (j as usize,), #[trigger] results[j]),
            results.last() == Err::<T, F1Error>(F1Error::Http(last)),
        decreases n - attempt,
    {
        let result = f(attempt + 1);
        proof {
            let ghost before = results;
            results = results.push(result);
            assert forall|j: int| 0 <= j < results.len() implies call_ensures(
                f,
                (j as usize,),
                #[trigger] results[j],
            ) && (j < before.len() ==> is_http_error(results[j])) by {
                if j < before.len() {
                    assert(results[j] == before[j]);
                }
            }
        }
        match result {
            Err(F1Error::Http(e)) => {
                last = e;
            },
            other => {
                assert(retry_outcome(results, n, other));
                return other;
            },
        }
        attempt = attempt + 1;
    }
    let r = Err(F1Error::HttpRetries((n, last)));
    assert(retry_outcome(results, n, r));
    r
}

/// When retries are allowed and the last call failed with an HTTP error, every retry was made:
/// there were `max_retries + 1` calls, and the result is [`F1Error::HttpRetries`] with
/// `max_retries`, e.g. four calls for three retries.
pub proof fn law_retries_exhausted<T>(results: Seq<Result<T>>, max_retries: usize, r: Result<T>)
    requires
        retry_outcome(results, max_retries, r),
        max_retries > 0,
        is_http_error(results.last()),
    ensures
        results.len() == max_retries + 1,
        r matches Err(F1Error::HttpRetries((n, _))) && n == max_retries,
{
}

/// A call whose result is not an HTTP error is the last call, and its result is the one
/// returned.
pub proof fn law_retry_returns_first_non_http<T>(results: Seq<Result<T>>, max_retries: usize, r: Result<T>, k: int)
    requires
        retry_outcome(results, max_retries, r),
        0 <= k < results.len(),
        !is_http_error(results[k]),
    ensures
        k == results.len() - 1,
        r == results[k],
{
}

/// The pages of a page sequence all have the limit and total of the first, and each starts where
/// the pages before it end: page `i` starts `i` limits after the first.
pub proof fn lemma_page_sequence_offsets(pages: Seq<Pagination>, first: Pagination)
    requires
        is_page_sequence(pages, first),
    ensures
        forall|i: int|
            0 <= i < pages.len() ==> (#[trigger] pages[i]).limit == first.limit && pages[i].total
                == first.total && pages[i].offset == first.offset + i * first.limit,
        forall|i: int| 0 <= i < pages.len() - 1 ==> !last_page(#[trigger] pages[i]),
        last_page(pages.last()),
{
    assert forall|i: int| 0 <= i < pages.len() implies (#[trigger] pages[i]).limit == first.limit
        && pages[i].total == first.total && pages[i].offset == first.offset + i * first.limit by {
        lemma_page_sequence_offset_at(pages, first, i);
    }
}

/// Page `i` of a page sequence starts `i` limits after the first.
proof fn lemma_page_sequence_offset_at(pages: Seq<Pagination>, first: Pagination, i: int)
    requires
        is_page_sequence(pages, first),
        0 <= i < pages.len(),
    ensures
        pages[i].limit == first.limit,
        pages[i].total == first.total,
        pages[i].offset == first.offset + i * first.limit,
    decreases i,
{
    if i > 0 {
        lemma_page_sequence_offset_at(pages, first, i - 1);
        assert(following_page(pages[i - 1]) == Some(pages[i]));
        assert(first.offset + (i - 1) * first.limit + first.limit == first.offset + i * first.limit)
            by (nonlinear_arith);
    }
}

/// The pages of a response listed from its first page cover all its items: together they reach
/// at least its total, e.g. the pages of a response of 25 items with a limit of 10 hold 30 items
/// at most, from offset 0.
pub proof fn law_page_sequence_covers_total(pages: Seq<Pagination>, first: Pagination)
    requires
        is_page_sequence(pages, first),
    ensures
        first.offset + pages.len() * first.limit >= first.total,
        pages.len() > 1 ==> first.offset + (pages.len() - 1) * first.limit < first.total,
{
    lemma_page_sequence_offsets(pages, first);
    let n = pages.len() as int;
    assert(pages[n - 1].offset == first.offset + (n - 1) * first.limit);
    assert(first.offset + (n - 1) * first.limit + first.limit == first.offset + n * first.limit)
        by (nonlinear_arith);
    if n > 1 {
        assert(!last_page(pages[n - 2]));
        assert(pages[n - 2].offset == first.offset + (n - 2) * first.limit);
        assert(first.offset + (n - 2) * first.limit + first.limit == first.offset + (n - 1)
            * first.limit) by (nonlinear_arith);
    }
}

} // verus!
