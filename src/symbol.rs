use vstd::prelude::*;

verus! {

/// The number of buckets that iteration counts fall into.
pub const BUCKET_COUNT: usize = 9;

/// The inclusive upper bound of bucket `k`, for the eight bounded buckets
/// `0 <= k < 8`; the last bucket takes every count above the last bound.
pub open spec fn bucket_bound(k: int) -> int {
    if k == 0 {
        2
    } else if k == 1 {
        5
    } else if k == 2 {
        10
    } else if k == 3 {
        30
    } else if k == 4 {
        100
    } else if k == 5 {
        200
    } else if k == 6 {
        400
    } else {
        700
    }
}

/// The character drawn for bucket `k`.
pub open spec fn glyph(k: int) -> char {
    if k == 0 {
        ' '
    } else if k == 1 {
        '.'
    } else if k == 2 {
        '\u{2022}'
    } else if k == 3 {
        '*'
    } else if k == 4 {
        '+'
    } else if k == 5 {
        'x'
    } else if k == 6 {
        '$'
    } else if k == 7 {
        '#'
    } else {
        '%'
    }
}

/// Count `n` lies in bucket `k`: above the bound of the bucket before it (if
/// any) and at most the bucket's own bound (if it has one).
pub open spec fn in_bucket(n: int, k: int) -> bool {
    &&& 0 <= k < BUCKET_COUNT
    &&& (k == 0 || n > bucket_bound(k - 1))
    &&& (k == BUCKET_COUNT - 1 || n <= bucket_bound(k))
}

/// The first bucket whose bound is not below `n`, or the last bucket.
pub open spec fn bucket_of(n: int) -> int {
    if n <= 2 {
        0
    } else if n <= 5 {
        1
    } else if n <= 10 {
        2
    } else if n <= 30 {
        3
    } else if n <= 100 {
        4
    } else if n <= 200 {
        5
    } else if n <= 400 {
        6
    } else if n <= 700 {
        7
    } else {
        8
    }
}

/// The character shown for a pixel whose orbit took `n` iterations.
pub open spec fn symbol_of(n: int) -> char {
    glyph(bucket_of(n))
}

/// The buckets partition the counts: every non-negative count lies in exactly
/// one bucket, and distinct buckets draw distinct characters, so each count
/// maps to exactly one of the nine characters.
pub proof fn lemma_buckets_partition(n: int)
    requires
        n >= 0,
    ensures
        in_bucket(n, bucket_of(n)),
        forall|k: int| #[trigger] in_bucket(n, k) ==> k == bucket_of(n),
        forall|j: int, k: int|
            0 <= j < BUCKET_COUNT && 0 <= k < BUCKET_COUNT && j != k ==> #[trigger] glyph(j)
                != #[trigger] glyph(k),
        symbol_of(n) == glyph(bucket_of(n)),
{
}

/// The character for an iteration count: the buckets are scanned in
/// ascending order of their bounds and the first that admits `iters` wins.
pub fn to_symbol(iters: usize) -> (r: char)
    ensures
        r == symbol_of(iters as int),
{
    if iters <= 2 {
        ' '
    } else if iters <= 5 {
        '.'
    } else if iters <= 10 {
        '\u{2022}'
    } else if iters <= 30 {
        '*'
    } else if iters <= 100 {
        '+'
    } else if iters <= 200 {
        'x'
    } else if iters <= 400 {
        '$'
    } else if iters <= 700 {
        '#'
    } else {
        '%'
    }
}

} // verus!
