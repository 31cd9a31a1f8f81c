//! Integer and text parts of the telemetry-log analyser: categorical counts and
//! flight-segment detection.

use vstd::prelude::*;
use vstd::string::StrSliceExecFns;

verus! {

/// The text of each cell.
pub open spec fn texts(values: Seq<String>) -> Seq<Seq<char>> {
    values.map_values(|v: String| v@)
}

/// Number of entries of `values` equal to `s`.
pub open spec fn count_in(values: Seq<Seq<char>>, s: Seq<char>) -> nat
    decreases values.len(),
{
    if values.len() == 0 {
        0
    } else {
        count_in(values.drop_last(), s) + if values.last() == s {
            1nat
        } else {
            0nat
        }
    }
}

/// `counts` tallies the non-empty entries of `values`: each non-empty value appears
/// exactly once, with the number of times it occurs, and nothing else appears.
pub open spec fn is_tally(counts: Seq<(String, usize)>, values: Seq<Seq<char>>) -> bool {
    &&& forall|i: int|
        0 <= i < counts.len() ==> {
            &&& (#[trigger] counts[i]).0@.len() > 0
            &&& counts[i].1 == count_in(values, counts[i].0@)
        }
    &&& forall|i: int, j: int|
        0 <= i < j < counts.len() ==> (#[trigger] counts[i]).0@ != (#[trigger] counts[j]).0@
    &&& forall|k: int|
        0 <= k < values.len() && (#[trigger] values[k]).len() > 0 ==> exists|i: int|
            0 <= i < counts.len() && (#[trigger] counts[i]).0@ == values[k]
}

/// Most frequent first.
pub open spec fn by_count_desc(counts: Seq<(String, usize)>) -> bool {
    forall|i: int, j: int| 0 <= i < j < counts.len() ==> (#[trigger] counts[i]).1 >= (
    #[trigger] counts[j]).1
}

proof fn lemma_count_le_len(values: Seq<Seq<char>>, s: Seq<char>)
    ensures
        count_in(values, s) <= values.len(),
    decreases values.len(),
{
    if values.len() > 0 {
        lemma_count_le_len(values.drop_last(), s);
    }
}

/// A tally of `pre` stays one of `pre.push(x)` when `x` is empty.
proof fn lemma_tally_skip_empty(counts: Seq<(String, usize)>, pre: Seq<Seq<char>>, x: Seq<char>)
    requires
        is_tally(counts, pre),
        x.len() == 0,
    ensures
        is_tally(counts, pre.push(x)),
{
    let post = pre.push(x);
    assert(post.drop_last() == pre);
    assert forall|j: int| 0 <= j < post.len() && (#[trigger] post[j]).len() > 0 implies exists|i: int|
        0 <= i < counts.len() && (#[trigger] counts[i]).0@ == post[j] by {
        assert(post[j] == pre[j]);
    }
}

/// Appending a first occurrence `x` with count 1 keeps a sorted tally sorted and exact.
proof fn lemma_tally_new_key(
    old_counts: Seq<(String, usize)>,
    counts: Seq<(String, usize)>,
    pre: Seq<Seq<char>>,
    x: Seq<char>,
    key: String,
)
    requires
        is_tally(old_counts, pre),
        by_count_desc(old_counts),
        forall|i: int| 0 <= i < old_counts.len() ==> (#[trigger] old_counts[i]).1 >= 1,
        forall|i: int| 0 <= i < old_counts.len() ==> (#[trigger] old_counts[i]).0@ != x,
        x.len() > 0,
        key@ == x,
        counts == old_counts.push((key, 1usize)),
    ensures
        is_tally(counts, pre.push(x)),
        by_count_desc(counts),
        forall|i: int| 0 <= i < counts.len() ==> (#[trigger] counts[i]).1 >= 1,
{
    let post = pre.push(x);
    assert(post.drop_last() == pre);
    assert(count_in(pre, x) == 0) by {
        if count_in(pre, x) > 0 {
            lemma_count_positive_has_witness(pre, x);
            let j = choose|j: int| 0 <= j < pre.len() && pre[j] == x;
            let oi = choose|oi: int|
                0 <= oi < old_counts.len() && (#[trigger] old_counts[oi]).0@ == pre[j];
            assert(old_counts[oi].0@ == x);
        }
    }
    assert forall|i: int| 0 <= i < counts.len() implies {
        &&& (#[trigger] counts[i]).0@.len() > 0
        &&& counts[i].1 == count_in(post, counts[i].0@)
    } by {
        if i < old_counts.len() {
            assert(counts[i] == old_counts[i]);
        }
    }
    assert forall|jj: int| 0 <= jj < post.len() && (#[trigger] post[jj]).len() > 0 implies exists|i: int|
        0 <= i < counts.len() && (#[trigger] counts[i]).0@ == post[jj] by {
        if jj == pre.len() {
            assert(counts[counts.len() - 1].0@ == post[jj]);
        } else {
            assert(post[jj] == pre[jj]);
            let oi = choose|oi: int|
                0 <= oi < old_counts.len() && (#[trigger] old_counts[oi]).0@ == pre[jj];
            assert(counts[oi] == old_counts[oi]);
        }
    }
}

/// The entry of a sorted tally at `p` whose key is `x`, bumped by one and moved
/// forward to `q` (past the entries that now count less), gives a sorted tally of
/// `pre.push(x)`.
proof fn lemma_tally_bump(
    old_counts: Seq<(String, usize)>,
    counts: Seq<(String, usize)>,
    pre: Seq<Seq<char>>,
    x: Seq<char>,
    key: String,
    p: int,
    q: int,
    nc: usize,
)
    requires
        is_tally(old_counts, pre),
        by_count_desc(old_counts),
        forall|i: int| 0 <= i < old_counts.len() ==> (#[trigger] old_counts[i]).1 >= 1,
        0 <= q <= p < old_counts.len(),
        old_counts[p].0@ == x,
        key@ == x,
        nc == old_counts[p].1 + 1,
        q == 0 || old_counts.remove(p)[q - 1].1 >= nc,
        forall|i: int| q <= i < p ==> (#[trigger] old_counts.remove(p)[i]).1 < nc,
        counts == old_counts.remove(p).insert(q, (key, nc)),
    ensures
        is_tally(counts, pre.push(x)),
        by_count_desc(counts),
        forall|i: int| 0 <= i < counts.len() ==> (#[trigger] counts[i]).1 >= 1,
{
    let post = pre.push(x);
    assert(post.drop_last() == pre);
    let mid = old_counts.remove(p);
    assert forall|i: int| 0 <= i < counts.len() implies #[trigger] counts[i] == if i < q {
        old_counts[i]
    } else if i == q {
        (key, nc)
    } else if i <= p {
        old_counts[i - 1]
    } else {
        old_counts[i]
    } by {
        if i < q {
            assert(counts[i] == mid[i]);
        } else if i > q {
            assert(counts[i] == mid[i - 1]);
        }
    }
    assert forall|i: int| 0 <= i < counts.len() implies {
        &&& (#[trigger] counts[i]).0@.len() > 0
        &&& counts[i].1 == count_in(post, counts[i].0@)
        &&& counts[i].1 >= 1
    } by {
        if i < q {
            assert(old_counts[i].0@ != x);
        } else if q < i <= p {
            assert(old_counts[i - 1].0@ != x);
        } else if i > p {
            assert(old_counts[i].0@ != x);
        }
    }
    assert forall|i: int, j: int| 0 <= i < j < counts.len() implies (#[trigger] counts[i]).0@
        != (#[trigger] counts[j]).0@ by {
        let oi = if i < q {
            i
        } else if i == q {
            p
        } else if i <= p {
            i - 1
        } else {
            i
        };
        let oj = if j < q {
            j
        } else if j == q {
            p
        } else if j <= p {
            j - 1
        } else {
            j
        };
        assert(counts[i].0@ == old_counts[oi].0@);
        assert(counts[j].0@ == old_counts[oj].0@);
        assert(oi != oj);
        if oi < oj {
            assert(old_counts[oi].0@ != old_counts[oj].0@);
        } else {
            assert(old_counts[oj].0@ != old_counts[oi].0@);
        }
    }
    assert forall|i: int, j: int| 0 <= i < j < counts.len() implies (#[trigger] counts[i]).1
        >= (#[trigger] counts[j]).1 by {
        if j == q {
            assert(mid[q - 1].1 >= nc);
            assert(mid[q - 1] == old_counts[q - 1]);
            assert(old_counts[i].1 >= old_counts[q - 1].1);
        } else if i == q {
            if j <= p {
                assert(mid[j - 1].1 < nc);
                assert(mid[j - 1] == old_counts[j - 1]);
            } else {
                assert(old_counts[p].1 >= old_counts[j].1);
            }
        } else {
            let oi = if i < q {
                i
            } else if i <= p {
                i - 1
            } else {
                i
            };
            let oj = if j < q {
                j
            } else if j <= p {
                j - 1
            } else {
                j
            };
            assert(oi <= oj);
            if oi < oj {
                assert(old_counts[oi].1 >= old_counts[oj].1);
            }
        }
    }
    assert forall|jj: int| 0 <= jj < post.len() && (#[trigger] post[jj]).len() > 0 implies exists|i: int|
        0 <= i < counts.len() && (#[trigger] counts[i]).0@ == post[jj] by {
        if jj == pre.len() {
            assert(counts[q].0@ == post[jj]);
        } else {
            assert(post[jj] == pre[jj]);
            let oi = choose|oi: int|
                0 <= oi < old_counts.len() && (#[trigger] old_counts[oi]).0@ == pre[jj];
            let ni = if oi < q {
                oi
            } else if oi == p {
                q
            } else if oi < p {
                oi + 1
            } else {
                oi
            };
            assert(counts[ni].0@ == old_counts[oi].0@);
        }
    }
}

/// Counts the non-empty values of a categorical column. Returns `(value, count)`
/// pairs, most frequent first, one for each distinct non-empty value that occurs
/// (so every count is at least 1); empty if the column holds no non-empty value.
pub fn count_categorical(values: &[String]) -> (r: Vec<(String, usize)>)
    ensures
        is_tally(r@, texts(values@)),
        by_count_desc(r@),
        forall|i: int| 0 <= i < r@.len() ==> (#[trigger] r@[i]).1 >= 1,
{
    let ghost vals = texts(values@);
    let mut counts: Vec<(String, usize)> = Vec::new();
    let n = values.len();
    let mut k: usize = 0;
    while k < n
        invariant
            n == values@.len(),
            vals == texts(values@),
            k <= n,
            is_tally(counts@, vals.take(k as int)),
            by_count_desc(counts@),
            forall|i: int| 0 <= i < counts@.len() ==> (#[trigger] counts@[i]).1 >= 1,
        decreases n - k,
    {
        let v = &values[k];
        let ghost pre = vals.take(k as int);
        proof {
            assert(vals.take(k + 1) == pre.push(v@));
        }
        if v.as_str().unicode_len() == 0 {
            proof {
                lemma_tally_skip_empty(counts@, pre, v@);
            }
        } else {
            let mut p: usize = 0;
            let mut found = false;
            while p < counts.len() && !found
                invariant
                    p <= counts@.len(),
                    found ==> p < counts@.len() && counts@[p as int].0@ == v@,
                    forall|i: int| 0 <= i < p ==> (#[trigger] counts@[i]).0@ != v@,
                decreases counts@.len() - p + if found {
                    0int
                } else {
                    1int
                },
            {
                if counts[p].0 == *v {
                    found = true;
                } else {
                    p += 1;
                }
            }
            if found {
                let ghost old_counts = counts@;
                proof {
                    lemma_count_le_len(pre, v@);
                }
                let (key, c) = counts.remove(p);
                let nc = c + 1;
                let mut q: usize = p;
                while q > 0 && counts[q - 1].1 < nc
                    invariant
                        q <= p,
                        p < old_counts.len(),
                        counts@ == old_counts.remove(p as int),
                        forall|i: int| q <= i < p ==> (#[trigger] counts@[i]).1 < nc,
                    decreases q,
                {
                    q -= 1;
                }
                counts.insert(q, (key, nc));
                proof {
                    lemma_tally_bump(old_counts, counts@, pre, v@, key, p as int, q as int, nc);
                }
            } else {
                let ghost old_counts = counts@;
                counts.push((v.clone(), 1));
                proof {
                    lemma_tally_new_key(old_counts, counts@, pre, v@, counts@.last().0);
                }
            }
        }
        k += 1;
    }
    proof {
        assert(vals.take(n as int) == vals);
    }
    counts
}

proof fn lemma_count_positive_has_witness(values: Seq<Seq<char>>, s: Seq<char>)
    requires
        count_in(values, s) > 0,
    ensures
        exists|j: int| 0 <= j < values.len() && values[j] == s,
    decreases values.len(),
{
    if values.last() == s {
        assert(values[values.len() - 1] == s);
    } else {
        lemma_count_positive_has_witness(values.drop_last(), s);
        let j = choose|j: int| 0 <= j < values.drop_last().len() && values.drop_last()[j] == s;
        assert(values[j] == s);
    }
}

/// Minimum number of samples for a sustained high-throttle window to count as a flight.
pub const MIN_FLIGHT_SAMPLES: usize = 20;

/// Whether `flags[s..s + l]` is a window of the sequence holding only `true`.
pub open spec fn all_true(flags: Seq<bool>, s: int, l: int) -> bool {
    &&& 0 <= s
    &&& 0 <= l
    &&& s + l <= flags.len()
    &&& forall|k: int| s <= k < s + l ==> #[trigger] flags[k]
}

/// `flags[s..s + l]` is a longest all-`true` window, and the first one of that length.
pub open spec fn earliest_longest_run(flags: Seq<bool>, s: int, l: int) -> bool {
    &&& all_true(flags, s, l)
    &&& forall|s2: int, l2: int| #[trigger] all_true(flags, s2, l2) ==> l2 <= l
    &&& forall|s2: int| 0 <= s2 < s ==> !#[trigger] all_true(flags, s2, l)
}

proof fn lemma_shorter_window(flags: Seq<bool>, s: int, l: int, l2: int)
    requires
        all_true(flags, s, l),
        0 <= l2 <= l,
    ensures
        all_true(flags, s, l2),
{
}

/// The sample indices of the longest contiguous run of `true` in `in_flight` (the
/// first such run when several are equally long), provided it holds at least
/// `MIN_FLIGHT_SAMPLES` samples; `None` when no run is that long.
///
/// `in_flight[i]` says whether sample `i` is closed-loop with throttle above the
/// flight threshold.
pub fn longest_flight_segment(in_flight: &[bool]) -> (r: Option<Vec<usize>>)
    ensures
        r is None <==> forall|s: int| !#[trigger] all_true(in_flight@, s, MIN_FLIGHT_SAMPLES as int),
        r matches Some(v) ==> {
            &&& v@.len() >= MIN_FLIGHT_SAMPLES
            &&& earliest_longest_run(in_flight@, v@[0] as int, v@.len() as int)
            &&& forall|i: int| 0 <= i < v@.len() ==> #[trigger] v@[i] == v@[0] + i
        },
{
    let ghost flags = in_flight@;
    let n = in_flight.len();
    let mut best_start: usize = 0;
    let mut best_len: usize = 0;
    let mut cur_start: usize = 0;
    let mut cur_len: usize = 0;
    let mut i: usize = 0;
    while i < n
        invariant
            n == flags.len(),
            flags == in_flight@,
            i <= n,
            cur_start + cur_len == i || cur_len == 0,
            cur_len > 0 ==> all_true(flags, cur_start as int, cur_len as int),
            cur_len > 0 ==> cur_start == 0 || !flags[cur_start - 1],
            cur_len == 0 ==> i == 0 || !flags[i - 1],
            all_true(flags, best_start as int, best_len as int),
            best_start + best_len <= (if cur_len > 0 { cur_start as int } else { i as int }),
            forall|s2: int, l2: int|
                #[trigger] all_true(flags, s2, l2) && s2 + l2 <= (if cur_len > 0 {
                    cur_start as int
                } else {
                    i as int
                }) ==> l2 <= best_len,
            forall|s2: int| 0 <= s2 < best_start ==> !#[trigger] all_true(flags, s2, best_len as int),
        decreases n - i,
    {
        if in_flight[i] {
            if cur_len == 0 {
                cur_start = i;
            }
            cur_len += 1;
        } else if cur_len > 0 {
            proof {
                assert forall|s2: int, l2: int|
                    #[trigger] all_true(flags, s2, l2) && s2 + l2 <= i + 1 implies l2 <= (if cur_len > best_len {
                        cur_len
                    } else {
                        best_len
                    }) by {
                    if l2 > 0 {
                        if s2 + l2 > cur_start {
                            if s2 < cur_start {
                                assert(flags[cur_start - 1]);
                            }
                            if s2 + l2 == i + 1 {
                                assert(flags[i as int]);
                            }
                        }
                    }
                }
                if cur_len > best_len {
                    assert forall|s2: int| 0 <= s2 < cur_start implies !#[trigger] all_true(flags, s2, cur_len as int) by {
                        if all_true(flags, s2, cur_len as int) {
                            if s2 + cur_len > cur_start {
                                assert(flags[cur_start - 1]);
                            }
                        }
                    }
                }
            }
            if cur_len > best_len {
                best_start = cur_start;
                best_len = cur_len;
            }
            cur_len = 0;
        } else {
            proof {
                assert forall|s2: int, l2: int|
                    #[trigger] all_true(flags, s2, l2) && s2 + l2 <= i + 1 implies l2 <= best_len by {
                    if l2 > 0 && s2 + l2 == i + 1 {
                        assert(flags[i as int]);
                    }
                }
            }
        }
        i += 1;
    }
    proof {
        if cur_len > 0 && cur_len > best_len {
            assert forall|s2: int| 0 <= s2 < cur_start implies !#[trigger] all_true(flags, s2, cur_len as int) by {
                if all_true(flags, s2, cur_len as int) {
                    if s2 + cur_len > cur_start {
                        assert(flags[cur_start - 1]);
                    }
                }
            }
        }
        assert forall|s2: int, l2: int| #[trigger] all_true(flags, s2, l2) implies l2 <= (if cur_len > best_len {
            cur_len
        } else {
            best_len
        }) by {
            if l2 > 0 && cur_len > 0 && s2 + l2 > cur_start && s2 < cur_start {
                assert(flags[cur_start - 1]);
            }
        }
    }
    if cur_len > best_len {
        best_start = cur_start;
        best_len = cur_len;
    }
    if best_len < MIN_FLIGHT_SAMPLES {
        proof {
            assert forall|s: int| !#[trigger] all_true(flags, s, MIN_FLIGHT_SAMPLES as int) by {
                if all_true(flags, s, MIN_FLIGHT_SAMPLES as int) {
                    assert(MIN_FLIGHT_SAMPLES <= best_len);
                }
            }
        }
        return None;
    }
    let mut v: Vec<usize> = Vec::new();
    let mut j: usize = 0;
    while j < best_len
        invariant
            j <= best_len,
            best_start + best_len <= n,
            v@.len() == j,
            forall|t: int| 0 <= t < j ==> #[trigger] v@[t] == best_start + t,
        decreases best_len - j,
    {
        v.push(best_start + j);
        j += 1;
    }
    proof {
        lemma_shorter_window(flags, best_start as int, best_len as int, MIN_FLIGHT_SAMPLES as int);
        assert(v@[0] == best_start);
    }
    Some(v)
}

} // verus!
