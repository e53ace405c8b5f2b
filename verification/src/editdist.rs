//! Levenshtein edit distance between recognized text samples: the
//! similarity measure behind the cue assembler's merge-or-split decision.

use vstd::prelude::*;
use vstd::string::StrSliceExecFns;

verus! {

/// The smaller of two integers.
pub open spec fn spec_min(a: int, b: int) -> int {
    if a <= b {
        a
    } else {
        b
    }
}

/// The larger of two integers.
pub open spec fn spec_max(a: int, b: int) -> int {
    if a >= b {
        a
    } else {
        b
    }
}

/// Minimum number of single-character insertions, deletions and
/// substitutions that turn `a` into `b`.
pub open spec fn edit_distance(a: Seq<char>, b: Seq<char>) -> int
    decreases a.len() + b.len(),
{
    if a.len() == 0 {
        b.len() as int
    } else if b.len() == 0 {
        a.len() as int
    } else {
        let tail_cost: int = if a.last() == b.last() {
            0
        } else {
            1
        };
        spec_min(
            edit_distance(a.drop_last(), b) + 1,
            spec_min(
                edit_distance(a, b.drop_last()) + 1,
                edit_distance(a.drop_last(), b.drop_last()) + tail_cost,
            ),
        )
    }
}

/// The distance is non-negative and never exceeds the longer input's
/// length.
pub proof fn lemma_edit_distance_bounds(a: Seq<char>, b: Seq<char>)
    ensures
        0 <= edit_distance(a, b),
        edit_distance(a, b) <= spec_max(a.len() as int, b.len() as int),
    decreases a.len() + b.len(),
{
    if a.len() == 0 {
    } else if b.len() == 0 {
    } else {
        lemma_edit_distance_bounds(a.drop_last(), b);
        lemma_edit_distance_bounds(a, b.drop_last());
        lemma_edit_distance_bounds(a.drop_last(), b.drop_last());
    }
}

/// Unfolds the distance of two prefixes one cell at a time, as the
/// dynamic-programming table fills it in.
pub proof fn lemma_edit_distance_step(a: Seq<char>, b: Seq<char>, i: int, j: int)
    requires
        1 <= i <= a.len(),
        1 <= j <= b.len(),
    ensures
        edit_distance(a.take(i), b.take(j)) == spec_min(
            edit_distance(a.take(i - 1), b.take(j)) + 1,
            spec_min(
                edit_distance(a.take(i), b.take(j - 1)) + 1,
                edit_distance(a.take(i - 1), b.take(j - 1)) + (if a[i - 1] == b[j - 1] {
                    0int
                } else {
                    1int
                }),
            ),
        ),
{
    let ai = a.take(i);
    let bj = b.take(j);
    assert(ai.drop_last() =~= a.take(i - 1));
    assert(bj.drop_last() =~= b.take(j - 1));
    assert(ai.last() == a[i - 1]);
    assert(bj.last() == b[j - 1]);
}

/// The characters of `s`, in order, as a vector.
fn chars_vec(s: &str) -> (v: Vec<char>)
    ensures
        v@ == s@,
{
    let n = s.unicode_len();
    let mut v: Vec<char> = Vec::new();
    let mut i: usize = 0;
    while i < n
        invariant
            i <= n,
            n == s@.len(),
            v@.len() == i,
            forall|k: int| 0 <= k < i ==> v@[k] == s@[k],
        decreases n - i,
    {
        v.push(s.get_char(i));
        i += 1;
    }
    proof {
        assert(v@ =~= s@);
    }
    v
}

/// Edit distance between two strings, counted over characters.
pub fn edit_distance_string(a: &str, b: &str) -> (d: usize)
    ensures
        d == edit_distance(a@, b@),
{
    let av = chars_vec(a);
    let bv = chars_vec(b);
    let m = av.len();
    let n = bv.len();
    let mut prev: Vec<u128> = Vec::new();
    prev.push(0);
    let mut j0: usize = 0;
    while j0 < n
        invariant
            j0 <= n,
            prev@.len() == j0 + 1,
            n == b@.len(),
            forall|k: int| 0 <= k <= j0 ==> prev@[k] == edit_distance(a@.take(0), b@.take(k)),
        decreases n - j0,
    {
        proof {
            assert(a@.take(0).len() == 0);
            assert(b@.take(j0 + 1).len() == j0 + 1);
        }
        prev.push((j0 + 1) as u128);
        j0 += 1;
    }
    let mut i: usize = 0;
    while i < m
        invariant
            i <= m,
            prev@.len() == n + 1,
            m == a@.len(),
            n == b@.len(),
            av@ == a@,
            bv@ == b@,
            forall|k: int|
                0 <= k <= n ==> prev@[k] == edit_distance(a@.take(i as int), b@.take(k)),
        decreases m - i,
    {
        let ip = i + 1;
        let mut cur: Vec<u128> = Vec::new();
        proof {
            assert(b@.take(0).len() == 0);
            assert(a@.take(ip as int).len() == ip);
        }
        cur.push(ip as u128);
        let mut j: usize = 0;
        while j < n
            invariant
                j <= n,
                ip == i + 1,
                i < m,
                cur@.len() == j + 1,
                prev@.len() == n + 1,
                m == a@.len(),
                n == b@.len(),
                av@ == a@,
                bv@ == b@,
                forall|k: int|
                    0 <= k <= n ==> prev@[k] == edit_distance(a@.take(i as int), b@.take(k)),
                forall|k: int|
                    0 <= k <= j ==> cur@[k] == edit_distance(a@.take(ip as int), b@.take(k)),
            decreases n - j,
        {
            let cost: u128 = if av[i] == bv[j] {
                0
            } else {
                1
            };
            proof {
                lemma_edit_distance_bounds(a@.take(i as int), b@.take(j + 1));
                lemma_edit_distance_bounds(a@.take(ip as int), b@.take(j as int));
                lemma_edit_distance_bounds(a@.take(i as int), b@.take(j as int));
                lemma_edit_distance_step(a@, b@, ip as int, j + 1);
            }
            let d_del: u128 = prev[j + 1] + 1;
            let d_ins: u128 = cur[j] + 1;
            let d_sub: u128 = prev[j] + cost;
            let mut best: u128 = d_del;
            if d_ins < best {
                best = d_ins;
            }
            if d_sub < best {
                best = d_sub;
            }
            cur.push(best);
            j += 1;
        }
        prev = cur;
        i = ip;
    }
    proof {
        assert(a@.take(m as int) =~= a@);
        assert(b@.take(n as int) =~= b@);
        lemma_edit_distance_bounds(a@, b@);
    }
    let r = prev[n];
    r as usize
}

} // verus!
