//! The edit distance of two names, and the known name that is nearest to a
//! misspelt one.

use crate::config::names_view;
use crate::source::characters;
use vstd::prelude::*;
use vstd::string::*;

verus! {

pub open spec fn min3(x: nat, y: nat, z: nat) -> nat {
    if x <= y && x <= z {
        x
    } else if y <= z {
        y
    } else {
        z
    }
}

/// The least number of characters to insert, to delete or to replace to
/// turn the first `i` characters of `a` into the first `j` characters of `b`.
pub open spec fn distance_upto(a: Seq<char>, b: Seq<char>, i: nat, j: nat) -> nat
    decreases i + j,
{
    if i == 0 {
        j
    } else if j == 0 {
        i
    } else {
        let change: nat = if a[i - 1] == b[j - 1] {
            0
        } else {
            1
        };
        min3(
            distance_upto(a, b, (i - 1) as nat, j) + 1,
            distance_upto(a, b, i, (j - 1) as nat) + 1,
            distance_upto(a, b, (i - 1) as nat, (j - 1) as nat) + change,
        )
    }
}

/// The edit distance of `a` and `b`.
pub open spec fn distance(a: Seq<char>, b: Seq<char>) -> nat {
    distance_upto(a, b, a.len(), b.len())
}

/// The distance within which a name counts as a misspelling of `name`: a
/// third of its length, and one at the least.
pub open spec fn threshold(name: Seq<char>) -> nat {
    if name.len() < 3 {
        1
    } else {
        name.len() / 3
    }
}

/// The place of the name among the first `upto` of `names` that is nearest
/// to `name`, the first of them where several are, if it is within the threshold.
pub open spec fn nearest(names: Seq<Seq<char>>, name: Seq<char>, upto: int) -> Option<int>
    decreases upto,
{
    if upto <= 0 || upto > names.len() {
        None
    } else {
        let d = distance(name, names[upto - 1]);
        match nearest(names, name, upto - 1) {
            Some(k) => if d < distance(name, names[k]) {
                Some(upto - 1)
            } else {
                Some(k)
            },
            None => if d <= threshold(name) {
                Some(upto - 1)
            } else {
                None
            },
        }
    }
}

/// The name of `names` that `name` may be meant to be.
pub open spec fn suggestion(names: Seq<Seq<char>>, name: Seq<char>) -> Option<Seq<char>> {
    match nearest(names, name, names.len() as int) {
        Some(k) => Some(names[k]),
        None => None,
    }
}

proof fn lemma_distance_bound(a: Seq<char>, b: Seq<char>, i: nat, j: nat)
    ensures
        distance_upto(a, b, i, j) <= i + j,
    decreases i + j,
{
    if i > 0 && j > 0 {
        lemma_distance_bound(a, b, (i - 1) as nat, j);
        lemma_distance_bound(a, b, i, (j - 1) as nat);
        lemma_distance_bound(a, b, (i - 1) as nat, (j - 1) as nat);
    }
}

/// The edit distance of `a` and `b`.
pub fn edit_distance(a: &Vec<char>, b: &Vec<char>) -> (d: u128)
    ensures
        d == distance(a@, b@),
{
    let n = a.len();
    let m = b.len();
    let mut row: Vec<u128> = Vec::new();
    row.push(0);
    let mut j: usize = 0;
    while j < m
        invariant
            j <= m,
            m == b@.len(),
            row@.len() == j + 1,
            forall|k: int| 0 <= k <= j ==> #[trigger] row@[k] == distance_upto(a@, b@, 0, k as nat),
        decreases m - j,
    {
        j += 1;
        row.push(j as u128);
    }
    let mut i: usize = 0;
    while i < n
        invariant
            i <= n,
            n == a@.len(),
            m == b@.len(),
            row@.len() == m + 1,
            forall|k: int| 0 <= k <= m ==> #[trigger] row@[k] == distance_upto(a@, b@, i as nat, k as nat),
        decreases n - i,
    {
        let mut next: Vec<u128> = Vec::new();
        next.push(i as u128 + 1);
        let mut k: usize = 0;
        while k < m
            invariant
                k <= m,
                i < n,
                n == a@.len(),
                m == b@.len(),
                row@.len() == m + 1,
                next@.len() == k + 1,
                forall|c: int| 0 <= c <= m ==> #[trigger] row@[c] == distance_upto(a@, b@, i as nat, c as nat),
                forall|c: int| 0 <= c <= k ==> #[trigger] next@[c] == distance_upto(a@, b@, (i + 1) as nat, c as nat),
            decreases m - k,
        {
            proof {
                lemma_distance_bound(a@, b@, i as nat, (k + 1) as nat);
                lemma_distance_bound(a@, b@, (i + 1) as nat, k as nat);
                lemma_distance_bound(a@, b@, i as nat, k as nat);
            }
            let change: u128 = if a[i] == b[k] {
                0
            } else {
                1
            };
            let delete = row[k + 1] + 1;
            let insert = next[k] + 1;
            let replace = row[k] + change;
            let best = if delete <= insert && delete <= replace {
                delete
            } else if insert <= replace {
                insert
            } else {
                replace
            };
            next.push(best);
            k += 1;
        }
        row = next;
        i += 1;
    }
    row[m]
}

/// The name of `names` that `name` may be meant to be: the nearest one, if
/// it is within the threshold.
pub fn suggest(names: &Vec<String>, name: &str) -> (found: Option<usize>)
    ensures
        match found {
            Some(k) => k < names@.len() && nearest(names_view(names@), name@, names@.len() as int) == Some(
                k as int,
            ),
            None => nearest(names_view(names@), name@, names@.len() as int).is_none(),
        },
{
    let chars = characters(name);
    let limit: u128 = if chars.len() < 3 {
        1
    } else {
        (chars.len() / 3) as u128
    };
    let mut best: Option<(usize, u128)> = None;
    let mut i: usize = 0;
    while i < names.len()
        invariant
            i <= names@.len(),
            chars@ == name@,
            limit == threshold(name@),
            match best {
                Some((k, d)) => k < i && nearest(names_view(names@), name@, i as int) == Some(k as int) && d
                    == distance(name@, names_view(names@)[k as int]),
                None => nearest(names_view(names@), name@, i as int).is_none(),
            },
        decreases names@.len() - i,
    {
        let other = characters(names[i].as_str());
        assert(other@ == names_view(names@)[i as int]);
        let d = edit_distance(&chars, &other);
        best = match best {
            Some((k, least)) => if d < least {
                Some((i, d))
            } else {
                Some((k, least))
            },
            None => if d <= limit {
                Some((i, d))
            } else {
                None
            },
        };
        i += 1;
    }
    match best {
        Some((k, _)) => Some(k),
        None => None,
    }
}

} // verus!
