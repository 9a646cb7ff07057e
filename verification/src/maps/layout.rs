//! Layout rules for the fields of a data model: every address is used
//! once, and register models without gaps cover one contiguous range.

use vstd::prelude::*;

verus! {

/// Why a list of field addresses does not make a valid model.
#[derive(Debug, Clone, Copy, PartialEq, Eq, Structural)]
pub enum LayoutError {
    /// The fields at positions `first < second` share `address`.
    DuplicateAddress { first: usize, second: usize, address: u16 },
    /// In ascending order the addresses jump from `current` to `next`.
    Gap { current: u16, next: u16 },
    /// A register model needs at least one field.
    Empty,
}

/// No address occurs twice.
pub open spec fn distinct_addrs(s: Seq<u16>) -> bool {
    forall|i: int, j: int| 0 <= i < j < s.len() ==> s[i] != s[j]
}

/// Positions `i < j` hold the same address.
pub open spec fn is_dup_pair(s: Seq<u16>, i: int, j: int) -> bool {
    0 <= i < j < s.len() && s[i] == s[j]
}

/// `(i, j)` is the first pair of positions holding one address, in the
/// order in which the fields are compared: by `i`, then by `j`.
pub open spec fn is_first_dup_pair(s: Seq<u16>, i: int, j: int) -> bool {
    &&& is_dup_pair(s, i, j)
    &&& forall|i2: int, j2: int| #[trigger] is_dup_pair(s, i2, j2) ==> i < i2 || (i == i2 && j <= j2)
}

/// Every address between two used addresses is used too.
pub open spec fn contiguous(s: Seq<u16>) -> bool {
    forall|x: u16, y: u16, a: u16| s.contains(x) && s.contains(y) && x <= a <= y ==> s.contains(a)
}

/// In ascending order, the first jump between neighbouring addresses goes
/// from `current` to `next`: every address from the smallest one up to
/// `current` is used, and `next` is the smallest used address above it.
pub open spec fn is_first_gap(s: Seq<u16>, current: u16, next: u16) -> bool {
    &&& s.contains(current)
    &&& s.contains(next)
    &&& current < next
    &&& next != current + 1
    &&& forall|x: u16, a: u16| s.contains(x) && x <= a <= current ==> s.contains(a)
    &&& forall|x: u16| s.contains(x) && x > current ==> x >= next
}

/// Whether `a` occurs in `s`.
pub fn contains_addr(s: &[u16], a: u16) -> (r: bool)
    ensures
        r == s@.contains(a),
{
    let mut i: usize = 0;
    while i < s.len()
        invariant
            i <= s@.len(),
            forall|j: int| 0 <= j < i ==> s@[j] != a,
        decreases s@.len() - i,
    {
        if s[i] == a {
            return true;
        }
        i = i + 1;
    }
    false
}

/// The first pair of fields that share an address, comparing each field
/// with every later one in declaration order.
pub fn find_duplicate(s: &[u16]) -> (r: Option<(usize, usize)>)
    ensures
        r is None <==> distinct_addrs(s@),
        r matches Some((i, j)) ==> is_first_dup_pair(s@, i as int, j as int),
{
    let mut i: usize = 0;
    while i < s.len()
        invariant
            i <= s@.len(),
            forall|i2: int, j2: int| 0 <= i2 < i && i2 < j2 < s@.len() ==> s@[i2] != s@[j2],
        decreases s@.len() - i,
    {
        let mut j: usize = i + 1;
        while j < s.len()
            invariant
                i < s@.len(),
                i + 1 <= j <= s@.len(),
                forall|i2: int, j2: int| 0 <= i2 < i && i2 < j2 < s@.len() ==> s@[i2] != s@[j2],
                forall|j2: int| i < j2 < j ==> s@[i as int] != s@[j2],
            decreases s@.len() - j,
        {
            if s[i] == s[j] {
                proof {
                    assert forall|i2: int, j2: int| #[trigger] is_dup_pair(s@, i2, j2) implies i < i2 || (
                    i == i2 && j <= j2) by {
                        if i2 < i {
                        } else if i2 == i {
                        }
                    }
                }
                return Some((i, j));
            }
            j = j + 1;
        }
        i = i + 1;
    }
    None
}

/// The smallest address of a non-empty list.
fn min_addr(s: &[u16]) -> (r: u16)
    requires
        s@.len() > 0,
    ensures
        s@.contains(r),
        forall|x: u16| s@.contains(x) ==> r <= x,
{
    let mut m: u16 = s[0];
    let mut i: usize = 1;
    while i < s.len()
        invariant
            1 <= i <= s@.len(),
            exists|k: int| 0 <= k < i && s@[k] == m,
            forall|k: int| 0 <= k < i ==> m <= s@[k],
        decreases s@.len() - i,
    {
        if s[i] < m {
            m = s[i];
        }
        i = i + 1;
    }
    m
}

/// The smallest address above `bound`, if any.
fn min_addr_above(s: &[u16], bound: u16) -> (r: Option<u16>)
    ensures
        r is None <==> (forall|x: u16| s@.contains(x) ==> x <= bound),
        r matches Some(n) ==> s@.contains(n) && n > bound && (forall|x: u16| s@.contains(x) && x > bound ==> n <= x),
{
    let mut best: Option<u16> = None;
    let mut i: usize = 0;
    while i < s.len()
        invariant
            i <= s@.len(),
            best is None ==> forall|k: int| 0 <= k < i ==> s@[k] <= bound,
            best matches Some(n) ==> (exists|k: int| 0 <= k < i && s@[k] == n) && n > bound && (forall|k: int|
                0 <= k < i && s@[k] > bound ==> n <= s@[k]),
        decreases s@.len() - i,
    {
        let x = s[i];
        if x > bound {
            match best {
                None => {
                    best = Some(x);
                },
                Some(n) => {
                    if x < n {
                        best = Some(x);
                    }
                },
            }
        }
        i = i + 1;
    }
    proof {
        if best is None {
            assert forall|x: u16| s@.contains(x) implies x <= bound by {
                let k = choose|k: int| 0 <= k < s@.len() && s@[k] == x;
            }
        } else {
            let n = best->0;
            let k0 = choose|k: int| 0 <= k < s@.len() && s@[k] == n;
            assert(s@[k0] == n);
            assert(s@.contains(n));
            assert forall|x: u16| s@.contains(x) && x > bound implies n <= x by {
                let k = choose|k: int| 0 <= k < s@.len() && s@[k] == x;
            }
        }
    }
    best
}

/// The first jump in the ascending order of a list of distinct addresses,
/// or `None` when they cover one contiguous range.
pub fn find_gap(s: &[u16]) -> (r: Option<(u16, u16)>)
    requires
        distinct_addrs(s@),
    ensures
        r is None <==> contiguous(s@),
        r matches Some((current, next)) ==> is_first_gap(s@, current, next),
{
    if s.len() == 0 {
        return None;
    }
    let lo = min_addr(s);
    let mut current: u16 = lo;
    while current < u16::MAX && contains_addr(s, current + 1)
        invariant
            lo <= current,
            s@.contains(lo),
            forall|x: u16| s@.contains(x) ==> lo <= x,
            forall|a: u16| lo <= a <= current ==> s@.contains(a),
        decreases u16::MAX - current,
    {
        current = current + 1;
    }
    assert(current == u16::MAX || !s@.contains((current + 1) as u16));
    match min_addr_above(s, current) {
        None => {
            assert forall|x: u16, y: u16, a: u16| s@.contains(x) && s@.contains(y) && x <= a <= y implies s@.contains(a) by {
                assert(lo <= x);
                assert(y <= current);
            }
            None
        },
        Some(next) => {
            assert(s@.contains(current));
            assert(next != current + 1);
            assert(!contiguous(s@)) by {
                assert(lo <= current + 1 <= next);
                assert(!s@.contains((current + 1) as u16));
            }
            assert forall|x: u16, a: u16| s@.contains(x) && x <= a <= current implies s@.contains(a) by {
                assert(lo <= x);
            }
            Some((current, next))
        },
    }
}

/// The verdict on the field addresses of a register model: duplicates are
/// refused first, then gaps unless `allow_gaps`, then an empty model.
pub open spec fn register_layout_ok(s: Seq<u16>, allow_gaps: bool) -> bool {
    distinct_addrs(s) && (allow_gaps || contiguous(s)) && s.len() > 0
}

/// Checks the field addresses of a register model.
pub fn check_register_layout(addrs: &[u16], allow_gaps: bool) -> (r: Result<(), LayoutError>)
    ensures
        r is Ok <==> register_layout_ok(addrs@, allow_gaps),
        r matches Err(LayoutError::DuplicateAddress { first, second, address }) ==> is_first_dup_pair(
            addrs@,
            first as int,
            second as int,
        ) && address == addrs@[first as int],
        r matches Err(LayoutError::Gap { current, next }) ==> distinct_addrs(addrs@) && !allow_gaps
            && is_first_gap(addrs@, current, next),
        r == Err::<(), LayoutError>(LayoutError::Empty) <==> (distinct_addrs(addrs@) && (allow_gaps
            || contiguous(addrs@)) && addrs@.len() == 0),
        !distinct_addrs(addrs@) ==> r matches Err(LayoutError::DuplicateAddress { .. }),
        distinct_addrs(addrs@) && !allow_gaps && !contiguous(addrs@) ==> r matches Err(LayoutError::Gap { .. }),
{
    match find_duplicate(addrs) {
        Some((first, second)) => {
            return Err(LayoutError::DuplicateAddress { first, second, address: addrs[first] });
        },
        None => {},
    }
    if !allow_gaps {
        match find_gap(addrs) {
            Some((current, next)) => {
                return Err(LayoutError::Gap { current, next });
            },
            None => {},
        }
    }
    if addrs.len() == 0 {
        return Err(LayoutError::Empty);
    }
    Ok(())
}

/// Checks the field addresses of a coil model: only duplicates are refused.
pub fn check_coil_layout(addrs: &[u16]) -> (r: Result<(), LayoutError>)
    ensures
        r is Ok <==> distinct_addrs(addrs@),
        r matches Err(e) ==> e matches LayoutError::DuplicateAddress { first, second, address }
            && is_first_dup_pair(addrs@, first as int, second as int) && address == addrs@[first as int],
{
    match find_duplicate(addrs) {
        Some((first, second)) => Err(LayoutError::DuplicateAddress { first, second, address: addrs[first] }),
        None => Ok(()),
    }
}

/// The first duplicate pair and the first gap are determined by the
/// addresses alone: no two different pairs qualify.
pub proof fn lemma_layout_errors_unique(s: Seq<u16>, i1: int, j1: int, i2: int, j2: int, c1: u16, n1: u16, c2: u16, n2: u16)
    ensures
        is_first_dup_pair(s, i1, j1) && is_first_dup_pair(s, i2, j2) ==> i1 == i2 && j1 == j2,
        is_first_gap(s, c1, n1) && is_first_gap(s, c2, n2) ==> c1 == c2 && n1 == n2,
{
    if is_first_dup_pair(s, i1, j1) && is_first_dup_pair(s, i2, j2) {
        assert(is_dup_pair(s, i1, j1));
        assert(is_dup_pair(s, i2, j2));
    }
    if is_first_gap(s, c1, n1) && is_first_gap(s, c2, n2) {
        if c1 < c2 {
            assert(s.contains((c1 + 1) as u16));
            assert((c1 + 1) as u16 >= n1);
        } else if c2 < c1 {
            assert(s.contains((c2 + 1) as u16));
            assert((c2 + 1) as u16 >= n2);
        }
    }
}

} // verus!
