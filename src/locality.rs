use vstd::prelude::*;

verus! {

/// Index reached from `c` by moving `o` steps around a ring of `len` items, for
/// `-len < o < len`.
pub open spec fn shift(len: int, c: int, o: int) -> int {
    let x = c + o;
    if x >= len {
        x - len
    } else if x < 0 {
        x + len
    } else {
        x
    }
}

/// Number of steps between `c` and `j` on a ring of `len` items, going the
/// shorter way round.
pub open spec fn circ_dist(len: int, c: int, j: int) -> int {
    let d = if j >= c {
        j - c
    } else {
        c - j
    };
    if d <= len - d {
        d
    } else {
        len - d
    }
}

/// Whether the index `j` lies in the window of radius `radius` around `c`.
pub open spec fn in_window(len: int, c: int, radius: int, j: int) -> bool {
    0 <= j < len && circ_dist(len, c, j) <= radius
}

/// The offset visited at position `k` of a window: 0, +1, -1, +2, -2, ...
pub open spec fn window_offset(k: int) -> int {
    if k == 0 {
        0
    } else if k % 2 == 1 {
        (k + 1) / 2
    } else {
        -(k / 2)
    }
}

/// Number of distinct indices in a window of radius `radius` on a ring of `len`.
pub open spec fn window_size(len: int, radius: int) -> int {
    if 2 * radius + 1 < len {
        2 * radius + 1
    } else {
        len
    }
}

/// The indices of the window, in the order they are visited.
pub open spec fn window_indices(len: int, c: int, radius: int) -> Seq<int> {
    Seq::new(window_size(len, radius) as nat, |k: int| shift(len, c, window_offset(k)))
}

/// The image `j` mirrored through `c`: as many steps the other way round.
pub open spec fn mirror(len: int, c: int, j: int) -> int {
    shift(len, c, c - j)
}

/// The indices of the window of radius `radius` around `cursor`, on a ring of
/// `len` items, closest first: `cursor`, `cursor+1`, `cursor-1`, `cursor+2`, ...
/// wrapped around the ring, each index once.
pub fn locality_window(len: usize, cursor: usize, radius: usize) -> (r: Vec<usize>)
    requires
        cursor < len,
    ensures
        r@.len() == window_indices(len as int, cursor as int, radius as int).len(),
        forall|k: int|
            0 <= k < r@.len() ==> #[trigger] r@[k] as int == window_indices(
                len as int,
                cursor as int,
                radius as int,
            )[k],
        r@[0] == cursor,
        r@.no_duplicates(),
        forall|k: int| 0 <= k < r@.len() ==> #[trigger] r@[k] < len,
        forall|j: int|
            0 <= j < len ==> (r@.contains(j as usize) <==> in_window(
                len as int,
                cursor as int,
                radius as int,
                j,
            )),
{
    let count: usize = if radius >= len / 2 {
        len
    } else {
        2 * radius + 1
    };
    let mut out: Vec<usize> = Vec::new();
    out.push(cursor);
    let mut k: usize = 1;
    while k < count
        invariant
            count as int == window_size(len as int, radius as int),
            count <= len,
            cursor < len,
            1 <= k <= count,
            out@.len() == k,
            forall|i: int|
                0 <= i < k ==> #[trigger] out@[i] as int == shift(
                    len as int,
                    cursor as int,
                    window_offset(i),
                ),
        decreases count - k,
    {
        let idx: usize = if k % 2 == 1 {
            let d: usize = (k + 1) / 2;
            if d >= len - cursor {
                d - (len - cursor)
            } else {
                cursor + d
            }
        } else {
            let d: usize = k / 2;
            if d > cursor {
                len - (d - cursor)
            } else {
                cursor - d
            }
        };
        out.push(idx);
        k += 1;
    }
    proof {
        lemma_window_facts(len as int, cursor as int, radius as int, out@);
    }
    out
}

proof fn lemma_window_facts(len: int, c: int, radius: int, r: Seq<usize>)
    requires
        0 <= c < len <= usize::MAX,
        radius >= 0,
        r.len() == window_size(len, radius),
        forall|k: int| 0 <= k < r.len() ==> #[trigger] r[k] as int == shift(len, c, window_offset(k)),
    ensures
        r[0] == c,
        r.no_duplicates(),
        forall|k: int| 0 <= k < r.len() ==> #[trigger] r[k] < len,
        forall|j: int| 0 <= j < len ==> (r.contains(j as usize) <==> in_window(len, c, radius, j)),
{
    assert(r[0] as int == shift(len, c, window_offset(0)));
    assert forall|k: int| 0 <= k < r.len() implies #[trigger] r[k] < len by {
        assert(r[k] as int == shift(len, c, window_offset(k)));
    }
    assert forall|a: int, b: int| 0 <= a < r.len() && 0 <= b < r.len() && a != b implies r[a]
        != r[b] by {
        assert(r[a] as int == shift(len, c, window_offset(a)));
        assert(r[b] as int == shift(len, c, window_offset(b)));
    }
    assert forall|j: int| 0 <= j < len implies (r.contains(j as usize) <==> in_window(
        len,
        c,
        radius,
        j,
    )) by {
        if r.contains(j as usize) {
            let k = choose|k: int| 0 <= k < r.len() && r[k] == j as usize;
            assert(r[k] as int == shift(len, c, window_offset(k)));
            let o = window_offset(k);
            if k % 2 == 1 {
                assert(2 * o == k + 1);
            } else {
                assert(2 * o == -k);
            }
            assert(-radius <= o <= radius);
            assert(r[k] as int == j);
            assert(2 * o <= len && -len < 2 * o);
            assert(circ_dist(len, c, j) <= radius);
        }
        if in_window(len, c, radius, j) {
            let f = if j >= c {
                j - c
            } else {
                j - c + len
            };
            if f == 0 {
                assert(r[0] as int == shift(len, c, window_offset(0)));
                assert(r[0] == j as usize);
            } else if f <= len - f {
                let k = 2 * f - 1;
                assert(k % 2 == 1 && (k + 1) / 2 == f);
                assert(window_offset(k) == f);
                assert(0 <= k < r.len());
                assert(r[k] as int == shift(len, c, window_offset(k)));
                assert(r[k] == j as usize);
            } else {
                let b = len - f;
                let k = 2 * b;
                assert(k % 2 == 0 && k / 2 == b);
                assert(window_offset(k) == -b);
                assert(0 <= k < r.len());
                assert(r[k] as int == shift(len, c, window_offset(k)));
                assert(r[k] == j as usize);
            }
        }
    }
}

/// The window around `c` always holds `c`, and is symmetric: an index lies in it
/// exactly when its mirror image through `c` does. Every index reached from `c`
/// by at most `radius` steps either way lies in it.
pub proof fn lemma_window_symmetric(len: int, c: int, radius: int, j: int, d: int)
    requires
        0 <= c < len,
        0 <= j < len,
        0 <= d <= radius,
        d < len,
    ensures
        in_window(len, c, radius, c),
        in_window(len, c, radius, j) <==> in_window(len, c, radius, mirror(len, c, j)),
        in_window(len, c, radius, shift(len, c, d)),
        in_window(len, c, radius, shift(len, c, -d)),
{
}

} // verus!
