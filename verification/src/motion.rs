//! EasyMotion: the visible places where a typed search occurs, each with a
//! one-key label to jump there.
use vstd::prelude::*;
use crate::editor::{BufferV, min_int, strs};
use crate::text::{chars_of, str_lowercase, to_lowercase};

verus! {

/// The keys offered as jump labels, in order of preference.
pub open spec fn label_pool() -> Seq<char> {
    seq!['a', 's', 'd', 'f', 'g', 'h', 'j', 'k', 'l', ';', 'w', 'e', 'r', 'u', 'i', 'o', 'p']
}

/// The test "does not occur in `ns`".
pub open spec fn not_in(ns: Seq<char>) -> spec_fn(char) -> bool {
    |c: char| !ns.contains(c)
}

/// `sl` occurs in `ll` at position `p`.
pub open spec fn occurs_at(ll: Seq<char>, sl: Seq<char>, p: int) -> bool {
    0 <= p && p + sl.len() <= ll.len() && ll.subrange(p, p + sl.len()) == sl
}

/// The first position at or after `s` where `sl` occurs in `ll`, or -1.
pub open spec fn find_from(ll: Seq<char>, sl: Seq<char>, s: int) -> int
    decreases ll.len() + 1 - s,
{
    if s < 0 || s + sl.len() > ll.len() {
        -1
    } else if occurs_at(ll, sl, s) {
        s
    } else {
        find_from(ll, sl, s + 1)
    }
}

/// The occurrences of `sl` in `ll` found left to right from `s` without
/// overlapping, and for each that is followed by a character, that character.
pub open spec fn row_scan(ll: Seq<char>, sl: Seq<char>, s: int) -> (Seq<int>, Seq<char>)
    decreases ll.len() - s,
{
    if sl.len() == 0 || s < 0 || s >= ll.len() {
        (Seq::empty(), Seq::empty())
    } else {
        let p = find_from(ll, sl, s);
        if p < s || p + sl.len() > ll.len() {
            (Seq::empty(), Seq::empty())
        } else {
            let rest = row_scan(ll, sl, p + sl.len());
            let next = if p + sl.len() < ll.len() {
                seq![ll[p + sl.len()]]
            } else {
                Seq::empty()
            };
            (seq![p] + rest.0, next + rest.1)
        }
    }
}

/// The matches (line, column) on lines `y..end` and the characters that
/// follow them, each line compared in lowercase.
pub open spec fn scan_rows(lines: Seq<Seq<char>>, sl: Seq<char>, y: int, end: int) -> (
    Seq<(usize, usize)>,
    Seq<char>,
)
    decreases end - y,
{
    if y >= end || y < 0 {
        (Seq::empty(), Seq::empty())
    } else {
        let r = row_scan(str_lowercase(lines[y]), sl, 0);
        let rest = scan_rows(lines, sl, y + 1, end);
        (r.0.map_values(|p: int| (y as usize, p as usize)) + rest.0, r.1 + rest.1)
    }
}

/// The matches and labels for `search` over the visible lines of `b`
/// (`h` of them from the scroll offset): the labels are the pool's keys
/// that follow no match (so typing on does not jump), as many as there are
/// matches at most, and the matches beyond the labels are dropped.
pub open spec fn easy_motion_targets(b: BufferV, search: Seq<char>, h: int) -> (
    Seq<(usize, usize)>,
    Seq<char>,
) {
    targets_in(b.lines, b.scroll_offset as int, search, h)
}

/// The matches and labels for `search` over lines `start..start + h` of `lines`.
pub open spec fn targets_in(lines: Seq<Seq<char>>, start: int, search: Seq<char>, h: int) -> (
    Seq<(usize, usize)>,
    Seq<char>,
) {
    let end = min_int(start + h, lines.len() as int);
    let sl = str_lowercase(search);
    let (ms, ns) = scan_rows(lines, sl, start, end);
    let avail = label_pool().filter(not_in(ns));
    let k = min_int(ms.len() as int, avail.len() as int);
    (ms.take(k), avail.take(k))
}

proof fn lemma_find_from_bounds(ll: Seq<char>, sl: Seq<char>, s: int)
    requires
        0 <= s,
    ensures
        find_from(ll, sl, s) == -1 || (s <= find_from(ll, sl, s) && occurs_at(ll, sl, find_from(ll, sl, s))),
    decreases ll.len() + 1 - s,
{
    if s + sl.len() <= ll.len() && !occurs_at(ll, sl, s) {
        lemma_find_from_bounds(ll, sl, s + 1);
    }
}

/// An empty search matches nothing.
proof fn lemma_scan_rows_nothing(lines: Seq<Seq<char>>, sl: Seq<char>, y: int, end: int)
    requires
        sl.len() == 0,
    ensures
        scan_rows(lines, sl, y, end).0.len() == 0,
    decreases end - y,
{
    if y < end && y >= 0 {
        lemma_scan_rows_nothing(lines, sl, y + 1, end);
    }
}

/// Whether `sl` occurs in `ll` at `p`.
fn matches_at(ll: &Vec<char>, sl: &Vec<char>, p: usize) -> (r: bool)
    requires
        p + sl.len() <= ll.len(),
    ensures
        r == occurs_at(ll@, sl@, p as int),
{
    let mut j: usize = 0;
    while j < sl.len()
        invariant
            p + sl.len() <= ll.len(),
            j <= sl.len(),
            forall|q: int| 0 <= q < j ==> ll@[p + q] == sl@[q],
        decreases sl.len() - j,
    {
        if ll[p + j] != sl[j] {
            assert(ll@.subrange(p as int, p + sl@.len())[j as int] != sl@[j as int]);
            return false;
        }
        j = j + 1;
    }
    assert(ll@.subrange(p as int, p + sl@.len()) =~= sl@);
    true
}

/// The first occurrence of `sl` in `ll` at or after `s`.
fn find_first(ll: &Vec<char>, sl: &Vec<char>, s: usize) -> (r: Option<usize>)
    requires
        sl.len() > 0,
    ensures
        match r {
            Some(p) => p as int == find_from(ll@, sl@, s as int),
            None => find_from(ll@, sl@, s as int) == -1,
        },
{
    let mut p = s;
    while p <= ll.len() && sl.len() <= ll.len() - p
        invariant
            s <= p,
            sl.len() > 0,
            find_from(ll@, sl@, p as int) == find_from(ll@, sl@, s as int),
        decreases ll.len() + 1 - p,
    {
        if matches_at(ll, sl, p) {
            return Some(p);
        }
        p = p + 1;
    }
    None
}

/// Scans one lowercased line `ll` for `sl`, appending the matches on line
/// `y` and the characters that follow them.
fn scan_row(
    ll: &Vec<char>,
    sl: &Vec<char>,
    y: usize,
    out: &mut Vec<(usize, usize)>,
    nexts: &mut Vec<char>,
)
    requires
        sl.len() > 0,
    ensures
        final(out)@ == old(out)@ + row_scan(ll@, sl@, 0).0.map_values(|p: int| (y, p as usize)),
        final(nexts)@ == old(nexts)@ + row_scan(ll@, sl@, 0).1,
{
    let ghost o0 = out@;
    let ghost n0 = nexts@;
    let ghost total = row_scan(ll@, sl@, 0);
    let mut s: usize = 0;
    let ghost mut done_o: Seq<int> = Seq::empty();
    let ghost mut done_n: Seq<char> = Seq::empty();
    loop
        invariant
            sl.len() > 0,
            total == row_scan(ll@, sl@, 0),
            total.0 == done_o + row_scan(ll@, sl@, s as int).0,
            total.1 == done_n + row_scan(ll@, sl@, s as int).1,
            out@ == o0 + done_o.map_values(|p: int| (y, p as usize)),
            nexts@ == n0 + done_n,
        ensures
            total.0 == done_o,
            total.1 == done_n,
            out@ == o0 + done_o.map_values(|p: int| (y, p as usize)),
            nexts@ == n0 + done_n,
        decreases ll.len() + 1 - s,
    {
        if s >= ll.len() {
            assert(total.0 =~= done_o);
            assert(total.1 =~= done_n);
            break;
        }
        proof {
            lemma_find_from_bounds(ll@, sl@, s as int);
        }
        match find_first(ll, sl, s) {
            None => {
                assert(total.0 =~= done_o);
                assert(total.1 =~= done_n);
                break;
            },
            Some(p) => {
                let ghost rest = row_scan(ll@, sl@, p + sl@.len());
                let ghost nx0: Seq<char> = if p + sl@.len() < ll@.len() {
                    seq![ll@[p + sl@.len()]]
                } else {
                    Seq::empty()
                };
                assert(row_scan(ll@, sl@, s as int).0 == seq![p as int] + rest.0);
                assert(row_scan(ll@, sl@, s as int).1 == nx0 + rest.1);
                out.push((y, p));
                let e = p + sl.len();
                let ghost nx: Seq<char> = if e < ll.len() {
                    seq![ll@[e as int]]
                } else {
                    Seq::empty()
                };
                if e < ll.len() {
                    nexts.push(ll[e]);
                }
                proof {
                    assert(done_o.push(p as int).map_values(|q: int| (y, q as usize)) =~= done_o.map_values(
                        |q: int| (y, q as usize),
                    ).push((y, p)));
                    assert(seq![p as int] + rest.0 =~= seq![p as int] + rest.0);
                    assert(done_o + (seq![p as int] + rest.0) =~= done_o.push(p as int) + rest.0);
                    assert(done_n + (nx + rest.1) =~= (done_n + nx) + rest.1);
                    done_o = done_o.push(p as int);
                    done_n = done_n + nx;
                    assert(nexts@ =~= n0 + done_n);
                }
                s = e;
            },
        }
    }
}

/// The matches and labels for `search` over the `h` lines of `lines` from
/// line `start`.
pub fn easy_motion_scan(lines: &Vec<String>, start: usize, h: usize, search: &str) -> (r: (
    Vec<(usize, usize)>,
    Vec<char>,
))
    requires
        search@.len() > 0,
    ensures
        r.0@ == targets_in(strs(lines@), start as int, search@, h as int).0,
        r.1@ == targets_in(strs(lines@), start as int, search@, h as int).1,
{
    let ghost ls = strs(lines@);
    let n = lines.len();
    let end = if start <= n && h <= n - start {
        start + h
    } else {
        n
    };
    let sl_s = to_lowercase(search);
    let sl = chars_of(sl_s.as_str());
    if sl.len() == 0 {
        proof {
            lemma_scan_rows_nothing(ls, sl@, start as int, end as int);
        }
        return (Vec::new(), Vec::new());
    }
    let mut ms: Vec<(usize, usize)> = Vec::new();
    let mut ns: Vec<char> = Vec::new();
    let mut y = start;
    while y < end
        invariant
            end <= n,
            n == lines@.len(),
            start <= y || start >= end,
            ls == strs(lines@),
            sl@ == str_lowercase(search@),
            sl@.len() > 0,
            scan_rows(ls, sl@, start as int, end as int).0 == ms@ + scan_rows(ls, sl@, y as int, end as int).0,
            scan_rows(ls, sl@, start as int, end as int).1 == ns@ + scan_rows(ls, sl@, y as int, end as int).1,
        decreases end - y,
    {
        let low = to_lowercase(lines[y].as_str());
        let ll = chars_of(low.as_str());
        let ghost m0 = ms@;
        let ghost n0 = ns@;
        scan_row(&ll, &sl, y, &mut ms, &mut ns);
        proof {
            assert(ls[y as int] == lines@[y as int]@);
        }
        y = y + 1;
    }
    proof {
        assert(ms@ =~= ms@ + Seq::<(usize, usize)>::empty());
        assert(ns@ =~= ns@ + Seq::<char>::empty());
    }
    let pool: Vec<char> = vec!['a', 's', 'd', 'f', 'g', 'h', 'j', 'k', 'l', ';', 'w', 'e', 'r', 'u', 'i', 'o', 'p'];
    assert(pool@ =~= label_pool());
    let mut avail: Vec<char> = Vec::new();
    let mut q: usize = 0;
    proof {
        reveal_with_fuel(Seq::filter, 1);
        assert(pool@.take(0).filter(not_in(ns@)) =~= Seq::<char>::empty());
    }
    while q < pool.len()
        invariant
            q <= pool@.len(),
            pool@ == label_pool(),
            avail@ == pool@.take(q as int).filter(not_in(ns@)),
        decreases pool@.len() - q,
    {
        let c = pool[q];
        let mut found = false;
        let mut t: usize = 0;
        while t < ns.len()
            invariant
                t <= ns@.len(),
                found == (exists|u: int| 0 <= u < t && ns@[u] == c),
            decreases ns@.len() - t,
        {
            if ns[t] == c {
                found = true;
            }
            t = t + 1;
        }
        assert(found == ns@.contains(c));
        assert(pool@.take(q + 1).drop_last() =~= pool@.take(q as int));
        assert(pool@.take(q + 1).last() == c);
        assert(not_in(ns@)(c) == !found);
        let ghost f0 = pool@.take(q as int).filter(not_in(ns@));
        proof {
            reveal_with_fuel(Seq::filter, 1);
            assert(pool@.take(q + 1).len() > 0);
            assert(pool@.take(q + 1).filter(not_in(ns@)) == (if not_in(ns@)(c) {
                f0.push(c)
            } else {
                f0
            }));
        }
        if !found {
            avail.push(c);
        }
        q = q + 1;
    }
    assert(pool@.take(pool@.len() as int) =~= pool@);
    let k = if ms.len() < avail.len() {
        ms.len()
    } else {
        avail.len()
    };
    ms.truncate(k);
    avail.truncate(k);
    (ms, avail)
}

} // verus!
