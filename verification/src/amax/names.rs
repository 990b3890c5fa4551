//! Register-name sets for the generator's change summary: a list of names
//! as the ordered set of its distinct names, and the names of one set
//! missing from another.

use vstd::prelude::*;
use crate::chars::chars_of;
use crate::amax::resolve::views;
use crate::amax::{spec_channel_index, spec_is_per_channel, Register};

verus! {

/// `a` and `b` agree on their first `k` characters and `a` is smaller at
/// position `k`: either `a` ends there and `b` goes on, or `a`'s character
/// there has the smaller code point.
pub open spec fn smaller_at(a: Seq<char>, b: Seq<char>, k: int) -> bool {
    &&& 0 <= k <= a.len()
    &&& k <= b.len()
    &&& a.take(k) == b.take(k)
    &&& ((k == a.len() && k < b.len()) || (k < a.len() && k < b.len() && a[k] < b[k]))
}

/// `a` comes strictly before `b` in the order of `String`: lexicographic,
/// character by character.
pub open spec fn text_lt(a: Seq<char>, b: Seq<char>) -> bool {
    exists|k: int| #[trigger] smaller_at(a, b, k)
}

/// Strictly increasing, hence without repeats.
pub open spec fn strictly_sorted(s: Seq<Seq<char>>) -> bool {
    forall|i: int, j: int| 0 <= i < j < s.len() ==> text_lt(#[trigger] s[i], #[trigger] s[j])
}

/// Two texts are never each smaller than the other.
proof fn lemma_smaller_asym(a: Seq<char>, b: Seq<char>, k: int, m: int)
    requires
        smaller_at(a, b, k),
    ensures
        !smaller_at(b, a, m),
{
    if !smaller_at(b, a, m) {
    } else if m < k {
        assert(a.take(k)[m] == b.take(k)[m]);
    } else if k < m {
        assert(a.take(m)[k] == b.take(m)[k]);
    }
}

/// A text is not smaller than itself.
proof fn lemma_smaller_irrefl(a: Seq<char>, k: int)
    ensures
        !smaller_at(a, a, k),
{
}

/// The order is transitive.
proof fn lemma_text_lt_trans(a: Seq<char>, b: Seq<char>, c: Seq<char>)
    requires
        text_lt(a, b),
        text_lt(b, c),
    ensures
        text_lt(a, c),
{
    let k = choose|k: int| smaller_at(a, b, k);
    let m = choose|m: int| smaller_at(b, c, m);
    if k < m {
        assert(b.take(m)[k] == c.take(m)[k]);
        assert(a.take(k) =~= c.take(k)) by {
            assert forall|i: int| 0 <= i < k implies a.take(k)[i] == c.take(k)[i] by {
                assert(a.take(k)[i] == b.take(k)[i]);
                assert(b.take(m)[i] == c.take(m)[i]);
            }
        }
        assert(smaller_at(a, c, k));
    } else if m < k {
        assert(a.take(k)[m] == b.take(k)[m]);
        assert(a.take(m) =~= c.take(m)) by {
            assert forall|i: int| 0 <= i < m implies a.take(m)[i] == c.take(m)[i] by {
                assert(a.take(k)[i] == b.take(k)[i]);
                assert(b.take(m)[i] == c.take(m)[i]);
            }
        }
        assert(smaller_at(a, c, m));
    } else {
        assert(a.take(k) =~= c.take(k));
        assert(smaller_at(a, c, k));
    }
}

/// Compare two texts: negative when `a` comes first, zero when they are
/// equal, positive when `b` comes first.
fn compare_text(a: &Vec<char>, b: &Vec<char>) -> (r: i8)
    ensures
        r == 0 <==> a@ == b@,
        r < 0 <==> text_lt(a@, b@),
        r > 0 <==> text_lt(b@, a@),
{
    let mut k: usize = 0;
    while k < a.len() && k < b.len() && a[k] == b[k]
        invariant
            k <= a@.len(),
            k <= b@.len(),
            a@.take(k as int) == b@.take(k as int),
        decreases a@.len() - k,
    {
        proof {
            assert(a@.take(k + 1) == a@.take(k as int).push(a@[k as int]));
            assert(b@.take(k + 1) == b@.take(k as int).push(b@[k as int]));
        }
        k = k + 1;
    }
    let ghost kk = k as int;
    if k == a.len() && k == b.len() {
        proof {
            assert(a@ == a@.take(kk));
            assert(b@ == b@.take(kk));
            assert forall|m: int| !smaller_at(a@, b@, m) by {
                if smaller_at(a@, b@, m) {
                    lemma_smaller_irrefl(a@, m);
                }
            }
        }
        0
    } else if k == a.len() || (k < b.len() && a[k] < b[k]) {
        proof {
            assert(smaller_at(a@, b@, kk));
            assert forall|m: int| !smaller_at(b@, a@, m) by {
                if smaller_at(b@, a@, m) {
                    lemma_smaller_asym(a@, b@, kk, m);
                }
            }
            assert(a@ != b@) by {
                if a@ == b@ {
                    lemma_smaller_irrefl(a@, kk);
                }
            }
        }
        -1
    } else {
        proof {
            if kk < b@.len() {
                assert(a@[kk] != b@[kk]);
            }
            assert(smaller_at(b@, a@, kk));
            assert forall|m: int| !smaller_at(a@, b@, m) by {
                if smaller_at(a@, b@, m) {
                    lemma_smaller_asym(b@, a@, kk, m);
                }
            }
            assert(a@ != b@) by {
                if a@ == b@ {
                    lemma_smaller_irrefl(b@, kk);
                }
            }
        }
        1
    }
}

/// Membership after appending.
proof fn lemma_push_contains(s: Seq<Seq<char>>, x: Seq<char>, y: Seq<char>)
    ensures
        s.push(x).contains(y) <==> (s.contains(y) || y == x),
{
    if s.push(x).contains(y) {
        let k = choose|k: int| 0 <= k < s.push(x).len() && s.push(x)[k] == y;
        if k < s.len() {
            assert(s[k] == y);
        }
    }
    if s.contains(y) {
        let k = choose|k: int| 0 <= k < s.len() && s[k] == y;
        assert(s.push(x)[k] == y);
    }
    if y == x {
        assert(s.push(x)[s.len() as int] == y);
    }
}

/// Membership after inserting.
proof fn lemma_insert_contains(s: Seq<Seq<char>>, i: int, x: Seq<char>, y: Seq<char>)
    requires
        0 <= i <= s.len(),
    ensures
        s.insert(i, x).contains(y) <==> (s.contains(y) || y == x),
{
    let t = s.insert(i, x);
    if t.contains(y) {
        let k = choose|k: int| 0 <= k < t.len() && t[k] == y;
        if k < i {
            assert(s[k] == y);
        } else if k > i {
            assert(s[k - 1] == y);
        }
    }
    if s.contains(y) {
        let k = choose|k: int| 0 <= k < s.len() && s[k] == y;
        if k < i {
            assert(t[k] == y);
        } else {
            assert(t[k + 1] == y);
        }
    }
    if y == x {
        assert(t[i] == y);
    }
}

/// Where a name belongs in a sorted list: every name before the position
/// comes before it; at the position is either the name itself (`true`) or
/// a name after it, or the end of the list.
fn find_slot(out: &Vec<String>, x: &Vec<char>) -> (r: (usize, bool))
    ensures
        r.0 <= out@.len(),
        forall|j: int| 0 <= j < r.0 ==> text_lt(#[trigger] views(out@)[j], x@),
        r.1 ==> r.0 < out@.len() && views(out@)[r.0 as int] == x@,
        !r.1 && r.0 < out@.len() ==> text_lt(x@, views(out@)[r.0 as int]),
{
    let mut i: usize = 0;
    while i < out.len()
        invariant
            i <= out@.len(),
            forall|j: int| 0 <= j < i ==> text_lt(#[trigger] views(out@)[j], x@),
        decreases out@.len() - i,
    {
        let y = chars_of(out[i].as_str());
        let c = compare_text(&y, x);
        if c == 0 {
            return (i, true);
        }
        if c > 0 {
            return (i, false);
        }
        i = i + 1;
    }
    (i, false)
}

/// The distinct names of a list, in increasing order (the list read as a
/// set of names).
pub fn sorted_names(names: &Vec<String>) -> (r: Vec<String>)
    ensures
        strictly_sorted(views(r@)),
        forall|x: Seq<char>| views(r@).contains(x) <==> views(names@).contains(x),
{
    let mut out: Vec<String> = Vec::new();
    for n in 0..names.len()
        invariant
            strictly_sorted(views(out@)),
            forall|x: Seq<char>| views(out@).contains(x) <==> views(names@.take(n as int)).contains(x),
    {
        let x = chars_of(names[n].as_str());
        let ghost xv = names@[n as int]@;
        let ghost prev = views(names@.take(n as int));
        proof {
            assert(views(names@.take(n + 1)) == prev.push(xv));
        }
        let (i, found) = find_slot(&out, &x);
        if !found {
            let ghost old_out = views(out@);
            out.insert(i, names[n].clone());
            proof {
                assert(views(out@) =~= old_out.insert(i as int, xv));
                assert forall|t: int| i <= t < old_out.len() implies text_lt(xv, #[trigger] old_out[t]) by {
                    if t > i {
                        assert(text_lt(old_out[i as int], old_out[t]));
                        lemma_text_lt_trans(xv, old_out[i as int], old_out[t]);
                    }
                }
                assert forall|p: int, q: int| 0 <= p < q < views(out@).len() implies text_lt(
                    #[trigger] views(out@)[p],
                    #[trigger] views(out@)[q],
                ) by {
                    if q < i {
                        assert(text_lt(old_out[p], old_out[q]));
                    } else if q == i {
                        assert(text_lt(old_out[p], xv));
                    } else if p < i {
                        assert(text_lt(old_out[p], old_out[q - 1]));
                    } else if p == i {
                        assert(text_lt(xv, old_out[q - 1]));
                    } else {
                        assert(text_lt(old_out[p - 1], old_out[q - 1]));
                    }
                }
                assert forall|y: Seq<char>| views(out@).contains(y) <==> views(names@.take(n + 1)).contains(y) by {
                    lemma_insert_contains(old_out, i as int, xv, y);
                    lemma_push_contains(prev, xv, y);
                }
            }
        } else {
            proof {
                assert forall|y: Seq<char>| views(out@).contains(y) <==> views(names@.take(n + 1)).contains(y) by {
                    lemma_push_contains(prev, xv, y);
                    if y == xv {
                        assert(views(out@)[i as int] == y);
                    }
                }
            }
        }
    }
    proof {
        assert(names@.take(names@.len() as int) == names@);
    }
    out
}

/// Whether a list holds a name.
fn holds_name(list: &Vec<String>, x: &Vec<char>) -> (r: bool)
    ensures
        r == views(list@).contains(x@),
{
    let mut m: usize = 0;
    while m < list.len()
        invariant
            m <= list@.len(),
            forall|j: int| 0 <= j < m ==> views(list@)[j] != x@,
        decreases list@.len() - m,
    {
        let y = chars_of(list[m].as_str());
        if compare_text(&y, x) == 0 {
            proof {
                assert(views(list@)[m as int] == x@);
            }
            return true;
        }
        m = m + 1;
    }
    false
}

/// The names of a sorted list that a second list lacks, in the same order.
pub fn names_not_in(sorted: &Vec<String>, other: &Vec<String>) -> (r: Vec<String>)
    requires
        strictly_sorted(views(sorted@)),
    ensures
        strictly_sorted(views(r@)),
        forall|x: Seq<char>| views(r@).contains(x) <==> (views(sorted@).contains(x) && !views(other@).contains(x)),
{
    let ghost src = views(sorted@);
    let ghost mut pos: Seq<int> = Seq::empty();
    let mut out: Vec<String> = Vec::new();
    for n in 0..sorted.len()
        invariant
            src == views(sorted@),
            strictly_sorted(src),
            strictly_sorted(views(out@)),
            pos.len() == out@.len(),
            forall|j: int| 0 <= j < pos.len() ==> 0 <= #[trigger] pos[j] < n && views(out@)[j] == src[pos[j]],
            forall|x: Seq<char>| views(out@).contains(x) <==> (views(sorted@.take(n as int)).contains(x)
                && !views(other@).contains(x)),
    {
        let x = chars_of(sorted[n].as_str());
        let ghost xv = src[n as int];
        let ghost prev = views(sorted@.take(n as int));
        proof {
            assert(views(sorted@.take(n + 1)) == prev.push(xv));
        }
        if !holds_name(other, &x) {
            let ghost old_out = views(out@);
            let ghost old_pos = pos;
            out.push(sorted[n].clone());
            proof {
                pos = pos.push(n as int);
                assert(views(out@) =~= old_out.push(xv));
                assert forall|j: int| 0 <= j < old_out.len() implies text_lt(#[trigger] old_out[j], xv) by {
                    assert(old_out[j] == src[old_pos[j]]);
                    assert(text_lt(src[old_pos[j]], src[n as int]));
                }
                assert forall|p: int, q: int| 0 <= p < q < views(out@).len() implies text_lt(
                    #[trigger] views(out@)[p],
                    #[trigger] views(out@)[q],
                ) by {
                    if q < old_out.len() {
                        assert(text_lt(old_out[p], old_out[q]));
                    } else {
                        assert(text_lt(old_out[p], xv));
                    }
                }
                assert forall|j: int| 0 <= j < pos.len() implies 0 <= #[trigger] pos[j] < n + 1 && views(out@)[j]
                    == src[pos[j]] by {
                    if j < old_pos.len() {
                        assert(pos[j] == old_pos[j]);
                        assert(views(out@)[j] == old_out[j]);
                    }
                }
                assert forall|y: Seq<char>| views(out@).contains(y) <==> (views(sorted@.take(n + 1)).contains(y)
                    && !views(other@).contains(y)) by {
                    lemma_push_contains(old_out, xv, y);
                    lemma_push_contains(prev, xv, y);
                }
            }
        } else {
            proof {
                assert forall|y: Seq<char>| views(out@).contains(y) <==> (views(sorted@.take(n + 1)).contains(y)
                    && !views(other@).contains(y)) by {
                    lemma_push_contains(prev, xv, y);
                }
            }
        }
    }
    proof {
        assert(sorted@.take(sorted@.len() as int) == sorted@);
    }
    out
}

/// Whether some per-channel register of the list is on channel page `c`.
pub open spec fn page_present(regs: Seq<Register>, c: u32) -> bool {
    exists|i: int| 0 <= i < regs.len() && spec_is_per_channel(#[trigger] regs[i]) && spec_channel_index(regs[i]) == Some(c)
}

/// The channel pages that the per-channel registers occupy, each once, in
/// order of first appearance.
pub fn present_channel_pages(registers: &Vec<Register>) -> (r: Vec<u32>)
    ensures
        r@.no_duplicates(),
        forall|c: u32| r@.contains(c) <==> page_present(registers@, c),
{
    let mut out: Vec<u32> = Vec::new();
    for n in 0..registers.len()
        invariant
            out@.no_duplicates(),
            forall|c: u32| out@.contains(c) <==> page_present(registers@.take(n as int), c),
    {
        let r = &registers[n];
        proof {
            assert forall|c: u32| page_present(registers@.take(n + 1), c) <==> (page_present(registers@.take(n as int), c)
                || (spec_is_per_channel(registers@[n as int]) && spec_channel_index(registers@[n as int]) == Some(c))) by {
                let t = registers@.take(n + 1);
                if page_present(t, c) {
                    let i = choose|i: int| 0 <= i < t.len() && spec_is_per_channel(#[trigger] t[i]) && spec_channel_index(t[i]) == Some(c);
                    if i < n {
                        assert(registers@.take(n as int)[i] == t[i]);
                    }
                }
                if page_present(registers@.take(n as int), c) {
                    let i = choose|i: int| 0 <= i < n && spec_is_per_channel(#[trigger] registers@.take(n as int)[i])
                        && spec_channel_index(registers@.take(n as int)[i]) == Some(c);
                    assert(t[i] == registers@.take(n as int)[i]);
                }
                if spec_is_per_channel(registers@[n as int]) && spec_channel_index(registers@[n as int]) == Some(c) {
                    assert(t[n as int] == registers@[n as int]);
                }
            }
        }
        let idx: Option<u32> = if r.is_per_channel() {
            r.channel_index()
        } else {
            None
        };
        let ghost before = out@;
        if let Some(c) = idx {
            let mut seen = false;
            let mut k: usize = 0;
            while k < out.len()
                invariant
                    k <= out@.len(),
                    seen <==> exists|j: int| 0 <= j < k && #[trigger] out@[j] == c,
                decreases out@.len() - k,
            {
                if out[k] == c {
                    seen = true;
                }
                k = k + 1;
            }
            if !seen {
                out.push(c);
                proof {
                    assert forall|a: int, b: int| 0 <= a < out@.len() && 0 <= b < out@.len() && a != b implies out@[a]
                        != out@[b] by {
                        if a < before.len() && b < before.len() {
                            assert(before[a] == out@[a] && before[b] == out@[b]);
                        } else if a == before.len() {
                            assert(out@[b] == before[b]);
                            assert(before[b] != c);
                        } else {
                            assert(out@[a] == before[a]);
                            assert(before[a] != c);
                        }
                    }
                }
            }
            proof {
                assert forall|d: u32| out@.contains(d) <==> (before.contains(d) || d == c) by {
                    if out@.contains(d) {
                        let i = choose|i: int| 0 <= i < out@.len() && out@[i] == d;
                        if i < before.len() {
                            assert(before[i] == d);
                        }
                    }
                    if before.contains(d) {
                        let i = choose|i: int| 0 <= i < before.len() && before[i] == d;
                        assert(out@[i] == d);
                    }
                    if d == c {
                        if seen {
                            let j = choose|j: int| 0 <= j < before.len() && #[trigger] out@[j] == c;
                            assert(out@[j] == d);
                        } else {
                            assert(out@[before.len() as int] == d);
                        }
                    }
                }
                assert forall|d: u32| out@.contains(d) <==> page_present(registers@.take(n + 1), d) by {
                    assert(before.contains(d) <==> page_present(registers@.take(n as int), d));
                }
            }
        } else {
            proof {
                assert forall|d: u32| out@.contains(d) <==> page_present(registers@.take(n + 1), d) by {
                    assert(before.contains(d) <==> page_present(registers@.take(n as int), d));
                }
            }
        }
    }
    proof {
        assert(registers@.take(registers@.len() as int) == registers@);
    }
    out
}

} // verus!
