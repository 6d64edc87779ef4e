//! Paths of files, as their bytes: when two of them are the same path.
use crate::headers::byte_rows;
use crate::text::{find_from, lemma_find_from, lemma_find_from_is, lemma_find_in_tail};
use vstd::prelude::*;
use vstd::slice::{slice_subrange, slice_to_vec};

verus! {

/// The byte between the steps of a path.
pub const SLASH: u8 = 0x2f;

/// The byte that a step to where one is consists of.
pub const DOT: u8 = 0x2e;

/// A path, by value: whether it begins at the root, and its steps.
pub struct PathView {
    pub rooted: bool,
    pub steps: Seq<Seq<u8>>,
}

/// Whether a stretch between slashes is a step: it is not empty, and it is no single
/// dot unless it stands at the very beginning.
pub open spec fn is_step(s: Seq<u8>, first: bool) -> bool {
    s.len() > 0 && (first || s != seq![DOT])
}

/// The steps of a path or of what is left of it.
pub open spec fn steps(p: Seq<u8>, first: bool) -> Seq<Seq<u8>>
    decreases p.len(),
{
    let j = find_from(p, SLASH, 0);
    proof {
        lemma_find_from(p, SLASH, 0);
    }
    let front = if is_step(p.take(j), first) {
        seq![p.take(j)]
    } else {
        Seq::empty()
    };
    if j >= p.len() {
        front
    } else {
        front + steps(p.skip(j + 1), false)
    }
}

/// What path some bytes are. Slashes in a row count once, one at the end does not
/// count, and neither does a dot between slashes.
pub open spec fn path_in(p: Seq<u8>) -> PathView {
    PathView { rooted: p.len() > 0 && p[0] == SLASH, steps: steps(p, true) }
}

fn find_slash(p: &[u8], from: usize) -> (r: usize)
    requires
        from <= p@.len(),
    ensures
        r == find_from(p@, SLASH, from as int),
        from <= r <= p@.len(),
{
    let n: usize = p.len();
    let mut i: usize = from;
    while i < n && p[i] != SLASH
        invariant
            n == p@.len(),
            from <= i <= n,
            forall|j: int| from <= j < i ==> p@[j] != SLASH,
        decreases n - i,
    {
        i = i + 1;
    }
    proof {
        lemma_find_from_is(p@, SLASH, from as int, i as int);
    }
    i
}

/// Reads the steps of a path.
fn read_steps(p: &[u8]) -> (r: Vec<Vec<u8>>)
    ensures
        byte_rows(r@) == steps(p@, true),
{
    let n: usize = p.len();
    let mut out: Vec<Vec<u8>> = Vec::new();
    let mut from: usize = 0;
    let mut first = true;
    assert(p@.skip(0) =~= p@);
    assert(byte_rows(out@) + steps(p@.skip(0), true) =~= steps(p@, true));
    loop
        invariant
            n == p@.len(),
            from <= n,
            byte_rows(out@) + steps(p@.skip(from as int), first) == steps(p@, true),
        decreases n - from,
    {
        let j: usize = find_slash(p, from);
        let ghost rest = p@.skip(from as int);
        proof {
            lemma_find_in_tail(p@, SLASH, from as int, from as int);
        }
        let piece = slice_subrange(p, from, j);
        let ghost before = byte_rows(out@);
        let ghost front = if is_step(piece@, first) {
            seq![piece@]
        } else {
            Seq::empty()
        };
        assert(piece@ =~= rest.take(j - from));
        let dot = piece.len() == 1 && piece[0] == DOT;
        assert(dot <==> piece@ =~= seq![DOT]);
        if piece.len() > 0 && (first || !dot) {
            out.push(slice_to_vec(piece));
        }
        assert(byte_rows(out@) =~= before + front);
        if j >= n {
            assert(byte_rows(out@) =~= steps(p@, true));
            return out;
        }
        assert(rest.skip(j - from + 1) =~= p@.skip(j + 1));
        assert(byte_rows(out@) + steps(p@.skip(j + 1), false) =~= before + (front + steps(
            p@.skip(j + 1),
            false,
        )));
        from = j + 1;
        first = false;
    }
}

fn same_bytes(a: &Vec<u8>, b: &Vec<u8>) -> (r: bool)
    ensures
        r == (a@ == b@),
{
    let n: usize = a.len();
    if n != b.len() {
        return false;
    }
    let mut i: usize = 0;
    while i < n
        invariant
            n == a@.len() == b@.len(),
            i <= n,
            forall|j: int| 0 <= j < i ==> a@[j] == b@[j],
        decreases n - i,
    {
        if a[i] != b[i] {
            return false;
        }
        i = i + 1;
    }
    assert(a@ =~= b@);
    true
}

/// Whether two rows of bytes are the same path.
pub fn same_path(a: &[u8], b: &[u8]) -> (r: bool)
    ensures
        r == (path_in(a@) == path_in(b@)),
{
    let rooted = a.len() > 0 && a[0] == SLASH;
    if rooted != (b.len() > 0 && b[0] == SLASH) {
        return false;
    }
    let x = read_steps(a);
    let y = read_steps(b);
    let ghost u = byte_rows(x@);
    let ghost v = byte_rows(y@);
    let n: usize = x.len();
    if n != y.len() {
        assert(u.len() != v.len());
        return false;
    }
    let mut i: usize = 0;
    while i < n
        invariant
            n == x@.len() == y@.len(),
            i <= n,
            u == byte_rows(x@),
            v == byte_rows(y@),
            u == path_in(a@).steps,
            v == path_in(b@).steps,
            forall|j: int| 0 <= j < i ==> #[trigger] u[j] == v[j],
        decreases n - i,
    {
        assert(u[i as int] == x@[i as int]@ && v[i as int] == y@[i as int]@);
        if !same_bytes(&x[i], &y[i]) {
            return false;
        }
        i = i + 1;
    }
    assert(u =~= v);
    true
}

/// A slash more between two steps, or at the end, makes no other path.
pub proof fn law_extra_slashes_do_not_count(a: Seq<u8>, b: Seq<u8>)
    requires
        a.len() > 0,
        a.last() == SLASH,
    ensures
        path_in(a.push(SLASH) + b) == path_in(a + b),
{
    lemma_extra_slash(a, b, true);
    assert((a + b)[0] == a[0]);
    assert((a.push(SLASH) + b)[0] == a[0]);
}

proof fn lemma_extra_slash(a: Seq<u8>, b: Seq<u8>, first: bool)
    requires
        a.len() > 0,
        a.last() == SLASH,
    ensures
        steps(a.push(SLASH) + b, first) == steps(a + b, first),
    decreases a.len(),
{
    let p = a.push(SLASH) + b;
    let q = a + b;
    let j = find_from(a, SLASH, 0);
    lemma_find_from(a, SLASH, 0);
    assert(a[a.len() - 1] == SLASH);
    assert(j < a.len());
    assert forall|i: int| 0 <= i < a.len() implies p[i] == a[i] && q[i] == a[i] by {}
    lemma_find_from_is(p, SLASH, 0, j);
    lemma_find_from_is(q, SLASH, 0, j);
    assert(p.take(j) =~= q.take(j));
    if j == a.len() - 1 {
        assert(q.skip(j + 1) =~= b);
        let t = p.skip(j + 1);
        assert(t =~= seq![SLASH] + b);
        lemma_find_from_is(t, SLASH, 0, 0);
        assert(t.take(0).len() == 0);
        assert(t.skip(1) =~= b);
        assert(steps(t, false) =~= steps(b, false));
    } else {
        let c = a.skip(j + 1);
        assert(c.last() == SLASH);
        assert(p.skip(j + 1) =~= c.push(SLASH) + b);
        assert(q.skip(j + 1) =~= c + b);
        lemma_extra_slash(c, b, false);
    }
}

/// The steps of a path are what stands between slashes: nothing that is empty, and no dot but in
/// front.
pub proof fn law_steps_between_slashes(a: Seq<u8>, b: Seq<u8>, first: bool)
    requires
        !a.contains(0x2f),
    ensures
        ({
            let own = if a.len() == 0 || a == seq![0x2eu8] && !first {
                Seq::<Seq<u8>>::empty()
            } else {
                seq![a]
            };
            &&& steps(a, first) == own
            &&& steps(a.push(0x2f) + b, first) == own + steps(b, false)
        }),
{
    let s = a.push(0x2f) + b;
    assert forall|j: int| 0 <= j < a.len() implies s[j] != SLASH && a[j] != SLASH by {
        assert(s[j] == a[j]);
        assert(a.contains(a[j]));
    }
    lemma_find_from_is(s, SLASH, 0, a.len() as int);
    lemma_find_from_is(a, SLASH, 0, a.len() as int);
    assert(s.take(a.len() as int) =~= a);
    assert(a.take(a.len() as int) =~= a);
    assert(s.skip(a.len() as int + 1) =~= b);
}

/// Two paths are the same if and only if both or neither begin with a slash and their steps are
/// the same.
pub proof fn law_same_paths(a: Seq<u8>, b: Seq<u8>)
    ensures
        path_in(a) == path_in(b) <==> ((a.len() > 0 && a[0] == 0x2f) == (b.len() > 0 && b[0]
            == 0x2f)) && steps(a, true) == steps(b, true),
{
}

} // verus!
