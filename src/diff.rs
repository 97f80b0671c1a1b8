//! Word-level comparison of a reference text with a transcript.
//!
//! Both texts are cut into tokens: maximal runs of ASCII whitespace and
//! maximal runs of anything else. A longest common subsequence of the two
//! token sequences is aligned, preferring to match tokens as early as
//! possible, and adjacent edits of one kind are merged into runs.
use vstd::prelude::*;
use vstd::string::StringSliceAdditionalSpecFns;

verus! {

/// How a run of text relates the reference to the transcript.
#[derive(Clone, Copy, Debug, PartialEq, Eq, Structural)]
pub enum Change {
    /// In both texts.
    Equal,
    /// Only in the transcript.
    Insert,
    /// Only in the reference.
    Delete,
}

/// One run of the comparison: its kind and its bytes (UTF-8).
pub struct Segment {
    pub kind: Change,
    pub text: Vec<u8>,
}

impl View for Segment {
    type V = (Change, Seq<u8>);

    open spec fn view(&self) -> (Change, Seq<u8>) {
        (self.kind, self.text@)
    }
}

pub open spec fn is_space(b: u8) -> bool {
    b == 32 || b == 9 || b == 10 || b == 11 || b == 12 || b == 13
}

/// The tokens of `s`: maximal runs of bytes that agree on `is_space`.
pub open spec fn tokens(s: Seq<u8>) -> Seq<Seq<u8>>
    decreases s.len(),
{
    if s.len() == 0 {
        Seq::empty()
    } else {
        let t = tokens(s.drop_last());
        let c = s.last();
        if t.len() > 0 && t.last().len() > 0 && is_space(t.last().last()) == is_space(c) {
            t.drop_last().push(t.last().push(c))
        } else {
            t.push(seq![c])
        }
    }
}

/// The concatenation of a sequence of tokens.
pub open spec fn flatten(ts: Seq<Seq<u8>>) -> Seq<u8>
    decreases ts.len(),
{
    if ts.len() == 0 {
        Seq::empty()
    } else {
        flatten(ts.drop_last()) + ts.last()
    }
}

/// Length of a longest common subsequence of `a[i..]` and `b[j..]`.
pub open spec fn lcs(a: Seq<Seq<u8>>, b: Seq<Seq<u8>>, i: int, j: int) -> nat
    decreases a.len() - i + b.len() - j,
{
    if i < 0 || j < 0 || i >= a.len() || j >= b.len() {
        0
    } else if a[i] == b[j] {
        1 + lcs(a, b, i + 1, j + 1)
    } else {
        let x = lcs(a, b, i + 1, j);
        let y = lcs(a, b, i, j + 1);
        if x >= y { x } else { y }
    }
}

/// The token-by-token alignment of `a[i..]` (reference) with `b[j..]`
/// (transcript): equal tokens are matched at once; otherwise the side whose
/// removal keeps the longer common subsequence gives way, the reference first
/// on a tie.
pub open spec fn script(a: Seq<Seq<u8>>, b: Seq<Seq<u8>>, i: int, j: int) -> Seq<(Change, Seq<u8>)>
    decreases a.len() - i + b.len() - j,
    when 0 <= i <= a.len() && 0 <= j <= b.len()
{
    if i == a.len() && j == b.len() {
        Seq::empty()
    } else if i == a.len() {
        seq![(Change::Insert, b[j])] + script(a, b, i, j + 1)
    } else if j == b.len() {
        seq![(Change::Delete, a[i])] + script(a, b, i + 1, j)
    } else if a[i] == b[j] {
        seq![(Change::Equal, a[i])] + script(a, b, i + 1, j + 1)
    } else if lcs(a, b, i + 1, j) >= lcs(a, b, i, j + 1) {
        seq![(Change::Delete, a[i])] + script(a, b, i + 1, j)
    } else {
        seq![(Change::Insert, b[j])] + script(a, b, i, j + 1)
    }
}

/// Adjacent entries of one kind merged into a single run.
pub open spec fn merge(ops: Seq<(Change, Seq<u8>)>) -> Seq<(Change, Seq<u8>)>
    decreases ops.len(),
{
    if ops.len() == 0 {
        Seq::empty()
    } else {
        let r = merge(ops.drop_last());
        let x = ops.last();
        if r.len() > 0 && r.last().0 == x.0 {
            r.drop_last().push((x.0, r.last().1 + x.1))
        } else {
            r.push(x)
        }
    }
}

/// The text of every entry whose kind is not `k`, in order: without
/// `Delete` the transcript, without `Insert` the reference.
pub open spec fn text_without(ops: Seq<(Change, Seq<u8>)>, k: Change) -> Seq<u8>
    decreases ops.len(),
{
    if ops.len() == 0 {
        Seq::empty()
    } else if ops.last().0 == k {
        text_without(ops.drop_last(), k)
    } else {
        text_without(ops.drop_last(), k) + ops.last().1
    }
}

/// The comparison of two texts given as bytes.
pub open spec fn comparison(reference: Seq<u8>, transcript: Seq<u8>) -> Seq<(Change, Seq<u8>)> {
    merge(script(tokens(reference), tokens(transcript), 0, 0))
}

pub open spec fn views(v: Seq<Vec<u8>>) -> Seq<Seq<u8>> {
    v.map_values(|t: Vec<u8>| t@)
}

pub open spec fn segment_views(v: Seq<Segment>) -> Seq<(Change, Seq<u8>)> {
    v.map_values(|s: Segment| s@)
}


proof fn lemma_flatten_tokens(s: Seq<u8>)
    ensures
        flatten(tokens(s)) == s,
    decreases s.len(),
{
    if s.len() > 0 {
        let t = tokens(s.drop_last());
        let c = s.last();
        lemma_flatten_tokens(s.drop_last());
        if t.len() > 0 && t.last().len() > 0 && is_space(t.last().last()) == is_space(c) {
            let u = t.drop_last().push(t.last().push(c));
            assert(u.drop_last() =~= t.drop_last());
            assert(flatten(t) == flatten(t.drop_last()) + t.last());
        } else {
            assert(t.push(seq![c]).drop_last() =~= t);
        }
        assert(s =~= s.drop_last() + seq![c]);
    }
}

proof fn lemma_flatten_concat(p: Seq<Seq<u8>>, q: Seq<Seq<u8>>)
    ensures
        flatten(p + q) == flatten(p) + flatten(q),
    decreases q.len(),
{
    if q.len() == 0 {
        assert(p + q =~= p);
    } else {
        lemma_flatten_concat(p, q.drop_last());
        assert((p + q).drop_last() =~= p + q.drop_last());
        assert((p + q).last() == q.last());
    }
}

proof fn lemma_text_concat(p: Seq<(Change, Seq<u8>)>, q: Seq<(Change, Seq<u8>)>, k: Change)
    ensures
        text_without(p + q, k) == text_without(p, k) + text_without(q, k),
    decreases q.len(),
{
    if q.len() == 0 {
        assert(p + q =~= p);
    } else {
        lemma_text_concat(p, q.drop_last(), k);
        assert((p + q).drop_last() =~= p + q.drop_last());
        assert((p + q).last() == q.last());
    }
}

proof fn lemma_text_single(x: (Change, Seq<u8>), k: Change)
    ensures
        text_without(seq![x], k) == (if x.0 == k { Seq::<u8>::empty() } else { x.1 }),
{
    assert(seq![x].drop_last() =~= Seq::<(Change, Seq<u8>)>::empty());
    assert(seq![x].last() == x);
    assert(text_without(Seq::<(Change, Seq<u8>)>::empty(), k) == Seq::<u8>::empty());
    assert(Seq::<u8>::empty() + x.1 =~= x.1);
}

proof fn lemma_merge_text(ops: Seq<(Change, Seq<u8>)>, k: Change)
    ensures
        text_without(merge(ops), k) == text_without(ops, k),
    decreases ops.len(),
{
    if ops.len() > 0 {
        let r = merge(ops.drop_last());
        let x = ops.last();
        lemma_merge_text(ops.drop_last(), k);
        if r.len() > 0 && r.last().0 == x.0 {
            let u = r.drop_last().push((x.0, r.last().1 + x.1));
            assert(u.drop_last() =~= r.drop_last());
            if x.0 != k {
                assert(text_without(r, k) == text_without(r.drop_last(), k) + r.last().1);
            }
        } else {
            assert(r.push(x).drop_last() =~= r);
        }
    }
}

/// Sticks one entry in front of a script and accounts for its text.
proof fn lemma_text_cons(x: (Change, Seq<u8>), rest: Seq<(Change, Seq<u8>)>, k: Change)
    ensures
        text_without(seq![x] + rest, k) == (if x.0 == k { Seq::<u8>::empty() } else { x.1 }) + text_without(rest, k),
{
    lemma_text_concat(seq![x], rest, k);
    lemma_text_single(x, k);
}

proof fn lemma_flatten_cons(ts: Seq<Seq<u8>>, j: int)
    requires
        0 <= j < ts.len(),
    ensures
        flatten(ts.subrange(j, ts.len() as int)) == ts[j] + flatten(ts.subrange(j + 1, ts.len() as int)),
{
    let tail = ts.subrange(j + 1, ts.len() as int);
    assert(ts.subrange(j, ts.len() as int) =~= seq![ts[j]] + tail);
    lemma_flatten_concat(seq![ts[j]], tail);
    assert(seq![ts[j]].drop_last() =~= Seq::<Seq<u8>>::empty());
    assert(seq![ts[j]].last() == ts[j]);
    assert(flatten(Seq::<Seq<u8>>::empty()) == Seq::<u8>::empty());
    assert(Seq::<u8>::empty() + ts[j] =~= ts[j]);
}

proof fn lemma_script_text(a: Seq<Seq<u8>>, b: Seq<Seq<u8>>, i: int, j: int)
    requires
        0 <= i <= a.len(),
        0 <= j <= b.len(),
    ensures
        text_without(script(a, b, i, j), Change::Delete) == flatten(b.subrange(j, b.len() as int)),
        text_without(script(a, b, i, j), Change::Insert) == flatten(a.subrange(i, a.len() as int)),
    decreases a.len() - i + b.len() - j,
{
    if i == a.len() && j == b.len() {
        assert(a.subrange(i, a.len() as int) =~= Seq::<Seq<u8>>::empty());
        assert(b.subrange(j, b.len() as int) =~= Seq::<Seq<u8>>::empty());
    } else {
        let (x, ni, nj) = if i == a.len() {
            ((Change::Insert, b[j]), i, j + 1)
        } else if j == b.len() {
            ((Change::Delete, a[i]), i + 1, j)
        } else if a[i] == b[j] {
            ((Change::Equal, a[i]), i + 1, j + 1)
        } else if lcs(a, b, i + 1, j) >= lcs(a, b, i, j + 1) {
            ((Change::Delete, a[i]), i + 1, j)
        } else {
            ((Change::Insert, b[j]), i, j + 1)
        };
        assert(script(a, b, i, j) == seq![x] + script(a, b, ni, nj));
        lemma_script_text(a, b, ni, nj);
        lemma_text_cons(x, script(a, b, ni, nj), Change::Delete);
        lemma_text_cons(x, script(a, b, ni, nj), Change::Insert);
        if nj == j + 1 {
            lemma_flatten_cons(b, j);
        } else {
            assert(b.subrange(j, b.len() as int) == b.subrange(nj, b.len() as int));
        }
        if ni == i + 1 {
            lemma_flatten_cons(a, i);
        } else {
            assert(a.subrange(i, a.len() as int) == a.subrange(ni, a.len() as int));
        }
        assert(Seq::<u8>::empty() + flatten(b.subrange(nj, b.len() as int)) =~= flatten(b.subrange(nj, b.len() as int)));
        assert(Seq::<u8>::empty() + flatten(a.subrange(ni, a.len() as int)) =~= flatten(a.subrange(ni, a.len() as int)));
    }
}

/// The comparison gives back both texts: its `Equal` and `Insert` runs in
/// order spell the transcript, its `Equal` and `Delete` runs the reference.
pub proof fn lemma_comparison_reconstructs(reference: Seq<u8>, transcript: Seq<u8>)
    ensures
        text_without(comparison(reference, transcript), Change::Delete) == transcript,
        text_without(comparison(reference, transcript), Change::Insert) == reference,
{
    let a = tokens(reference);
    let b = tokens(transcript);
    let ops = script(a, b, 0, 0);
    lemma_merge_text(ops, Change::Delete);
    lemma_merge_text(ops, Change::Insert);
    lemma_script_text(a, b, 0, 0);
    assert(a.subrange(0, a.len() as int) =~= a);
    assert(b.subrange(0, b.len() as int) =~= b);
    lemma_flatten_tokens(reference);
    lemma_flatten_tokens(transcript);
}


proof fn lemma_lcs_bound(a: Seq<Seq<u8>>, b: Seq<Seq<u8>>, i: int, j: int)
    requires
        0 <= i <= a.len(),
        0 <= j <= b.len(),
    ensures
        lcs(a, b, i, j) <= a.len() - i,
    decreases a.len() - i + b.len() - j,
{
    if i < a.len() && j < b.len() {
        lemma_lcs_bound(a, b, i + 1, j + 1);
        lemma_lcs_bound(a, b, i + 1, j);
        lemma_lcs_bound(a, b, i, j + 1);
    }
}

/// Number of `Equal` entries of an alignment: the tokens it matches.
pub open spec fn matched(ops: Seq<(Change, Seq<u8>)>) -> nat
    decreases ops.len(),
{
    if ops.len() == 0 {
        0
    } else {
        (if ops.first().0 == Change::Equal { 1nat } else { 0nat }) + matched(ops.drop_first())
    }
}

/// Dropping one token from either side shortens a longest common
/// subsequence by at most one, and never lengthens it.
proof fn lemma_lcs_steps(a: Seq<Seq<u8>>, b: Seq<Seq<u8>>, i: int, j: int)
    requires
        0 <= i <= a.len(),
        0 <= j <= b.len(),
    ensures
        i < a.len() ==> lcs(a, b, i + 1, j) <= lcs(a, b, i, j) <= 1 + lcs(a, b, i + 1, j),
        j < b.len() ==> lcs(a, b, i, j + 1) <= lcs(a, b, i, j) <= 1 + lcs(a, b, i, j + 1),
    decreases a.len() - i + b.len() - j,
{
    if i < a.len() && j < b.len() {
        lemma_lcs_steps(a, b, i + 1, j);
        lemma_lcs_steps(a, b, i, j + 1);
        lemma_lcs_steps(a, b, i + 1, j + 1);
    }
}

/// The alignment is a longest one: `lcs` obeys the textbook recurrence of
/// the length of a longest common subsequence (the best of skipping a token
/// on either side and, where the tokens agree, matching them), and the
/// alignment matches exactly that many tokens.
pub proof fn lemma_alignment_is_longest(a: Seq<Seq<u8>>, b: Seq<Seq<u8>>, i: int, j: int)
    requires
        0 <= i <= a.len(),
        0 <= j <= b.len(),
    ensures
        matched(script(a, b, i, j)) == lcs(a, b, i, j),
        i < a.len() ==> lcs(a, b, i + 1, j) <= lcs(a, b, i, j),
        j < b.len() ==> lcs(a, b, i, j + 1) <= lcs(a, b, i, j),
        i < a.len() && j < b.len() && a[i] == b[j] ==> lcs(a, b, i, j) == 1 + lcs(a, b, i + 1, j + 1),
        i < a.len() && j < b.len() && a[i] != b[j] ==> (lcs(a, b, i, j) == lcs(a, b, i + 1, j)
            || lcs(a, b, i, j) == lcs(a, b, i, j + 1)),
    decreases a.len() - i + b.len() - j,
{
    lemma_lcs_steps(a, b, i, j);
    if !(i == a.len() && j == b.len()) {
        let (x, ni, nj) = if i == a.len() {
            ((Change::Insert, b[j]), i, j + 1)
        } else if j == b.len() {
            ((Change::Delete, a[i]), i + 1, j)
        } else if a[i] == b[j] {
            ((Change::Equal, a[i]), i + 1, j + 1)
        } else if lcs(a, b, i + 1, j) >= lcs(a, b, i, j + 1) {
            ((Change::Delete, a[i]), i + 1, j)
        } else {
            ((Change::Insert, b[j]), i, j + 1)
        };
        let rest = script(a, b, ni, nj);
        assert(script(a, b, i, j) == seq![x] + rest);
        assert((seq![x] + rest).drop_first() =~= rest);
        assert((seq![x] + rest).first() == x);
        lemma_alignment_is_longest(a, b, ni, nj);
    }
}

/// Cuts `s` into its tokens.
fn tokenize(s: &Vec<u8>) -> (r: Vec<Vec<u8>>)
    ensures
        views(r@) == tokens(s@),
{
    let mut out: Vec<Vec<u8>> = Vec::new();
    let mut cur: Vec<u8> = Vec::new();
    let mut i: usize = 0;
    while i < s.len()
        invariant
            i <= s@.len(),
            cur@.len() == 0 ==> i == 0 && out@.len() == 0,
            tokens(s@.subrange(0, i as int)) == (if cur@.len() == 0 { views(out@) } else { views(out@).push(cur@) }),
        decreases s@.len() - i,
    {
        let c = s[i];
        let ghost prefix = s@.subrange(0, i as int);
        assert(s@.subrange(0, i + 1).drop_last() =~= prefix);
        assert(s@.subrange(0, i + 1).last() == c);
        if cur.len() > 0 && (is_space_byte(cur[cur.len() - 1]) == is_space_byte(c)) {
            let ghost before = cur@;
            cur.push(c);
            proof {
                let t = views(out@).push(before);
                assert(t.drop_last() =~= views(out@));
                assert(t.drop_last().push(t.last().push(c)) =~= views(out@).push(cur@));
            }
        } else {
            if cur.len() > 0 {
                let done = cur;
                proof {
                    assert(views(out@.push(done)) =~= views(out@).push(done@));
                }
                out.push(done);
            }
            cur = Vec::new();
            cur.push(c);
            proof {
                assert(cur@ =~= seq![c]);
            }
        }
        i = i + 1;
    }
    proof {
        assert(s@.subrange(0, s@.len() as int) =~= s@);
    }
    if cur.len() > 0 {
        proof {
            assert(views(out@.push(cur)) =~= views(out@).push(cur@));
        }
        out.push(cur);
    }
    out
}

fn is_space_byte(b: u8) -> (r: bool)
    ensures
        r == is_space(b),
{
    b == 32 || b == 9 || b == 10 || b == 11 || b == 12 || b == 13
}

fn same_token(x: &Vec<u8>, y: &Vec<u8>) -> (r: bool)
    ensures
        r == (x@ == y@),
{
    if x.len() != y.len() {
        return false;
    }
    let mut i: usize = 0;
    while i < x.len()
        invariant
            x@.len() == y@.len(),
            i <= x@.len(),
            x@.subrange(0, i as int) == y@.subrange(0, i as int),
        decreases x@.len() - i,
    {
        if x[i] != y[i] {
            assert(x@[i as int] != y@[i as int]);
            return false;
        }
        i = i + 1;
        assert(x@.subrange(0, i as int) =~= y@.subrange(0, i as int)) by {
            assert(x@.subrange(0, i as int) =~= x@.subrange(0, i - 1).push(x@[i - 1]));
            assert(y@.subrange(0, i as int) =~= y@.subrange(0, i - 1).push(y@[i - 1]));
        }
    }
    assert(x@ =~= x@.subrange(0, i as int));
    assert(y@ =~= y@.subrange(0, i as int));
    true
}

/// The table of `lcs` values: entry `[n - i][j]` holds `lcs(a, b, i, j)`.
fn lcs_table(a: &Vec<Vec<u8>>, b: &Vec<Vec<u8>>) -> (rows: Vec<Vec<usize>>)
    ensures
        rows@.len() == a@.len() + 1,
        forall|k: int| 0 <= k < rows@.len() ==> (#[trigger] rows@[k])@.len() == b@.len() + 1,
        forall|k: int, j: int| 0 <= k < rows@.len() && 0 <= j <= b@.len() ==>
            #[trigger] rows@[k]@[j] == lcs(views(a@), views(b@), a@.len() - k, j),
{
    let n = a.len();
    let m = b.len();
    let ghost va = views(a@);
    let ghost vb = views(b@);
    let mut rows: Vec<Vec<usize>> = Vec::new();
    let mut k: usize = 0;
    while k <= n
        invariant
            n == a@.len(),
            m == b@.len(),
            va == views(a@),
            vb == views(b@),
            k <= n + 1,
            rows@.len() == k,
            forall|kk: int| 0 <= kk < k ==> (#[trigger] rows@[kk])@.len() == m + 1,
            forall|kk: int, j: int| 0 <= kk < k && 0 <= j <= m ==>
                #[trigger] rows@[kk]@[j] == lcs(va, vb, n - kk, j),
        decreases n + 1 - k,
    {
        let i = n - k;
        let mut cur: Vec<usize> = Vec::new();
        let mut z: usize = 0;
        while z <= m
            invariant
                z <= m + 1,
                cur@.len() == z,
                forall|j: int| 0 <= j < z ==> cur@[j] == 0,
            decreases m + 1 - z,
        {
            cur.push(0);
            z = cur.len();
        }
        if k > 0 {
            let mut j: usize = m;
            while j > 0
                invariant
                    n == a@.len(),
                    m == b@.len(),
                    va == views(a@),
                    vb == views(b@),
                    0 < k <= n,
                    i == n - k,
                    rows@.len() == k,
                    rows@[k - 1]@.len() == m + 1,
                    forall|jj: int| 0 <= jj <= m ==> (#[trigger] rows@[k - 1]@[jj]) == lcs(va, vb, i + 1, jj),
                    j <= m,
                    cur@.len() == m + 1,
                    cur@[m as int] == 0,
                    forall|jj: int| j <= jj <= m ==> (#[trigger] cur@[jj]) == lcs(va, vb, i as int, jj),
                decreases j,
            {
                j = j - 1;
                let prev = &rows[k - 1];
                proof {
                    lemma_lcs_bound(va, vb, i + 1, j + 1);
                    assert(va[i as int] == a@[i as int]@);
                    assert(vb[j as int] == b@[j as int]@);
                }
                let v = if same_token(&a[i], &b[j]) {
                    1 + prev[j + 1]
                } else {
                    let x = prev[j];
                    let y = cur[j + 1];
                    if x >= y { x } else { y }
                };
                cur.set(j, v);
            }
        } else {
            proof {
                assert forall|jj: int| 0 <= jj <= m implies cur@[jj] == lcs(va, vb, n as int, jj) by {}
            }
        }
        rows.push(cur);
        k = rows.len();
    }
    rows
}


fn append_bytes(dst: &mut Vec<u8>, src: &Vec<u8>)
    ensures
        final(dst)@ == old(dst)@ + src@,
{
    let mut i: usize = 0;
    while i < src.len()
        invariant
            i <= src@.len(),
            dst@ == old(dst)@ + src@.subrange(0, i as int),
        decreases src@.len() - i,
    {
        dst.push(src[i]);
        i = i + 1;
        assert(dst@ =~= old(dst)@ + src@.subrange(0, i as int));
    }
    assert(src@.subrange(0, i as int) =~= src@);
}

/// Adds one aligned token to the runs built so far.
fn push_change(out: &mut Vec<Segment>, kind: Change, token: &Vec<u8>)
    ensures
        segment_views(final(out)@) == {
            let r = segment_views(old(out)@);
            if r.len() > 0 && r.last().0 == kind {
                r.drop_last().push((kind, r.last().1 + token@))
            } else {
                r.push((kind, token@))
            }
        },
{
    let ghost r = segment_views(old(out)@);
    let n = out.len();
    if n > 0 && out[n - 1].kind == kind {
        let last = out.pop();
        match last {
            Some(seg) => {
                let mut seg = seg;
                append_bytes(&mut seg.text, token);
                out.push(seg);
                proof {
                    assert(segment_views(out@) =~= r.drop_last().push((kind, r.last().1 + token@)));
                }
            }
            None => {}
        }
    } else {
        let mut text: Vec<u8> = Vec::new();
        append_bytes(&mut text, token);
        out.push(Segment { kind, text });
        proof {
            assert(text@ =~= token@);
            assert(segment_views(out@) =~= r.push((kind, token@)));
        }
    }
}

/// The merged alignment of two token sequences.
fn align(a: &Vec<Vec<u8>>, b: &Vec<Vec<u8>>) -> (r: Vec<Segment>)
    ensures
        segment_views(r@) == merge(script(views(a@), views(b@), 0, 0)),
{
    let ghost va = views(a@);
    let ghost vb = views(b@);
    let rows = lcs_table(a, b);
    let n = a.len();
    let m = b.len();
    let mut out: Vec<Segment> = Vec::new();
    let mut i: usize = 0;
    let mut j: usize = 0;
    let ghost mut done: Seq<(Change, Seq<u8>)> = Seq::empty();
    while i < n || j < m
        invariant
            n == a@.len(),
            m == b@.len(),
            va == views(a@),
            vb == views(b@),
            i <= n,
            j <= m,
            rows@.len() == n + 1,
            forall|k: int| 0 <= k < rows@.len() ==> (#[trigger] rows@[k])@.len() == m + 1,
            forall|k: int, jj: int| 0 <= k < rows@.len() && 0 <= jj <= m ==>
                #[trigger] rows@[k]@[jj] == lcs(va, vb, n - k, jj),
            done + script(va, vb, i as int, j as int) == script(va, vb, 0, 0),
            segment_views(out@) == merge(done),
        decreases n - i + m - j,
    {
        let ghost rest = script(va, vb, i as int, j as int);
        let kind;
        if i == n {
            kind = Change::Insert;
        } else if j == m {
            kind = Change::Delete;
        } else {
            proof {
                assert(va[i as int] == a@[i as int]@);
                assert(vb[j as int] == b@[j as int]@);
            }
            if same_token(&a[i], &b[j]) {
                kind = Change::Equal;
            } else if rows[n - i - 1][j] >= rows[n - i][j + 1] {
                kind = Change::Delete;
            } else {
                kind = Change::Insert;
            }
        }
        let ghost x;
        if kind == Change::Insert {
            proof { x = (Change::Insert, vb[j as int]); assert(vb[j as int] == b@[j as int]@); }
            push_change(&mut out, kind, &b[j]);
            j = j + 1;
        } else if kind == Change::Delete {
            proof { x = (Change::Delete, va[i as int]); assert(va[i as int] == a@[i as int]@); }
            push_change(&mut out, kind, &a[i]);
            i = i + 1;
        } else {
            proof { x = (Change::Equal, va[i as int]); assert(va[i as int] == a@[i as int]@); }
            push_change(&mut out, kind, &a[i]);
            i = i + 1;
            j = j + 1;
        }
        proof {
            assert(rest == seq![x] + script(va, vb, i as int, j as int));
            assert(done.push(x) + script(va, vb, i as int, j as int) =~= done + rest);
            assert(done.push(x).drop_last() =~= done);
            done = done.push(x);
        }
    }
    proof {
        assert(done =~= script(va, vb, 0, 0));
    }
    out
}


/// Compares a reference text with a transcript: the runs of
/// `comparison(reference, transcript)` over their UTF-8 bytes.
pub fn diff(reference: &str, transcript: &str) -> (r: Vec<Segment>)
    ensures
        segment_views(r@) == comparison(reference.spec_bytes(), transcript.spec_bytes()),
{
    let rb = reference.as_bytes_vec();
    let tb = transcript.as_bytes_vec();
    let a = tokenize(&rb);
    let b = tokenize(&tb);
    align(&a, &b)
}

/// Two comparisons of the same texts are the same.
pub proof fn lemma_diff_stable(reference: &str, transcript: &str, r1: Seq<Segment>, r2: Seq<Segment>)
    requires
        segment_views(r1) == comparison(reference.spec_bytes(), transcript.spec_bytes()),
        segment_views(r2) == comparison(reference.spec_bytes(), transcript.spec_bytes()),
    ensures
        segment_views(r1) == segment_views(r2),
{
}

} // verus!
