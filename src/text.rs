//! Character-level text handling: whitespace trimming, `|`-separated
//! segments and one-line descriptions.
use vstd::prelude::*;

verus! {

/// The character that separates the segments of a query.
pub const SEGMENT_DELIMITER: char = '|';

/// Unicode `White_Space`, the set that `char::is_whitespace` tests.
pub open spec fn is_ws(c: char) -> bool {
    let v = c as u32;
    (9 <= v <= 13) || v == 32 || v == 0x85 || v == 0xa0 || v == 0x1680 || (0x2000 <= v
        <= 0x200a) || v == 0x2028 || v == 0x2029 || v == 0x202f || v == 0x205f || v == 0x3000
}

/// Whether `c` is whitespace, as `char::is_whitespace` decides.
pub fn is_whitespace_char(c: char) -> (r: bool)
    ensures
        r == is_ws(c),
{
    let v = c as u32;
    (9 <= v && v <= 13) || v == 32 || v == 0x85 || v == 0xa0 || v == 0x1680 || (0x2000 <= v && v
        <= 0x200a) || v == 0x2028 || v == 0x2029 || v == 0x202f || v == 0x205f || v == 0x3000
}

/// `s` without its leading whitespace.
pub open spec fn trim_start(s: Seq<char>) -> Seq<char>
    decreases s.len(),
{
    if s.len() > 0 && is_ws(s[0]) {
        trim_start(s.drop_first())
    } else {
        s
    }
}

/// `s` without its trailing whitespace.
pub open spec fn trim_end(s: Seq<char>) -> Seq<char>
    decreases s.len(),
{
    if s.len() > 0 && is_ws(s.last()) {
        trim_end(s.drop_last())
    } else {
        s
    }
}

/// `s` without surrounding whitespace, as `str::trim` gives it.
pub open spec fn trim(s: Seq<char>) -> Seq<char> {
    trim_end(trim_start(s))
}

/// The pieces of `s` between occurrences of `d`, as `str::split` gives them:
/// always at least one piece, possibly empty ones.
pub open spec fn split_on(s: Seq<char>, d: char) -> Seq<Seq<char>>
    decreases s.len(),
{
    if s.len() == 0 {
        seq![Seq::<char>::empty()]
    } else {
        let p = split_on(s.drop_last(), d);
        if s.last() == d {
            p.push(Seq::<char>::empty())
        } else {
            p.update(p.len() - 1, p.last().push(s.last()))
        }
    }
}

/// The trimmed pieces that are not empty, in order.
pub open spec fn kept(segs: Seq<Seq<char>>) -> Seq<Seq<char>>
    decreases segs.len(),
{
    if segs.len() == 0 {
        Seq::<Seq<char>>::empty()
    } else {
        let k = kept(segs.drop_last());
        let t = trim(segs.last());
        if t.len() > 0 {
            k.push(t)
        } else {
            k
        }
    }
}

/// The parts written one after another with `sep` between neighbours.
pub open spec fn join(parts: Seq<Seq<char>>, sep: char) -> Seq<char>
    decreases parts.len(),
{
    if parts.len() == 0 {
        Seq::<char>::empty()
    } else if parts.len() == 1 {
        parts[0]
    } else {
        join(parts.drop_last(), sep).push(sep) + parts.last()
    }
}

/// The non-blank segments of `s`, trimmed, joined by `sep`.
pub open spec fn segments_joined(s: Seq<char>, sep: char) -> Seq<char> {
    join(kept(split_on(s, SEGMENT_DELIMITER)), sep)
}

/// The normal form of a query text: its non-blank segments, trimmed, joined by `|`.
pub open spec fn normalized(s: Seq<char>) -> Seq<char> {
    segments_joined(s, SEGMENT_DELIMITER)
}

/// At most the first `n` characters of `s`.
pub open spec fn take_chars(s: Seq<char>, n: nat) -> Seq<char> {
    if s.len() <= n {
        s
    } else {
        s.take(n as int)
    }
}

/// Each whitespace character of `s` replaced by a space.
pub open spec fn spaces_for_ws(s: Seq<char>) -> Seq<char> {
    Seq::new(s.len(), |i: int| if is_ws(s[i]) { ' ' } else { s[i] })
}

/// `s` as one trimmed line, cut to `max` characters, the last of them an ellipsis
/// where something was cut.
pub open spec fn shortened(s: Seq<char>, max: nat) -> Seq<char> {
    let t = trim(spaces_for_ws(s));
    if t.len() > max {
        t.take(max - 1).push('…')
    } else {
        t
    }
}

/// The bounds of `s@[lo..hi]` once its surrounding whitespace is removed.
pub fn trim_bounds(s: &str, lo: usize, hi: usize) -> (r: (usize, usize))
    requires
        lo <= hi <= s@.len(),
    ensures
        lo <= r.0 <= r.1 <= hi,
        s@.subrange(r.0 as int, r.1 as int) == trim(s@.subrange(lo as int, hi as int)),
{
    let mut a = lo;
    while a < hi && is_whitespace_char(s.get_char(a))
        invariant
            lo <= a <= hi <= s@.len(),
            trim_start(s@.subrange(lo as int, hi as int)) == trim_start(
                s@.subrange(a as int, hi as int),
            ),
        decreases hi - a,
    {
        assert(s@.subrange(a as int, hi as int).drop_first() =~= s@.subrange(a + 1, hi as int));
        a = a + 1;
    }
    let mut b = hi;
    while b > a && is_whitespace_char(s.get_char(b - 1))
        invariant
            lo <= a <= b <= hi <= s@.len(),
            trim_start(s@.subrange(lo as int, hi as int)) == s@.subrange(a as int, hi as int),
            trim_end(s@.subrange(a as int, hi as int)) == trim_end(
                s@.subrange(a as int, b as int),
            ),
        decreases b - a,
    {
        assert(s@.subrange(a as int, b as int).drop_last() =~= s@.subrange(a as int, b - 1));
        b = b - 1;
    }
    (a, b)
}

/// The trimmed copy of a string.
pub fn trimmed(s: &str) -> (r: &str)
    ensures
        r@ == trim(s@),
{
    let n = s.unicode_len();
    let (a, b) = trim_bounds(s, 0, n);
    assert(s@.subrange(0, n as int) =~= s@);
    s.substring_char(a, b)
}

proof fn lemma_kept_push(done: Seq<Seq<char>>, seg: Seq<char>)
    ensures
        kept(done.push(seg)) == (if trim(seg).len() > 0 {
            kept(done).push(trim(seg))
        } else {
            kept(done)
        }),
{
    assert(done.push(seg).drop_last() =~= done);
}

pub proof fn lemma_join_push(parts: Seq<Seq<char>>, t: Seq<char>, sep: char)
    ensures
        join(parts.push(t), sep) == (if parts.len() == 0 {
            t
        } else {
            join(parts, sep).push(sep) + t
        }),
{
    assert(parts.push(t).drop_last() =~= parts);
    if parts.len() == 0 {
        assert(parts.push(t)[0] == t);
    }
}

/// The non-blank segments of `s`, trimmed and joined by `sep`.
pub fn join_segments(s: &str, sep: &str) -> (r: String)
    requires
        sep@.len() == 1,
    ensures
        r@ == segments_joined(s@, sep@[0]),
{
    let n = s.unicode_len();
    let mut out = String::new();
    let mut any = false;
    let mut start: usize = 0;
    let mut i: usize = 0;
    let ghost mut done: Seq<Seq<char>> = Seq::empty();
    let ghost sc = sep@[0];
    assert(sep@ =~= seq![sc]);
    assert(s@.subrange(0, 0) =~= Seq::<char>::empty());
    loop
        invariant_except_break
            split_on(s@.subrange(0, i as int), SEGMENT_DELIMITER) == done.push(
                s@.subrange(start as int, i as int),
            ),
            out@ == join(kept(done), sc),
            any == (kept(done).len() > 0),
        invariant
            start <= i <= n,
            n == s@.len(),
            sep@ == seq![sc],
        ensures
            split_on(s@, SEGMENT_DELIMITER) == done,
            out@ == join(kept(done), sc),
        decreases n - i,
    {
        let at_end = i == n;
        if at_end || s.get_char(i) == SEGMENT_DELIMITER {
            let ghost seg = s@.subrange(start as int, i as int);
            let (a, b) = trim_bounds(s, start, i);
            proof {
                lemma_kept_push(done, seg);
                lemma_join_push(kept(done), trim(seg), sc);
            }
            if a < b {
                if any {
                    out.append(sep);
                }
                out.append(s.substring_char(a, b));
                any = true;
            }
            proof {
                done = done.push(seg);
            }
            if at_end {
                assert(s@.subrange(0, n as int) =~= s@);
                break ;
            }
            proof {
                let p = s@.subrange(0, i + 1);
                assert(p.drop_last() =~= s@.subrange(0, i as int));
                assert(s@.subrange(i + 1, i + 1) =~= Seq::<char>::empty());
            }
            start = i + 1;
        } else {
            proof {
                let p = s@.subrange(0, i + 1);
                assert(p.drop_last() =~= s@.subrange(0, i as int));
                let q = done.push(s@.subrange(start as int, i as int));
                assert(p.last() == s@[i as int]);
                assert(s@.subrange(start as int, i as int).push(s@[i as int]) =~= s@.subrange(
                    start as int,
                    i + 1,
                ));
                assert(q.update(q.len() - 1, q.last().push(p.last())) =~= done.push(
                    s@.subrange(start as int, i + 1),
                ));
            }
        }
        i = i + 1;
    }
    out
}

/// The non-blank segments of `raw`, trimmed and joined by `|`.
pub fn normalize_segments(raw: &str) -> (r: String)
    ensures
        r@ == normalized(raw@),
{
    proof {
        reveal_strlit("|");
    }
    join_segments(raw, "|")
}

/// The non-blank segments of `value`, trimmed, one per line.
pub fn format_segments_for_display(value: &str) -> (r: String)
    ensures
        r@ == segments_joined(value@, '\n'),
{
    proof {
        reveal_strlit("\n");
    }
    join_segments(value, "\n")
}

/// A one-line description of `s` of at most `max` characters: whitespace becomes
/// spaces, the ends are trimmed, and a longer line keeps its first `max - 1`
/// characters and an ellipsis.
pub fn truncate(s: &str, max: usize) -> (r: String)
    requires
        max >= 1,
    ensures
        r@ == shortened(s@, max as nat),
        r@.len() <= max,
{
    proof {
        reveal_strlit("…");
    }
    let n = s.unicode_len();
    let mut line = String::new();
    let mut i: usize = 0;
    while i < n
        invariant
            i <= n,
            n == s@.len(),
            line@ =~= spaces_for_ws(s@).take(i as int),
        decreases n - i,
    {
        let c = s.get_char(i);
        if is_whitespace_char(c) {
            line.append(" ");
            proof {
                reveal_strlit(" ");
            }
            assert(" "@ =~= seq![' ']);
        } else {
            line.append(s.substring_char(i, i + 1));
            assert(s@.subrange(i as int, i + 1) =~= seq![c]);
        }
        assert(spaces_for_ws(s@)[i as int] == (if is_ws(c) {
            ' '
        } else {
            c
        }));
        assert(spaces_for_ws(s@).take(i + 1) =~= spaces_for_ws(s@).take(i as int).push(
            spaces_for_ws(s@)[i as int],
        ));
        assert(line@ =~= spaces_for_ws(s@).take(i + 1));
        i = i + 1;
    }
    assert(line@ =~= spaces_for_ws(s@));
    let t = trimmed(line.as_str());
    let len = t.unicode_len();
    if len > max {
        let mut out = String::from_str(t.substring_char(0, max - 1));
        out.append("…");
        assert(out@ =~= t@.take(max - 1).push('…'));
        out
    } else {
        String::from_str(t)
    }
}

/// No piece holds `d`.
pub open spec fn free_of(segs: Seq<Seq<char>>, d: char) -> bool {
    forall|i: int, k: int| 0 <= i < segs.len() && 0 <= k < segs[i].len() ==> #[trigger] segs[i][k] != d
}

proof fn lemma_split_len(s: Seq<char>, d: char)
    ensures
        split_on(s, d).len() >= 1,
    decreases s.len(),
{
    if s.len() > 0 {
        lemma_split_len(s.drop_last(), d);
    }
}

proof fn lemma_split_free(s: Seq<char>, d: char)
    ensures
        free_of(split_on(s, d), d),
    decreases s.len(),
{
    if s.len() > 0 {
        lemma_split_free(s.drop_last(), d);
        lemma_split_len(s.drop_last(), d);
        let p = split_on(s.drop_last(), d);
        if s.last() != d {
            let q = p.update(p.len() - 1, p.last().push(s.last()));
            assert forall|i: int, k: int| 0 <= i < q.len() && 0 <= k < q[i].len() implies #[trigger] q[i][k] != d by {
                if i == p.len() - 1 && k < p.last().len() {
                    assert(q[i][k] == p[i][k]);
                }
            }
        } else {
            let q = p.push(Seq::<char>::empty());
            assert forall|i: int, k: int| 0 <= i < q.len() && 0 <= k < q[i].len() implies #[trigger] q[i][k] != d by {
                assert(q[i] == p[i]);
            }
        }
    }
}

/// Appending text without `d` extends the last piece.
proof fn lemma_split_extend(a: Seq<char>, b: Seq<char>, d: char)
    requires
        forall|k: int| 0 <= k < b.len() ==> b[k] != d,
    ensures
        split_on(a + b, d) == split_on(a, d).update(
            split_on(a, d).len() - 1,
            split_on(a, d).last() + b,
        ),
    decreases b.len(),
{
    lemma_split_len(a, d);
    let sa = split_on(a, d);
    if b.len() == 0 {
        assert(a + b =~= a);
        assert(sa.last() + b =~= sa.last());
        assert(sa.update(sa.len() - 1, sa.last()) =~= sa);
    } else {
        let b0 = b.drop_last();
        lemma_split_extend(a, b0, d);
        assert((a + b).drop_last() =~= a + b0);
        assert((a + b).last() == b.last());
        let p = split_on(a + b0, d);
        assert((sa.last() + b0).push(b.last()) =~= sa.last() + b);
        assert(p.update(p.len() - 1, p.last().push(b.last())) =~= sa.update(
            sa.len() - 1,
            sa.last() + b,
        ));
    }
}

/// Splitting joined pieces that do not hold the separator gives them back.
proof fn lemma_split_join(parts: Seq<Seq<char>>, d: char)
    requires
        parts.len() >= 1,
        free_of(parts, d),
    ensures
        split_on(join(parts, d), d) == parts,
    decreases parts.len(),
{
    let last = parts.last();
    assert forall|k: int| 0 <= k < last.len() implies last[k] != d by {
        assert(parts[parts.len() - 1][k] != d);
    }
    if parts.len() == 1 {
        let e = Seq::<char>::empty();
        lemma_split_extend(e, last, d);
        assert(e + last =~= last);
        assert(split_on(e, d) == seq![e]);
        assert(seq![e].update(0, e + last) =~= parts);
    } else {
        let init = parts.drop_last();
        assert forall|i: int, k: int| 0 <= i < init.len() && 0 <= k < init[i].len() implies #[trigger] init[i][k] != d by {
            assert(init[i] == parts[i]);
        }
        lemma_split_join(init, d);
        let a = join(init, d).push(d);
        lemma_split_extend(a, last, d);
        assert(a.drop_last() =~= join(init, d));
        let e = Seq::<char>::empty();
        assert(init.push(e).update(init.len() as int, e + last) =~= parts);
        assert(e + last =~= last);
    }
}

proof fn lemma_trim_start_shape(s: Seq<char>) -> (i: int)
    ensures
        0 <= i <= s.len(),
        trim_start(s) == s.subrange(i, s.len() as int),
        trim_start(s).len() > 0 ==> !is_ws(trim_start(s)[0]),
    decreases s.len(),
{
    if s.len() > 0 && is_ws(s[0]) {
        let j = lemma_trim_start_shape(s.drop_first());
        assert(s.drop_first().subrange(j, s.len() - 1) =~= s.subrange(j + 1, s.len() as int));
        j + 1
    } else {
        assert(s.subrange(0, s.len() as int) =~= s);
        0
    }
}

proof fn lemma_trim_end_shape(s: Seq<char>) -> (j: int)
    ensures
        0 <= j <= s.len(),
        trim_end(s) == s.subrange(0, j),
        trim_end(s).len() > 0 ==> !is_ws(trim_end(s).last()),
    decreases s.len(),
{
    if s.len() > 0 && is_ws(s.last()) {
        let j = lemma_trim_end_shape(s.drop_last());
        assert(s.drop_last().subrange(0, j) =~= s.subrange(0, j));
        j
    } else {
        assert(s.subrange(0, s.len() as int) =~= s);
        s.len() as int
    }
}

/// A trimmed text is its own trim, and holds only characters of the untrimmed text.
pub proof fn lemma_trim_shape(s: Seq<char>)
    ensures
        trim(trim(s)) == trim(s),
        forall|k: int| 0 <= k < trim(s).len() ==> exists|m: int| 0 <= m < s.len() && #[trigger] trim(s)[k] == s[m],
{
    let i = lemma_trim_start_shape(s);
    let u = trim_start(s);
    let j = lemma_trim_end_shape(u);
    let t = trim(s);
    assert forall|k: int| 0 <= k < t.len() implies exists|m: int| 0 <= m < s.len() && #[trigger] t[k] == s[m] by {
        assert(t[k] == u[k]);
        assert(u[k] == s[i + k]);
    }
    if t.len() > 0 {
        assert(t[0] == u[0]);
        assert(!is_ws(t[0]));
        assert(trim_start(t) == t);
        assert(trim_end(t) == t);
    } else {
        assert(trim_start(t) == t);
        assert(trim_end(t) == t);
    }
}

proof fn lemma_kept_shape(segs: Seq<Seq<char>>, d: char)
    requires
        free_of(segs, d),
    ensures
        free_of(kept(segs), d),
        forall|j: int| 0 <= j < kept(segs).len() ==> #[trigger] kept(segs)[j].len() > 0 && trim(kept(segs)[j]) == kept(segs)[j],
    decreases segs.len(),
{
    if segs.len() > 0 {
        let init = segs.drop_last();
        assert forall|i: int, k: int| 0 <= i < init.len() && 0 <= k < init[i].len() implies #[trigger] init[i][k] != d by {
            assert(init[i] == segs[i]);
        }
        lemma_kept_shape(init, d);
        let last = segs.last();
        let t = trim(last);
        lemma_trim_shape(last);
        if t.len() > 0 {
            let k0 = kept(init);
            let kk = k0.push(t);
            assert forall|i: int, k: int| 0 <= i < kk.len() && 0 <= k < kk[i].len() implies #[trigger] kk[i][k] != d by {
                if i == k0.len() {
                    let m = choose|m: int| 0 <= m < last.len() && t[k] == last[m];
                    assert(segs[segs.len() - 1][m] != d);
                } else {
                    assert(kk[i] == k0[i]);
                }
            }
        }
    }
}

proof fn lemma_kept_fixed(parts: Seq<Seq<char>>)
    requires
        forall|j: int| 0 <= j < parts.len() ==> #[trigger] parts[j].len() > 0 && trim(parts[j]) == parts[j],
    ensures
        kept(parts) == parts,
    decreases parts.len(),
{
    if parts.len() > 0 {
        let init = parts.drop_last();
        assert forall|j: int| 0 <= j < init.len() implies #[trigger] init[j].len() > 0 && trim(init[j]) == init[j] by {
            assert(init[j] == parts[j]);
        }
        lemma_kept_fixed(init);
        assert(parts[parts.len() - 1].len() > 0);
        assert(init.push(parts.last()) =~= parts);
    }
}

/// Normalising segments twice gives what normalising once gives: a normalised
/// text is its own normal form.
pub proof fn lemma_normalize_idempotent(s: Seq<char>)
    ensures
        normalized(normalized(s)) == normalized(s),
{
    let d = SEGMENT_DELIMITER;
    let p = kept(split_on(s, d));
    lemma_split_free(s, d);
    lemma_kept_shape(split_on(s, d), d);
    if p.len() == 0 {
        let e = Seq::<char>::empty();
        assert(split_on(e, d) == seq![e]);
        assert(seq![e].drop_last() =~= Seq::<Seq<char>>::empty());
        assert(trim_start(e) == e);
        assert(trim_end(e) == e);
        assert(seq![e].last() == e);
        assert(trim(e).len() == 0);
        assert(kept(Seq::<Seq<char>>::empty()) == Seq::<Seq<char>>::empty());
        assert(kept(seq![e]) == Seq::<Seq<char>>::empty());
    } else {
        lemma_split_join(p, d);
        lemma_kept_fixed(p);
    }
}

proof fn lemma_split_blank(s: Seq<char>, d: char)
    requires
        forall|m: int| 0 <= m < s.len() ==> is_ws(#[trigger] s[m]) || s[m] == d,
    ensures
        forall|i: int, k: int|
            0 <= i < split_on(s, d).len() && 0 <= k < split_on(s, d)[i].len() ==> is_ws(
                #[trigger] split_on(s, d)[i][k],
            ),
    decreases s.len(),
{
    if s.len() > 0 {
        let s0 = s.drop_last();
        assert forall|m: int| 0 <= m < s0.len() implies is_ws(#[trigger] s0[m]) || s0[m] == d by {
            assert(s0[m] == s[m]);
        }
        lemma_split_blank(s0, d);
        lemma_split_len(s0, d);
        let p = split_on(s0, d);
        if s.last() != d {
            assert(is_ws(s[s.len() - 1]));
            let q = p.update(p.len() - 1, p.last().push(s.last()));
            assert forall|i: int, k: int| 0 <= i < q.len() && 0 <= k < q[i].len() implies is_ws(#[trigger] q[i][k]) by {
                if i == p.len() - 1 && k < p.last().len() {
                    assert(q[i][k] == p[i][k]);
                }
            }
        } else {
            let q = p.push(Seq::<char>::empty());
            assert forall|i: int, k: int| 0 <= i < q.len() && 0 <= k < q[i].len() implies is_ws(#[trigger] q[i][k]) by {
                assert(q[i] == p[i]);
            }
        }
    }
}

proof fn lemma_trim_blank(s: Seq<char>)
    requires
        forall|m: int| 0 <= m < s.len() ==> is_ws(#[trigger] s[m]),
    ensures
        trim(s).len() == 0,
    decreases s.len(),
{
    if s.len() > 0 {
        let s1 = s.drop_first();
        assert forall|m: int| 0 <= m < s1.len() implies is_ws(#[trigger] s1[m]) by {
            assert(s1[m] == s[m + 1]);
        }
        lemma_trim_blank(s1);
        assert(trim_start(s) == trim_start(s1));
    } else {
        assert(trim_start(s) == s);
        assert(trim_end(s) == s);
    }
}

proof fn lemma_kept_blank(segs: Seq<Seq<char>>)
    requires
        forall|i: int, k: int| 0 <= i < segs.len() && 0 <= k < segs[i].len() ==> is_ws(#[trigger] segs[i][k]),
    ensures
        kept(segs).len() == 0,
    decreases segs.len(),
{
    if segs.len() > 0 {
        let init = segs.drop_last();
        assert forall|i: int, k: int| 0 <= i < init.len() && 0 <= k < init[i].len() implies is_ws(#[trigger] init[i][k]) by {
            assert(init[i] == segs[i]);
        }
        lemma_kept_blank(init);
        let last = segs.last();
        assert forall|m: int| 0 <= m < last.len() implies is_ws(#[trigger] last[m]) by {
            assert(segs[segs.len() - 1][m] == last[m]);
        }
        lemma_trim_blank(last);
    }
}

/// Text made of whitespace and delimiters only normalises to nothing.
pub proof fn lemma_blank_normalizes_to_empty(s: Seq<char>)
    requires
        forall|m: int| 0 <= m < s.len() ==> is_ws(#[trigger] s[m]) || s[m] == SEGMENT_DELIMITER,
    ensures
        normalized(s).len() == 0,
{
    lemma_split_blank(s, SEGMENT_DELIMITER);
    lemma_kept_blank(split_on(s, SEGMENT_DELIMITER));
}

} // verus!
