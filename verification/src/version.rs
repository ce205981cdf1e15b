use vstd::prelude::*;

verus! {

pub open spec fn is_version_digit(c: char) -> bool {
    '0' as int <= c as int && c as int <= '9' as int
}

pub open spec fn digit_value(c: char) -> nat {
    (c as int - '0' as int) as nat
}

/// Numeric value of a digit string, most significant digit first.
pub open spec fn segment_value(s: Seq<char>) -> nat
    decreases s.len(),
{
    if s.len() == 0 {
        0
    } else {
        segment_value(s.drop_last()) * 10 + digit_value(s.last())
    }
}

/// A valid version segment: one or more decimal digits.
pub open spec fn is_segment(s: Seq<char>) -> bool {
    s.len() > 0 && forall|i: int| 0 <= i < s.len() ==> is_version_digit(#[trigger] s[i])
}

/// The dot-separated pieces of a version string. An empty string yields one
/// empty piece; every dot opens a new piece.
pub open spec fn split_segments(s: Seq<char>) -> Seq<Seq<char>>
    decreases s.len(),
{
    if s.len() == 0 {
        seq![Seq::<char>::empty()]
    } else if s[0] == '.' {
        seq![Seq::<char>::empty()] + split_segments(s.skip(1))
    } else {
        let rest = split_segments(s.skip(1));
        seq![seq![s[0]] + rest[0]] + rest.skip(1)
    }
}

/// A well-formed version string: every dot-separated piece is a digit segment.
pub open spec fn version_wf(s: Seq<char>) -> bool {
    forall|k: int|
        0 <= k < split_segments(s).len() ==> is_segment(#[trigger] split_segments(s)[k])
}

/// Whether every segment's numeric value fits the machine word used here.
pub open spec fn version_fits(s: Seq<char>) -> bool {
    forall|k: int|
        0 <= k < split_segments(s).len() ==> segment_value(
            #[trigger] split_segments(s)[k],
        ) <= u64::MAX
}

/// The numeric values of the segments, in order.
pub open spec fn version_values(s: Seq<char>) -> Seq<nat> {
    split_segments(s).map_values(|seg: Seq<char>| segment_value(seg))
}

/// The parsed segment values read back as mathematical integers.
pub open spec fn values_of(vals: Seq<u64>) -> Seq<nat> {
    vals.map_values(|v: u64| v as nat)
}

pub proof fn lemma_split_segments_len(s: Seq<char>)
    ensures
        split_segments(s).len() >= 1,
    decreases s.len(),
{
    if s.len() == 0 {
    } else if s[0] == '.' {
    } else {
        lemma_split_segments_len(s.skip(1));
    }
}

/// Splitting at the first dot: the piece before it, then the pieces of what
/// follows it.
pub proof fn lemma_split_at_first_dot(s: Seq<char>, i: int)
    requires
        0 <= i < s.len(),
        s[i] == '.',
        forall|j: int| 0 <= j < i ==> s[j] != '.',
    ensures
        split_segments(s) == seq![s.take(i)] + split_segments(s.skip(i + 1)),
    decreases i,
{
    if i == 0 {
        assert(s.take(0) =~= Seq::<char>::empty());
        assert(split_segments(s) =~= seq![s.take(0)] + split_segments(s.skip(1)));
    } else {
        let t = s.skip(1);
        assert(t[i - 1] == '.');
        assert(forall|j: int| 0 <= j < i - 1 ==> t[j] != '.');
        lemma_split_at_first_dot(t, i - 1);
        lemma_split_segments_len(t.skip(i));
        assert(split_segments(t) == seq![t.take(i - 1)] + split_segments(t.skip(i)));
        assert(seq![s[0]] + split_segments(t)[0] =~= s.take(i));
        assert(split_segments(t).skip(1) =~= split_segments(t.skip(i)));
        assert(t.skip(i) =~= s.skip(i + 1));
        assert(split_segments(s) =~= seq![s.take(i)] + split_segments(s.skip(i + 1)));
    }
}

/// A string without a dot is a single piece.
pub proof fn lemma_split_no_dot(s: Seq<char>)
    requires
        forall|j: int| 0 <= j < s.len() ==> s[j] != '.',
    ensures
        split_segments(s) == seq![s],
    decreases s.len(),
{
    if s.len() == 0 {
        assert(split_segments(s) =~~= seq![s]);
    } else {
        lemma_split_no_dot(s.skip(1));
        let rest = split_segments(s.skip(1));
        assert(rest[0] == s.skip(1));
        assert(seq![s[0]] + rest[0] =~= s);
        assert(rest.skip(1) =~= Seq::<Seq<char>>::empty());
        assert(split_segments(s) =~~= seq![s]);
    }
}

/// A digit string's value is at least the value of any of its prefixes.
pub proof fn lemma_segment_value_monotone(s: Seq<char>, m: int)
    requires
        0 <= m <= s.len(),
    ensures
        segment_value(s.take(m)) <= segment_value(s),
    decreases s.len() - m,
{
    if m == s.len() {
        assert(s.take(m) =~= s);
    } else {
        assert(s.take(m + 1).drop_last() =~= s.take(m));
        assert(s.take(m + 1).last() == s[m]);
        assert(segment_value(s.take(m + 1)) == segment_value(s.take(m)) * 10 + digit_value(
            s[m],
        ));
        assert(segment_value(s.take(m)) * 10 >= segment_value(s.take(m)));
        lemma_segment_value_monotone(s, m + 1);
    }
}

/// Parses one digit segment of `s`, the characters from `start` to `end`.
/// Returns its numeric value exactly when the piece is a non-empty digit
/// string whose value fits a 64-bit word.
pub fn parse_segment(s: &str, start: usize, end: usize) -> (r: Option<u64>)
    requires
        start <= end <= s@.len(),
    ensures
        r is Some <==> is_segment(s@.subrange(start as int, end as int)) && segment_value(
            s@.subrange(start as int, end as int),
        ) <= u64::MAX,
        r is Some ==> r.unwrap() as nat == segment_value(
            s@.subrange(start as int, end as int),
        ),
{
    let ghost seg = s@.subrange(start as int, end as int);
    if start == end {
        assert(seg.len() == 0);
        return None;
    }
    let mut cur: u64 = 0;
    let mut t: usize = start;
    while t < end
        invariant
            start <= t <= end <= s@.len(),
            seg == s@.subrange(start as int, end as int),
            seg.len() > 0,
            forall|j: int| start <= j < t ==> is_version_digit(#[trigger] s@[j]),
            cur as nat == segment_value(s@.subrange(start as int, t as int)),
        decreases end - t,
    {
        let c = s.get_char(t);
        let cu = c as u32;
        if cu < 48 || cu > 57 {
            assert(!is_version_digit(seg[t - start]));
            return None;
        }
        let d = (cu - 48) as u64;
        proof {
            assert(s@.subrange(start as int, t + 1).drop_last() =~= s@.subrange(
                start as int,
                t as int,
            ));
            assert(s@.subrange(start as int, t + 1).last() == s@[t as int]);
            assert(digit_value(s@[t as int]) == d as nat);
        }
        let stepped = cur.checked_mul(10);
        match stepped {
            Some(m) => {
                let next = m.checked_add(d);
                match next {
                    Some(v) => {
                        cur = v;
                    },
                    None => {
                        proof {
                            assert(segment_value(s@.subrange(start as int, t + 1)) > u64::MAX);
                            assert(seg.take(t + 1 - start) =~= s@.subrange(start as int, t + 1));
                            lemma_segment_value_monotone(seg, t + 1 - start);
                        }
                        return None;
                    },
                }
            },
            None => {
                proof {
                    assert(segment_value(s@.subrange(start as int, t + 1)) >= cur as nat * 10);
                    assert(seg.take(t + 1 - start) =~= s@.subrange(start as int, t + 1));
                    lemma_segment_value_monotone(seg, t + 1 - start);
                }
                return None;
            },
        }
        t = t + 1;
    }
    proof {
        assert(s@.subrange(start as int, end as int) =~= seg);
        assert(forall|j: int| 0 <= j < seg.len() ==> is_version_digit(#[trigger] seg[j]));
    }
    Some(cur)
}

/// Parses a dotted version string into the numeric values of its segments.
/// Returns them exactly when every dot-separated piece is a non-empty digit
/// string whose value fits a 64-bit word.
pub fn parse_version(s: &str) -> (r: Option<Vec<u64>>)
    ensures
        r is Some <==> version_wf(s@) && version_fits(s@),
        r is Some ==> values_of(r.unwrap()@) == version_values(s@),
{
    let len = s.unicode_len();
    let ghost segs = split_segments(s@);
    proof {
        lemma_split_segments_len(s@);
    }
    let mut vals: Vec<u64> = Vec::new();
    let mut pos: usize = 0;
    proof {
        assert(s@.skip(0) =~= s@);
    }
    loop
        invariant
            0 <= pos <= len,
            len == s@.len(),
            segs == split_segments(s@),
            vals@.len() <= segs.len(),
            split_segments(s@.skip(pos as int)) == segs.skip(vals@.len() as int),
            forall|t: int|
                0 <= t < vals@.len() ==> (#[trigger] vals@[t]) as nat == segment_value(segs[t]),
            forall|k: int|
                0 <= k < vals@.len() ==> is_segment(#[trigger] segs[k]) && segment_value(
                    segs[k],
                ) <= u64::MAX,
        decreases len - pos,
    {
        let ghost k = vals@.len() as int;
        proof {
            lemma_split_segments_len(s@.skip(pos as int));
        }
        // find the next dot at or after pos
        let mut j: usize = pos;
        while j < len && !(s.get_char(j) == '.')
            invariant
                pos <= j <= len,
                len == s@.len(),
                forall|t: int| pos <= t < j ==> s@[t] != '.',
            decreases len - j,
        {
            j = j + 1;
        }
        if j < len {
            proof {
                let suf = s@.skip(pos as int);
                assert(suf[j - pos] == '.');
                assert(forall|t: int| 0 <= t < j - pos ==> suf[t] != '.');
                lemma_split_at_first_dot(suf, j - pos);
                assert(suf.take(j - pos) =~= s@.subrange(pos as int, j as int));
                assert(suf.skip(j - pos + 1) =~= s@.skip(j + 1));
                assert(segs.skip(k)[0] == suf.take(j - pos));
                assert(segs.skip(k)[0] == segs[k]);
                assert(segs[k] == s@.subrange(pos as int, j as int));
                assert(segs.skip(k).skip(1) =~= segs.skip(k + 1));
                assert(split_segments(s@.skip(j + 1)) == segs.skip(k + 1));
            }
            let v = match parse_segment(s, pos, j) {
                Some(v) => v,
                None => {
                    return None;
                },
            };
            vals.push(v);
            pos = j + 1;
        } else {
            proof {
                let suf = s@.skip(pos as int);
                assert(forall|t: int| 0 <= t < suf.len() ==> suf[t] != '.');
                lemma_split_no_dot(suf);
                assert(suf =~= s@.subrange(pos as int, len as int));
                assert(segs.skip(k) =~= seq![suf]);
                assert(segs.skip(k)[0] == segs[k]);
                assert(segs[k] == s@.subrange(pos as int, len as int));
                assert(segs.len() == k + 1);
            }
            let v = match parse_segment(s, pos, len) {
                Some(v) => v,
                None => {
                    return None;
                },
            };
            vals.push(v);
            proof {
                assert forall|t: int| 0 <= t < segs.len() implies is_segment(
                    #[trigger] segs[t],
                ) && segment_value(segs[t]) <= u64::MAX by {}
                assert forall|t: int|
                    0 <= t < segs.len() implies values_of(vals@)[t] == version_values(s@)[t] by {
                    assert(vals@[t] as nat == segment_value(segs[t]));
                }
                assert(values_of(vals@) =~= version_values(s@));
            }
            return Some(vals);
        }
    }
}

/// The segment value at position `i`, with missing trailing segments read
/// as zero.
pub open spec fn padded(a: Seq<nat>, i: int) -> nat {
    if 0 <= i < a.len() {
        a[i]
    } else {
        0
    }
}

pub open spec fn pair_len(a: Seq<nat>, b: Seq<nat>) -> int {
    if a.len() >= b.len() {
        a.len() as int
    } else {
        b.len() as int
    }
}

/// Lexicographic comparison of two segment-value lists from position `i`,
/// the shorter list padded with zeros: -1, 0 or 1.
pub open spec fn cmp_segments_from(a: Seq<nat>, b: Seq<nat>, i: int) -> int
    decreases pair_len(a, b) - i,
{
    if i < 0 || i >= pair_len(a, b) {
        0
    } else if padded(a, i) < padded(b, i) {
        -1
    } else if padded(a, i) > padded(b, i) {
        1
    } else {
        cmp_segments_from(a, b, i + 1)
    }
}

/// Dotted-numeric version order: segment-by-segment numeric comparison,
/// missing segments counting as zero.
pub open spec fn cmp_segments(a: Seq<nat>, b: Seq<nat>) -> int {
    cmp_segments_from(a, b, 0)
}

/// Two lists compare equal from `i` exactly when they agree, zero-padded,
/// at every position from `i` on.
pub proof fn lemma_cmp_eq_from(a: Seq<nat>, b: Seq<nat>, i: int)
    requires
        i >= 0,
    ensures
        cmp_segments_from(a, b, i) == 0 <==> (forall|j: int|
            j >= i ==> padded(a, j) == padded(b, j)),
    decreases pair_len(a, b) - i,
{
    if i >= pair_len(a, b) {
        assert(forall|j: int| j >= pair_len(a, b) ==> padded(a, j) == 0 && padded(b, j) == 0);
    } else {
        lemma_cmp_eq_from(a, b, i + 1);
    }
}

/// Comparing from `i` is negative exactly when there is a first position at
/// or after `i` where the lists differ, and the first list is smaller there.
pub proof fn lemma_cmp_lt_from(a: Seq<nat>, b: Seq<nat>, i: int)
    requires
        i >= 0,
    ensures
        cmp_segments_from(a, b, i) == -1 <==> (exists|j: int|
            j >= i && padded(a, j) < padded(b, j) && (forall|t: int|
                i <= t < j ==> padded(a, t) == padded(b, t))),
        cmp_segments_from(a, b, i) == -1 || cmp_segments_from(a, b, i) == 0
            || cmp_segments_from(a, b, i) == 1,
    decreases pair_len(a, b) - i,
{
    if i >= pair_len(a, b) {
        assert(forall|j: int| j >= pair_len(a, b) ==> padded(a, j) == 0 && padded(b, j) == 0);
    } else {
        lemma_cmp_lt_from(a, b, i + 1);
        if padded(a, i) < padded(b, i) {
            assert(padded(a, i) < padded(b, i) && (forall|t: int|
                i <= t < i ==> padded(a, t) == padded(b, t)));
        } else if padded(a, i) == padded(b, i) {
            if cmp_segments_from(a, b, i + 1) == -1 {
                let j = choose|j: int|
                    j >= i + 1 && padded(a, j) < padded(b, j) && (forall|t: int|
                        i + 1 <= t < j ==> padded(a, t) == padded(b, t));
                assert(j >= i && padded(a, j) < padded(b, j) && (forall|t: int|
                    i <= t < j ==> padded(a, t) == padded(b, t)));
            }
        }
    }
}

/// Swapping the operands negates the comparison.
pub proof fn lemma_cmp_antisymmetric(a: Seq<nat>, b: Seq<nat>, i: int)
    ensures
        cmp_segments_from(a, b, i) == -cmp_segments_from(b, a, i),
    decreases pair_len(a, b) - i,
{
    if i < 0 || i >= pair_len(a, b) {
    } else {
        lemma_cmp_antisymmetric(a, b, i + 1);
    }
}

/// The version order is a strict total order on zero-padded segment lists:
/// it never relates a list below itself, it is asymmetric, transitive, and
/// any two lists are either ordered or agree at every padded position.
pub proof fn lemma_version_order_strict_total(a: Seq<nat>, b: Seq<nat>, c: Seq<nat>)
    ensures
        cmp_segments(a, a) == 0,
        cmp_segments(a, b) == -cmp_segments(b, a),
        cmp_segments(a, b) == -1 && cmp_segments(b, c) == -1 ==> cmp_segments(a, c) == -1,
        cmp_segments(a, b) == -1 || cmp_segments(a, b) == 0 || cmp_segments(a, b) == 1,
        cmp_segments(a, b) == 0 <==> (forall|j: int| j >= 0 ==> padded(a, j) == padded(b, j)),
{
    lemma_cmp_eq_from(a, a, 0);
    lemma_cmp_eq_from(a, b, 0);
    lemma_cmp_antisymmetric(a, b, 0);
    lemma_cmp_lt_from(a, b, 0);
    lemma_cmp_lt_from(b, c, 0);
    lemma_cmp_lt_from(a, c, 0);
    if cmp_segments(a, b) == -1 && cmp_segments(b, c) == -1 {
        let j1 = choose|j: int|
            j >= 0 && padded(a, j) < padded(b, j) && (forall|t: int|
                0 <= t < j ==> padded(a, t) == padded(b, t));
        let j2 = choose|j: int|
            j >= 0 && padded(b, j) < padded(c, j) && (forall|t: int|
                0 <= t < j ==> padded(b, t) == padded(c, t));
        let j = if j1 <= j2 {
            j1
        } else {
            j2
        };
        assert(padded(a, j) < padded(c, j));
        assert(forall|t: int| 0 <= t < j ==> padded(a, t) == padded(c, t));
    }
}

/// Compares two parsed versions segment by segment, the shorter one padded
/// with zeros: -1 when the first is older, 0 when equal, 1 when newer.
pub fn compare_versions(a: &Vec<u64>, b: &Vec<u64>) -> (r: i8)
    ensures
        r as int == cmp_segments(values_of(a@), values_of(b@)),
{
    let ghost am = values_of(a@);
    let ghost bm = values_of(b@);
    let alen = a.len();
    let blen = b.len();
    let n = if alen >= blen {
        alen
    } else {
        blen
    };
    assert(n == pair_len(am, bm));
    let mut i: usize = 0;
    while i < n
        invariant
            0 <= i <= n,
            n == pair_len(am, bm),
            alen == a@.len(),
            blen == b@.len(),
            am == values_of(a@),
            bm == values_of(b@),
            cmp_segments(am, bm) == cmp_segments_from(am, bm, i as int),
        decreases n - i,
    {
        let x = if i < alen {
            a[i]
        } else {
            0
        };
        let y = if i < blen {
            b[i]
        } else {
            0
        };
        assert(x as nat == padded(am, i as int));
        assert(y as nat == padded(bm, i as int));
        if x < y {
            return -1;
        }
        if x > y {
            return 1;
        }
        i = i + 1;
    }
    0
}

} // verus!
