use vstd::prelude::*;
use vstd::string::StrSliceExecFns;
use vstd::string::StringExecFns;

verus! {

/// The characters of `s`, in order.
pub fn chars_of(s: &str) -> (v: Vec<char>)
    ensures
        v@ == s@,
{
    let mut v: Vec<char> = Vec::new();
    broadcast use vstd::string::group_string_axioms;
    for c in it: s.chars()
        invariant
            it.seq() == s@,
            v@ == s@.take(it.index() as int),
    {
        v.push(c);
    }
    assert(v@ =~= s@);
    v
}


/// Whether `a` and `b` hold the same characters.
pub fn chars_eq(a: &Vec<char>, b: &Vec<char>) -> (eq: bool)
    ensures
        eq == (a@ == b@),
{
    if a.len() != b.len() {
        return false;
    }
    let n = a.len();
    let mut i: usize = 0;
    while i < n
        invariant
            n == a@.len(),
            n == b@.len(),
            i <= n,
            forall|j: int| 0 <= j < i ==> a@[j] == b@[j],
        decreases n - i,
    {
        if a[i] != b[i] {
            return false;
        }
        i = i + 1;
    }
    assert(a@ =~= b@);
    true
}

/// Whether the strings `a` and `b` are equal.
pub fn str_eq(a: &str, b: &str) -> (eq: bool)
    ensures
        eq == (a@ == b@),
{
    let va = chars_of(a);
    let vb = chars_of(b);
    chars_eq(&va, &vb)
}

/// The characters with the Unicode `White_Space` property.
pub open spec fn spec_is_whitespace(c: char) -> bool {
    let u = c as u32;
    ||| 0x09 <= u <= 0x0D
    ||| u == 0x20
    ||| u == 0x85
    ||| u == 0xA0
    ||| u == 0x1680
    ||| 0x2000 <= u <= 0x200A
    ||| u == 0x2028
    ||| u == 0x2029
    ||| u == 0x202F
    ||| u == 0x205F
    ||| u == 0x3000
}

/// Whether `c` has the Unicode `White_Space` property, as
/// `char::is_whitespace` answers.
pub fn is_whitespace(c: char) -> (ws: bool)
    ensures
        ws == spec_is_whitespace(c),
{
    let u = c as u32;
    (0x09 <= u && u <= 0x0D) || u == 0x20 || u == 0x85 || u == 0xA0 || u == 0x1680 || (0x2000
        <= u && u <= 0x200A) || u == 0x2028 || u == 0x2029 || u == 0x202F || u == 0x205F || u
        == 0x3000
}

/// `s` without its leading whitespace.
pub open spec fn spec_trim_start(s: Seq<char>) -> Seq<char>
    decreases s.len(),
{
    if s.len() > 0 && spec_is_whitespace(s[0]) {
        spec_trim_start(s.drop_first())
    } else {
        s
    }
}

/// `s` without its trailing whitespace.
pub open spec fn spec_trim_end(s: Seq<char>) -> Seq<char>
    decreases s.len(),
{
    if s.len() > 0 && spec_is_whitespace(s.last()) {
        spec_trim_end(s.drop_last())
    } else {
        s
    }
}

/// `s` without leading and trailing whitespace.
pub open spec fn spec_trim(s: Seq<char>) -> Seq<char> {
    spec_trim_end(spec_trim_start(s))
}

/// The bounds of `v[lo..hi]` once leading and trailing whitespace is removed.
pub fn trim_bounds(v: &Vec<char>, lo: usize, hi: usize) -> (r: (usize, usize))
    requires
        lo <= hi <= v@.len(),
    ensures
        lo <= r.0 <= r.1 <= hi,
        v@.subrange(r.0 as int, r.1 as int) == spec_trim(v@.subrange(lo as int, hi as int)),
{
    let mut a = lo;
    while a < hi && is_whitespace(v[a])
        invariant
            lo <= a <= hi <= v@.len(),
            spec_trim_start(v@.subrange(lo as int, hi as int)) == spec_trim_start(
                v@.subrange(a as int, hi as int),
            ),
        decreases hi - a,
    {
        assert(v@.subrange(a as int, hi as int).drop_first() =~= v@.subrange(
            a + 1,
            hi as int,
        ));
        a = a + 1;
    }
    let mut b = hi;
    while b > a && is_whitespace(v[b - 1])
        invariant
            lo <= a <= b <= hi <= v@.len(),
            spec_trim_start(v@.subrange(lo as int, hi as int)) == v@.subrange(a as int, hi as int),
            spec_trim(v@.subrange(lo as int, hi as int)) == spec_trim_end(
                v@.subrange(a as int, b as int),
            ),
        decreases b - a,
    {
        assert(v@.subrange(a as int, b as int).drop_last() =~= v@.subrange(
            a as int,
            b - 1,
        ));
        b = b - 1;
    }
    (a, b)
}


/// The pieces of `s` between occurrences of `sep`, as `str::split` yields
/// them: `n` separators give `n + 1` pieces, empty ones included.
pub open spec fn spec_split(s: Seq<char>, sep: char) -> Seq<Seq<char>>
    decreases s.len(),
{
    if s.len() == 0 {
        seq![Seq::<char>::empty()]
    } else {
        let p = spec_split(s.drop_last(), sep);
        if s.last() == sep {
            p.push(Seq::<char>::empty())
        } else {
            p.update(p.len() - 1, p.last().push(s.last()))
        }
    }
}

/// Each piece trimmed of whitespace, with the pieces left empty removed.
pub open spec fn spec_trimmed_nonempty(pieces: Seq<Seq<char>>) -> Seq<Seq<char>>
    decreases pieces.len(),
{
    if pieces.len() == 0 {
        Seq::<Seq<char>>::empty()
    } else {
        let r = spec_trimmed_nonempty(pieces.drop_last());
        let t = spec_trim(pieces.last());
        if t.len() > 0 {
            r.push(t)
        } else {
            r
        }
    }
}

/// The views of a list of strings.
pub open spec fn string_views(v: Seq<String>) -> Seq<Seq<char>> {
    v.map_values(|t: String| t@)
}

/// Splits `s` at each `sep`, trims each piece of whitespace and keeps the
/// pieces that are not empty, in order.
pub fn split_trimmed_nonempty(s: &str, sep: char) -> (out: Vec<String>)
    ensures
        string_views(out@) == spec_trimmed_nonempty(spec_split(s@, sep)),
{
    let v = chars_of(s);
    let n = v.len();
    let mut out: Vec<String> = Vec::new();
    let mut start: usize = 0;
    let ghost mut done: Seq<Seq<char>> = Seq::empty();
    assert(v@.take(0) =~= Seq::<char>::empty());
    assert(spec_split(v@.take(0), sep) =~= done.push(v@.subrange(0, 0)));
    let mut i: usize = 0;
    while i < n
        invariant
            n == v@.len(),
            v@ == s@,
            start <= i <= n,
            spec_split(v@.take(i as int), sep) == done.push(v@.subrange(start as int, i as int)),
            string_views(out@) == spec_trimmed_nonempty(done),
        decreases n - i,
    {
        assert(v@.take(i + 1).drop_last() =~= v@.take(i as int));
        assert(v@.take(i + 1).last() == v@[i as int]);
        if v[i] == sep {
            let (a, b) = trim_bounds(&v, start, i);
            let ghost piece = v@.subrange(start as int, i as int);
            if a < b {
                let t = String::from_str(s.substring_char(a, b));
                let ghost before = out@;
                out.push(t);
                assert(string_views(out@) =~= string_views(before).push(t@));
            }
            proof {
                assert(done.push(piece).drop_last() =~= done);
                done = done.push(piece);
            }
            start = i + 1;
            assert(v@.subrange(start as int, (i + 1) as int) =~= Seq::<char>::empty());
            assert(spec_split(v@.take(i + 1), sep) =~~= done.push(
                v@.subrange(start as int, (i + 1) as int),
            ));
        } else {
            assert(v@.subrange(start as int, i as int).push(v@[i as int]) =~= v@.subrange(
                start as int,
                (i + 1) as int,
            ));
            assert(spec_split(v@.take(i + 1), sep) =~~= done.push(
                v@.subrange(start as int, (i + 1) as int),
            ));
        }
        i = i + 1;
    }
    assert(v@.take(n as int) =~= v@);
    let (a, b) = trim_bounds(&v, start, n);
    let ghost piece = v@.subrange(start as int, n as int);
    if a < b {
        let t = String::from_str(s.substring_char(a, b));
        let ghost before = out@;
        out.push(t);
        assert(string_views(out@) =~= string_views(before).push(t@));
    }
    assert(done.push(piece).drop_last() =~= done);
    out
}


/// Whether `c` is an ASCII decimal digit.
pub open spec fn spec_is_digit(c: char) -> bool {
    48 <= (c as u32) <= 57
}

/// The value of the decimal digits `s`.
pub open spec fn spec_digits_value(s: Seq<char>) -> nat
    decreases s.len(),
{
    if s.len() == 0 {
        0
    } else {
        spec_digits_value(s.drop_last()) * 10 + ((s.last() as u32) - 48) as nat
    }
}

/// The digits of an unsigned integer literal: one leading `+` is allowed
/// when something follows it.
pub open spec fn spec_unsigned_digits(s: Seq<char>) -> Seq<char> {
    if s.len() > 1 && s[0] == '+' {
        s.drop_first()
    } else {
        s
    }
}

/// What `str::parse` gives for an unsigned integer type whose largest value
/// is `max`: the value when `s` is an optional `+` followed by one or more
/// ASCII digits and the value fits, else nothing.
pub open spec fn spec_parse_unsigned(s: Seq<char>, max: nat) -> Option<nat> {
    let d = spec_unsigned_digits(s);
    if d.len() > 0 && (forall|i: int| 0 <= i < d.len() ==> spec_is_digit(#[trigger] d[i]))
        && spec_digits_value(d) <= max {
        Some(spec_digits_value(d))
    } else {
        None
    }
}

proof fn lemma_prefix_value_le(s: Seq<char>, k: int)
    requires
        0 <= k <= s.len(),
    ensures
        spec_digits_value(s.take(k)) <= spec_digits_value(s),
    decreases s.len(),
{
    if k < s.len() {
        assert(s.drop_last().take(k) =~= s.take(k));
        lemma_prefix_value_le(s.drop_last(), k);
    } else {
        assert(s.take(k) =~= s);
    }
}

/// Parses a decimal `u64` as `str::parse::<u64>` does.
pub fn parse_u64(s: &str) -> (r: Option<u64>)
    ensures
        match r {
            Some(x) => spec_parse_unsigned(s@, u64::MAX as nat) == Some(x as nat),
            None => spec_parse_unsigned(s@, u64::MAX as nat) is None,
        },
{
    let v = chars_of(s);
    let n = v.len();
    let start: usize = if n > 1 && v[0] == '+' { 1 } else { 0 };
    let ghost d = spec_unsigned_digits(s@);
    assert(d =~= v@.subrange(start as int, n as int));
    if start == n {
        return None;
    }
    let mut acc: u64 = 0;
    let mut i: usize = start;
    assert(d.take(0) =~= Seq::<char>::empty());
    while i < n
        invariant
            v@ == s@,
            n == v@.len(),
            start <= i <= n,
            d == spec_unsigned_digits(s@),
            d == v@.subrange(start as int, n as int),
            forall|j: int| 0 <= j < i - start ==> spec_is_digit(#[trigger] d[j]),
            acc as nat == spec_digits_value(d.take(i - start)),
        decreases n - i,
    {
        let u = v[i] as u32;
        if u < 48 || u > 57 {
            assert(!spec_is_digit(d[i - start]));
            return None;
        }
        assert(d.take(i - start + 1).drop_last() =~= d.take(i - start));
        let digit = (u - 48) as u64;
        let next = match acc.checked_mul(10) {
            Some(t) => t.checked_add(digit),
            None => None,
        };
        match next {
            Some(x) => {
                acc = x;
            },
            None => {
                proof {
                    if forall|j: int| 0 <= j < d.len() ==> spec_is_digit(#[trigger] d[j]) {
                        lemma_prefix_value_le(d, i - start + 1);
                    }
                }
                return None;
            },
        }
        i = i + 1;
    }
    assert(d.take(n - start) =~= d);
    Some(acc)
}

/// Parses a decimal `usize` as `str::parse::<usize>` does.
pub fn parse_usize(s: &str) -> (r: Option<usize>)
    ensures
        match r {
            Some(x) => spec_parse_unsigned(s@, usize::MAX as nat) == Some(x as nat),
            None => spec_parse_unsigned(s@, usize::MAX as nat) is None,
        },
{
    match parse_u64(s) {
        Some(x) => {
            if x <= usize::MAX as u64 {
                Some(x as usize)
            } else {
                None
            }
        },
        None => None,
    }
}

/// The part of `s` before the first `c` (all of `s` when it holds none).
pub open spec fn spec_before_char(s: Seq<char>, c: char) -> Seq<char>
    decreases s.len(),
{
    if s.len() == 0 {
        s
    } else if s[0] == c {
        Seq::<char>::empty()
    } else {
        seq![s[0]] + spec_before_char(s.drop_first(), c)
    }
}

/// The part before the first `c` ends at the first `c`.
pub proof fn lemma_before_char_at(s: Seq<char>, c: char, j: int)
    requires
        0 <= j <= s.len(),
        forall|i: int| 0 <= i < j ==> s[i] != c,
        j == s.len() || s[j] == c,
    ensures
        spec_before_char(s, c) == s.take(j),
    decreases j,
{
    if j == 0 {
        assert(s.take(0) =~= Seq::<char>::empty());
    } else {
        let t = s.drop_first();
        assert forall|i: int| 0 <= i < j - 1 implies t[i] != c by {
            assert(t[i] == s[i + 1]);
        }
        lemma_before_char_at(t, c, j - 1);
        assert(s.take(j) =~= seq![s[0]] + t.take(j - 1));
    }
}


/// The first index from `lo` on where `v[..hi]` stops being whitespace.
pub fn trim_start_index(v: &Vec<char>, lo: usize, hi: usize) -> (a: usize)
    requires
        lo <= hi <= v@.len(),
    ensures
        lo <= a <= hi,
        v@.subrange(a as int, hi as int) == spec_trim_start(v@.subrange(lo as int, hi as int)),
{
    let mut a = lo;
    while a < hi && is_whitespace(v[a])
        invariant
            lo <= a <= hi <= v@.len(),
            spec_trim_start(v@.subrange(lo as int, hi as int)) == spec_trim_start(
                v@.subrange(a as int, hi as int),
            ),
        decreases hi - a,
    {
        assert(v@.subrange(a as int, hi as int).drop_first() =~= v@.subrange(
            a + 1,
            hi as int,
        ));
        a = a + 1;
    }
    a
}

/// The index of the first `c` in `v[lo..]`, or the length of `v`.
pub fn find_char(v: &Vec<char>, lo: usize, c: char) -> (e: usize)
    requires
        lo <= v@.len(),
    ensures
        lo <= e <= v@.len(),
        v@.subrange(lo as int, e as int) == spec_before_char(v@.skip(lo as int), c),
        e < v@.len() ==> v@[e as int] == c,
{
    let n = v.len();
    let mut e = lo;
    while e < n && v[e] != c
        invariant
            lo <= e <= n == v@.len(),
            forall|i: int| lo <= i < e ==> v@[i] != c,
        decreases n - e,
    {
        e = e + 1;
    }
    proof {
        let rest = v@.skip(lo as int);
        assert forall|i: int| 0 <= i < e - lo implies rest[i] != c by {
            assert(rest[i] == v@[lo + i]);
        }
        lemma_before_char_at(rest, c, e - lo);
        assert(rest.take(e - lo) =~= v@.subrange(lo as int, e as int));
    }
    e
}


/// The part of `t` before the first `c` is a prefix of `t` free of `c`,
/// followed in `t` by `c` or by nothing.
pub proof fn lemma_before_char_props(t: Seq<char>, c: char)
    ensures
        spec_before_char(t, c).len() <= t.len(),
        spec_before_char(t, c) == t.take(spec_before_char(t, c).len() as int),
        forall|i: int| 0 <= i < spec_before_char(t, c).len() ==> t[i] != c,
        spec_before_char(t, c).len() < t.len() ==> t[spec_before_char(t, c).len() as int] == c,
    decreases t.len(),
{
    if t.len() > 0 && t[0] != c {
        let u = t.drop_first();
        lemma_before_char_props(u, c);
        let b = spec_before_char(u, c);
        assert(spec_before_char(t, c) == seq![t[0]] + b);
        assert(seq![t[0]] + b =~= t.take(b.len() + 1int));
        assert forall|i: int| 0 <= i < b.len() + 1 implies t[i] != c by {
            if i > 0 {
                assert(t[i] == u[i - 1]);
            }
        }
    } else {
        assert(t.take(0) =~= Seq::<char>::empty());
    }
}


/// Leading whitespace removal drops a prefix, and leaves no leading
/// whitespace.
proof fn lemma_trim_start_props(t: Seq<char>)
    ensures
        exists|k: int| 0 <= k <= t.len() && spec_trim_start(t) == t.skip(k),
        spec_trim_start(t).len() > 0 ==> !spec_is_whitespace(spec_trim_start(t)[0]),
    decreases t.len(),
{
    if t.len() > 0 && spec_is_whitespace(t[0]) {
        lemma_trim_start_props(t.drop_first());
        let k = choose|k: int|
            0 <= k <= t.drop_first().len() && spec_trim_start(t.drop_first()) == t.drop_first().skip(
                k,
            );
        assert(t.drop_first().skip(k) =~= t.skip(k + 1));
    } else {
        assert(t.skip(0) =~= t);
    }
}

/// Trailing whitespace removal keeps a prefix, and leaves no trailing
/// whitespace.
proof fn lemma_trim_end_props(t: Seq<char>)
    ensures
        exists|j: int| 0 <= j <= t.len() && spec_trim_end(t) == t.take(j),
        spec_trim_end(t).len() > 0 ==> !spec_is_whitespace(spec_trim_end(t).last()),
    decreases t.len(),
{
    if t.len() > 0 && spec_is_whitespace(t.last()) {
        lemma_trim_end_props(t.drop_last());
        let j = choose|j: int|
            0 <= j <= t.drop_last().len() && spec_trim_end(t.drop_last()) == t.drop_last().take(j);
        assert(t.drop_last().take(j) =~= t.take(j));
    } else {
        assert(t.take(t.len() as int) =~= t);
    }
}

/// A trimmed text is a piece of the original without whitespace at either
/// end.
pub proof fn lemma_trim_props(t: Seq<char>)
    ensures
        forall|i: int| 0 <= i < spec_trim(t).len() ==> t.contains(#[trigger] spec_trim(t)[i]),
        spec_trim(t).len() > 0 ==> !spec_is_whitespace(spec_trim(t)[0]) && !spec_is_whitespace(
            spec_trim(t).last(),
        ),
{
    lemma_trim_start_props(t);
    let x = spec_trim_start(t);
    lemma_trim_end_props(x);
    let k = choose|k: int| 0 <= k <= t.len() && x == t.skip(k);
    let j = choose|j: int| 0 <= j <= x.len() && spec_trim_end(x) == x.take(j);
    assert forall|i: int| 0 <= i < spec_trim(t).len() implies t.contains(#[trigger] spec_trim(t)[i]) by {
        assert(spec_trim(t)[i] == t[k + i]);
    }
    if spec_trim(t).len() > 0 {
        assert(spec_trim(t)[0] == x[0]);
    }
}

/// No piece of a split holds the separator.
proof fn lemma_split_pieces_free(s: Seq<char>, sep: char)
    ensures
        spec_split(s, sep).len() >= 1,
        forall|i: int| 0 <= i < spec_split(s, sep).len() ==> !(#[trigger] spec_split(s, sep)[i]).contains(sep),
    decreases s.len(),
{
    if s.len() > 0 {
        lemma_split_pieces_free(s.drop_last(), sep);
        let p = spec_split(s.drop_last(), sep);
        if s.last() != sep {
            let q = p.last().push(s.last());
            assert forall|j: int| 0 <= j < q.len() implies q[j] != sep by {
                if j < p.last().len() {
                    assert(!p[p.len() - 1].contains(sep));
                    assert(q[j] == p.last()[j]);
                }
            }
            assert forall|i: int| 0 <= i < spec_split(s, sep).len() implies !(#[trigger] spec_split(s, sep)[i]).contains(sep) by {
                if i < p.len() - 1 {
                    assert(spec_split(s, sep)[i] == p[i]);
                }
            }
        } else {
            assert forall|i: int| 0 <= i < spec_split(s, sep).len() implies !(#[trigger] spec_split(s, sep)[i]).contains(sep) by {
                if i < p.len() {
                    assert(spec_split(s, sep)[i] == p[i]);
                }
            }
        }
    }
}

proof fn lemma_trimmed_nonempty_props(pieces: Seq<Seq<char>>, sep: char)
    requires
        forall|i: int| 0 <= i < pieces.len() ==> !(#[trigger] pieces[i]).contains(sep),
    ensures
        forall|i: int|
            0 <= i < spec_trimmed_nonempty(pieces).len() ==> {
                let t = #[trigger] spec_trimmed_nonempty(pieces)[i];
                &&& t.len() > 0
                &&& !t.contains(sep)
                &&& !spec_is_whitespace(t[0])
                &&& !spec_is_whitespace(t.last())
            },
    decreases pieces.len(),
{
    if pieces.len() > 0 {
        let pre = pieces.drop_last();
        assert forall|i: int| 0 <= i < pre.len() implies !(#[trigger] pre[i]).contains(sep) by {
            assert(pre[i] == pieces[i]);
        }
        lemma_trimmed_nonempty_props(pre, sep);
        let last = pieces.last();
        assert(!pieces[pieces.len() - 1].contains(sep));
        lemma_trim_props(last);
        let r = spec_trimmed_nonempty(pre);
        let t = spec_trim(last);
        if t.len() > 0 {
            assert forall|j: int| 0 <= j < t.len() implies t[j] != sep by {
                assert(last.contains(t[j]));
            }
            assert forall|i: int| 0 <= i < r.push(t).len() implies {
                let u = #[trigger] r.push(t)[i];
                &&& u.len() > 0
                &&& !u.contains(sep)
                &&& !spec_is_whitespace(u[0])
                &&& !spec_is_whitespace(u.last())
            } by {
                if i < r.len() {
                    assert(r.push(t)[i] == r[i]);
                }
            }
        }
    }
}

/// Each piece kept by splitting and trimming is non-empty, holds no
/// separator, and starts and ends with a character that is not whitespace.
pub proof fn lemma_split_trimmed_pieces(s: Seq<char>, sep: char)
    ensures
        forall|i: int|
            0 <= i < spec_trimmed_nonempty(spec_split(s, sep)).len() ==> {
                let t = #[trigger] spec_trimmed_nonempty(spec_split(s, sep))[i];
                &&& t.len() > 0
                &&& !t.contains(sep)
                &&& !spec_is_whitespace(t[0])
                &&& !spec_is_whitespace(t.last())
            },
{
    lemma_split_pieces_free(s, sep);
    lemma_trimmed_nonempty_props(spec_split(s, sep), sep);
}

} // verus!
