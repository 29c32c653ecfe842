use vstd::prelude::*;
use vstd::string::StrSliceExecFns;
use vstd::string::StringExecFns;
use crate::connectivity::starts_with_at;
use crate::text::{
    chars_of, find_char, lemma_before_char_props, spec_before_char, spec_trim_start,
    trim_start_index,
};

verus! {

/// The `config.toml` line that records the agent version.
pub open spec fn spec_version_line(version: Seq<char>) -> Seq<char> {
    "version = \""@ + version + "\""@
}

/// Whether `line` assigns the `version` key: after optional whitespace, the
/// word `version`, optional whitespace and `=`.
pub open spec fn spec_is_version_key_line(line: Seq<char>) -> bool {
    let t = spec_trim_start(line);
    &&& t.len() >= 7
    &&& t.take(7) == "version"@
    &&& spec_trim_start(t.skip(7)).len() > 0
    &&& spec_trim_start(t.skip(7))[0] == '='
}

/// The end of the line that starts at `a`: the next newline, or the end.
pub open spec fn spec_line_end(s: Seq<char>, a: int) -> int {
    a + spec_before_char(s.skip(a), '\n').len()
}

/// The bounds of the first line, from the one starting at `a` on, that
/// assigns the `version` key.
pub open spec fn spec_find_version_line(s: Seq<char>, a: int) -> Option<(int, int)>
    decreases s.len() - a,
{
    if a < 0 || a > s.len() {
        None
    } else {
        let e = spec_line_end(s, a);
        if spec_is_version_key_line(s.subrange(a, e)) {
            Some((a, e))
        } else if e >= s.len() {
            None
        } else {
            spec_find_version_line(s, e + 1)
        }
    }
}

/// The new text of `config.toml` that records `version`: the first line that
/// assigns `version` is replaced, or the line is added at the top when none
/// does. Nothing when the file already records this version.
pub open spec fn spec_synced_config(text: Seq<char>, version: Seq<char>) -> Option<Seq<char>> {
    let line = spec_version_line(version);
    match spec_find_version_line(text, 0) {
        Some((a, e)) => if text.subrange(a, e) == line {
            None
        } else {
            Some(text.take(a) + line + text.skip(e))
        },
        None => Some(line + "\n"@ + text),
    }
}

/// Whether a line of `s` starts at `a`: the start of the text, or just
/// after a newline.
pub open spec fn is_line_start(s: Seq<char>, a: int) -> bool {
    a == 0 || (0 < a <= s.len() && s[a - 1] == '\n')
}

/// Whether a line of `s` starts at `a` and assigns the `version` key.
pub open spec fn is_version_line_at(s: Seq<char>, a: int) -> bool {
    &&& 0 <= a <= s.len()
    &&& is_line_start(s, a)
    &&& spec_is_version_key_line(s.subrange(a, spec_line_end(s, a)))
}

/// The line starting at `a` runs up to, not including, the next newline or
/// the end of the text.
proof fn lemma_line_end(s: Seq<char>, a: int)
    requires
        0 <= a <= s.len(),
    ensures
        a <= spec_line_end(s, a) <= s.len(),
        forall|i: int| a <= i < spec_line_end(s, a) ==> s[i] != '\n',
        spec_line_end(s, a) < s.len() ==> s[spec_line_end(s, a)] == '\n',
{
    let t = s.skip(a);
    lemma_before_char_props(t, '\n');
    let b = spec_before_char(t, '\n');
    assert forall|i: int| a <= i < spec_line_end(s, a) implies s[i] != '\n' by {
        assert(s[i] == t[i - a]);
    }
    if spec_line_end(s, a) < s.len() {
        assert(s[spec_line_end(s, a)] == t[b.len() as int]);
    }
}

/// From the line starting at `a` on, the search finds the first line that
/// assigns `version`, and finds none exactly when no line does.
proof fn lemma_find_version_line_from(s: Seq<char>, a: int)
    requires
        0 <= a <= s.len(),
        is_line_start(s, a),
    ensures
        match spec_find_version_line(s, a) {
            Some((b, e)) => {
                &&& a <= b
                &&& is_version_line_at(s, b)
                &&& e == spec_line_end(s, b)
                &&& forall|k: int| a <= k < b ==> !is_version_line_at(s, k)
            },
            None => forall|k: int| a <= k <= s.len() ==> !is_version_line_at(s, k),
        },
    decreases s.len() - a,
{
    lemma_line_end(s, a);
    let e = spec_line_end(s, a);
    assert forall|k: int| a < k <= e implies !is_line_start(s, k) by {
        assert(s[k - 1] != '\n');
    }
    if spec_is_version_key_line(s.subrange(a, e)) {
    } else if e >= s.len() {
    } else {
        lemma_find_version_line_from(s, e + 1);
    }
}

/// What recording the version does to `config.toml`: when some line assigns
/// the `version` key, the first such line, and only it, is replaced in
/// place by the version line (nothing to write when it already is that
/// line); only when no line at all assigns `version` is the version line
/// added at the top.
pub proof fn lemma_synced_config_replaces_first_version_line(text: Seq<char>, version: Seq<char>)
    ensures
        (forall|k: int| !is_version_line_at(text, k)) ==> spec_synced_config(text, version)
            == Some(spec_version_line(version) + "\n"@ + text),
        forall|a: int|
            #![trigger is_version_line_at(text, a)]
            is_version_line_at(text, a) && (forall|k: int| 0 <= k < a ==> !is_version_line_at(text, k))
                ==> spec_synced_config(text, version) == if text.subrange(
                a,
                spec_line_end(text, a),
            ) == spec_version_line(version) {
                None
            } else {
                Some(
                    text.take(a) + spec_version_line(version) + text.skip(spec_line_end(text, a)),
                )
            },
{
    lemma_find_version_line_from(text, 0);
    assert forall|a: int|
        #![trigger is_version_line_at(text, a)]
        is_version_line_at(text, a) && (forall|k: int| 0 <= k < a ==> !is_version_line_at(text, k))
        implies spec_find_version_line(text, 0) == Some((a, spec_line_end(text, a))) by {
        match spec_find_version_line(text, 0) {
            Some((b, e)) => {
                if b < a {
                    assert(!is_version_line_at(text, b));
                } else if a < b {
                    assert(!is_version_line_at(text, a));
                }
            },
            None => {
                assert(!is_version_line_at(text, a));
            },
        }
    }
    if forall|k: int| !is_version_line_at(text, k) {
        match spec_find_version_line(text, 0) {
            Some((b, e)) => {
                assert(!is_version_line_at(text, b));
            },
            None => {},
        }
    }
}

/// Whether `v[a..e]` assigns the `version` key.
fn is_version_key_line(v: &Vec<char>, a: usize, e: usize) -> (b: bool)
    requires
        a <= e <= v@.len(),
    ensures
        b == spec_is_version_key_line(v@.subrange(a as int, e as int)),
{
    let word = chars_of("version");
    proof {
        reveal_strlit("version");
    }
    let t0 = trim_start_index(v, a, e);
    let ghost t = v@.subrange(t0 as int, e as int);
    if !starts_with_at(v, t0, e, &word) {
        proof {
            if t.len() >= 7 {
                assert(t.take(7) =~= v@.subrange(t0 as int, t0 + 7));
            }
        }
        return false;
    }
    assert(t.take(7) =~= v@.subrange(t0 as int, t0 + 7));
    assert(t.skip(7) =~= v@.subrange(t0 + 7, e as int));
    let r = trim_start_index(v, t0 + 7, e);
    if r < e {
        assert(v@.subrange(r as int, e as int)[0] == v@[r as int]);
        v[r] == '='
    } else {
        false
    }
}

/// The new text of `config.toml` once it records the running `version`, or
/// nothing when it already does.
pub fn sync_version_field(text: &str, version: &str) -> (r: Option<String>)
    ensures
        match r {
            Some(s) => spec_synced_config(text@, version@) == Some(s@),
            None => spec_synced_config(text@, version@) is None,
        },
{
    let v = chars_of(text);
    let n = v.len();
    let mut line = String::from_str("version = \"");
    line.append(version);
    line.append("\"");
    let lv = chars_of(line.as_str());
    let mut a: usize = 0;
    loop
        invariant
            a <= n,
            n == v@.len(),
            v@ == text@,
            lv@ == spec_version_line(version@),
            line@ == spec_version_line(version@),
            spec_find_version_line(v@, 0) == spec_find_version_line(v@, a as int),
        ensures
            spec_find_version_line(v@, 0) is None,
        decreases n - a,
    {
        let e = find_char(&v, a, '\n');
        assert(spec_line_end(v@, a as int) == e);
        if is_version_key_line(&v, a, e) {
            if e - a == lv.len() && starts_with_at(&v, a, e, &lv) {
                assert(v@.subrange(a as int, e as int) =~= lv@);
                return None;
            }
            let mut out = String::from_str(text.substring_char(0, a));
            out.append(line.as_str());
            out.append(text.substring_char(e, n));
            assert(v@.subrange(0, a as int) =~= text@.take(a as int));
            assert(v@.subrange(e as int, n as int) =~= text@.skip(e as int));
            proof {
                if v@.subrange(a as int, e as int) == lv@ {
                    assert(lv@.len() == e - a);
                    assert(v@.subrange(a as int, a + lv@.len()) =~= lv@);
                }
            }
            return Some(out);
        }
        if e >= n {
            break ;
        }
        a = e + 1;
    }
    let mut out = line;
    out.append("\n");
    out.append(text);
    Some(out)
}

} // verus!
