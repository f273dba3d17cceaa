use vstd::prelude::*;

verus! {

// ---------------------------------------------------------------------------
// Whitespace
// ---------------------------------------------------------------------------
/// Whether a character counts as whitespace, as `char::is_whitespace` decides
/// it (the Unicode `White_Space` property).
pub uninterp spec fn is_space(c: char) -> bool;

/// Relies on char::is_whitespace: whether `c` has the Unicode `White_Space`
/// property, a function of the character alone.
#[verifier::external_body]
pub(crate) fn is_whitespace_char(c: char) -> (r: bool)
    ensures
        r == is_space(c),
{
    c.is_whitespace()
}

/// `s` with its leading whitespace removed.
pub open spec fn trim_start_spec(s: Seq<char>) -> Seq<char>
    decreases s.len(),
{
    if s.len() > 0 && is_space(s[0]) {
        trim_start_spec(s.subrange(1, s.len() as int))
    } else {
        s
    }
}

/// `s` with its trailing whitespace removed.
pub open spec fn trim_end_spec(s: Seq<char>) -> Seq<char>
    decreases s.len(),
{
    if s.len() > 0 && is_space(s[s.len() - 1]) {
        trim_end_spec(s.subrange(0, s.len() - 1))
    } else {
        s
    }
}

/// `s` with both leading and trailing whitespace removed.
pub open spec fn trim_spec(s: Seq<char>) -> Seq<char> {
    trim_end_spec(trim_start_spec(s))
}

proof fn lemma_trim_start_subrange(s: Seq<char>, i: int)
    requires
        0 <= i <= s.len(),
        forall|k: int| 0 <= k < i ==> is_space(s[k]),
        i == s.len() || !is_space(s[i]),
    ensures
        trim_start_spec(s) == s.subrange(i, s.len() as int),
    decreases i,
{
    if i == 0 {
        assert(s.subrange(0, s.len() as int) =~= s);
    } else {
        assert(is_space(s[0]));
        let rest = s.subrange(1, s.len() as int);
        lemma_trim_start_subrange(rest, i - 1);
        assert(rest.subrange(i - 1, rest.len() as int) =~= s.subrange(i, s.len() as int));
    }
}

proof fn lemma_trim_end_subrange(s: Seq<char>, j: int)
    requires
        0 <= j <= s.len(),
        forall|k: int| j <= k < s.len() ==> is_space(s[k]),
        j == 0 || !is_space(s[j - 1]),
    ensures
        trim_end_spec(s) == s.subrange(0, j),
    decreases s.len() - j,
{
    if j == s.len() {
        assert(s.subrange(0, s.len() as int) =~= s);
    } else {
        assert(is_space(s[s.len() - 1]));
        let rest = s.subrange(0, s.len() - 1);
        lemma_trim_end_subrange(rest, j);
        assert(rest.subrange(0, j) =~= s.subrange(0, j));
    }
}

/// Returns the slice of `s` with leading and trailing whitespace removed.
pub fn trim_chars(s: &str) -> (r: &str)
    ensures
        r@ == trim_spec(s@),
{
    let n = s.unicode_len();
    let mut i: usize = 0;
    while i < n && is_whitespace_char(s.get_char(i))
        invariant
            i <= n,
            n == s@.len(),
            forall|k: int| 0 <= k < i ==> is_space(s@[k]),
        decreases n - i,
    {
        i = i + 1;
    }
    let mut j: usize = n;
    while j > i && is_whitespace_char(s.get_char(j - 1))
        invariant
            i <= j <= n,
            n == s@.len(),
            forall|k: int| j <= k < n ==> is_space(s@[k]),
        decreases j,
    {
        j = j - 1;
    }
    let r = s.substring_char(i, j);
    proof {
        lemma_trim_start_subrange(s@, i as int);
        let t = s@.subrange(i as int, n as int);
        assert forall|k: int| j - i <= k < t.len() implies is_space(t[k]) by {
            assert(t[k] == s@[i + k]);
        }
        lemma_trim_end_subrange(t, j - i);
        assert(t.subrange(0, j - i) =~= s@.subrange(i as int, j as int));
    }
    r
}

// ---------------------------------------------------------------------------
// Comma-separated lists
// ---------------------------------------------------------------------------
/// The pieces of `s` between its commas, in order: one more piece than there
/// are commas, each possibly empty, nothing dropped.
pub open spec fn split_commas(s: Seq<char>) -> Seq<Seq<char>>
    decreases s.len(),
{
    if s.len() == 0 {
        seq![Seq::<char>::empty()]
    } else {
        let parts = split_commas(s.drop_last());
        if s.last() == ',' {
            parts.push(Seq::<char>::empty())
        } else {
            parts.update(parts.len() - 1, parts.last().push(s.last()))
        }
    }
}

/// The pieces of `s` between its commas, each with its surrounding whitespace
/// removed.
pub open spec fn split_trim_spec(s: Seq<char>) -> Seq<Seq<char>> {
    split_commas(s).map_values(|p: Seq<char>| trim_spec(p))
}

/// The views of the strings in `v`.
pub open spec fn views_of(v: Seq<String>) -> Seq<Seq<char>> {
    v.map_values(|x: String| x@)
}

/// Splits `s` on commas and trims each piece. Empty pieces are kept: a
/// trailing comma yields a trailing empty element.
pub fn split_and_trim(s: &str) -> (r: Vec<String>)
    ensures
        views_of(r@) == split_trim_spec(s@),
{
    let n = s.unicode_len();
    let mut out: Vec<String> = Vec::new();
    let mut start: usize = 0;
    let mut i: usize = 0;
    proof {
        assert(s@.subrange(0, 0) =~= Seq::<char>::empty());
    }
    while i < n
        invariant
            start <= i <= n,
            n == s@.len(),
            split_commas(s@.subrange(0, i as int)).len() == out@.len() + 1,
            views_of(out@) == split_commas(s@.subrange(0, i as int)).drop_last().map_values(
                |p: Seq<char>| trim_spec(p),
            ),
            split_commas(s@.subrange(0, i as int)).last() == s@.subrange(
                start as int,
                i as int,
            ),
        decreases n - i,
    {
        let c = s.get_char(i);
        proof {
            let prefix = s@.subrange(0, i as int);
            let next = s@.subrange(0, i + 1);
            assert(next.drop_last() =~= prefix);
            assert(next.last() == s@[i as int]);
        }
        if c == ',' {
            let ghost parts = split_commas(s@.subrange(0, i as int));
            let piece = trim_chars(s.substring_char(start, i));
            let owned = piece.to_owned();
            out.push(owned);
            proof {
                let trim_all = |p: Seq<char>| trim_spec(p);
                let parts2 = split_commas(s@.subrange(0, i + 1));
                assert(parts2 =~= parts.push(Seq::<char>::empty()));
                assert(parts2.drop_last() =~= parts);
                assert(parts =~= parts.drop_last().push(parts.last()));
                assert(parts.map_values(trim_all) =~= parts.drop_last().map_values(
                    trim_all,
                ).push(trim_spec(parts.last())));
                assert(views_of(out@) =~= parts2.drop_last().map_values(trim_all));
                assert(parts2.last() =~= s@.subrange(i + 1, i + 1));
            }
            start = i + 1;
        } else {
            proof {
                let parts = split_commas(s@.subrange(0, i as int));
                let parts2 = split_commas(s@.subrange(0, i + 1));
                let trim_all = |p: Seq<char>| trim_spec(p);
                assert(parts2 == parts.update(parts.len() - 1, parts.last().push(s@[i as int])));
                assert(parts2.drop_last() =~= parts.drop_last());
                assert(parts2.drop_last().map_values(trim_all) =~= parts.drop_last().map_values(
                    trim_all,
                ));
                assert(parts2.last() =~= s@.subrange(start as int, i + 1));
            }
        }
        i = i + 1;
    }
    let last = trim_chars(s.substring_char(start, n));
    let owned = last.to_owned();
    out.push(owned);
    proof {
        let trim_all = |p: Seq<char>| trim_spec(p);
        let parts = split_commas(s@);
        assert(s@.subrange(0, n as int) =~= s@);
        assert(parts =~= parts.drop_last().push(parts.last()));
        assert(parts.map_values(trim_all) =~= parts.drop_last().map_values(trim_all).push(
            trim_spec(parts.last()),
        ));
        assert(views_of(out@) =~= split_trim_spec(s@));
    }
    out
}

// ---------------------------------------------------------------------------
// Case folding
// ---------------------------------------------------------------------------
/// What `str::to_lowercase` returns for `s`: the Unicode lowercase mapping, a
/// function of the characters alone.
pub uninterp spec fn lower_of(s: Seq<char>) -> Seq<char>;

/// Relies on str::to_lowercase: the Unicode lowercase of `s`, a function of
/// the characters alone.
#[verifier::external_body]
pub(crate) fn lowercase(s: &str) -> (r: String)
    ensures
        r@ == lower_of(s@),
{
    s.to_lowercase()
}

/// What `str::to_uppercase` returns for `s`: the Unicode uppercase mapping, a
/// function of the characters alone.
pub uninterp spec fn upper_of(s: Seq<char>) -> Seq<char>;

/// Relies on str::to_uppercase: the Unicode uppercase of `s`, a function of
/// the characters alone.
#[verifier::external_body]
pub(crate) fn uppercase(s: &str) -> (r: String)
    ensures
        r@ == upper_of(s@),
{
    s.to_uppercase()
}

// ---------------------------------------------------------------------------
// Truthy tokens
// ---------------------------------------------------------------------------
/// The fixed truthy token set: exactly one of `true`, `1`, `yes`, `on`.
pub open spec fn truthy(s: Seq<char>) -> bool {
    s == "true"@ || s == "1"@ || s == "yes"@ || s == "on"@
}

/// Whether `s` is exactly one of the truthy tokens `true`, `1`, `yes`, `on`.
pub fn is_truthy(s: &str) -> (r: bool)
    ensures
        r == truthy(s@),
{
    let v = s.to_owned();
    if v == String::from_str("true") {
        true
    } else if v == String::from_str("1") {
        true
    } else if v == String::from_str("yes") {
        true
    } else {
        v == String::from_str("on")
    }
}

} // verus!
