use vstd::prelude::*;

use crate::errors::EnvError;
use crate::errors::EnvErrorView;
use crate::store::Env;
use crate::text::is_truthy;
use crate::text::lower_of;
use crate::text::lowercase;
use crate::text::split_and_trim;
use crate::text::split_trim_spec;
use crate::text::trim_chars;
use crate::text::trim_spec;
use crate::text::truthy;
use crate::text::upper_of;
use crate::text::uppercase;
use crate::text::views_of;
use crate::values::EnvValue;
use crate::values::lemma_parse_uint_nonneg;
use crate::values::parse_uint_spec;

verus! {

// ---------------------------------------------------------------------------
// Result views
// ---------------------------------------------------------------------------
/// The abstract form of a raw-string lookup result.
pub open spec fn str_result_view(r: Result<String, EnvError>) -> Result<Seq<char>, EnvErrorView> {
    match r {
        Ok(v) => Ok(v@),
        Err(e) => Err(e@),
    }
}

/// The abstract form of a typed lookup result.
pub open spec fn parsed_result_view<T>(r: Result<T, EnvError>) -> Result<T, EnvErrorView> {
    match r {
        Ok(v) => Ok(v),
        Err(e) => Err(e@),
    }
}

/// The abstract form of a list lookup result.
pub open spec fn list_result_view(r: Result<Vec<String>, EnvError>) -> Result<
    Seq<Seq<char>>,
    EnvErrorView,
> {
    match r {
        Ok(v) => Ok(views_of(v@)),
        Err(e) => Err(e@),
    }
}

/// The abstract form of a memory-size parse result.
pub open spec fn size_result_view(r: Result<usize, EnvError>) -> Result<int, EnvErrorView> {
    match r {
        Ok(v) => Ok(v as int),
        Err(e) => Err(e@),
    }
}

// ---------------------------------------------------------------------------
// Required and defaulted raw lookups
// ---------------------------------------------------------------------------
/// What `get_required` returns: the raw value when `key` is set, `Missing`
/// when it is not.
pub open spec fn get_required_spec(env: Map<Seq<char>, Seq<char>>, key: Seq<char>) -> Result<
    Seq<char>,
    EnvErrorView,
> {
    if env.contains_key(key) {
        Ok(env[key])
    } else {
        Err(EnvErrorView::Missing(key))
    }
}

/// Returns the raw value of `key`, or fails with `Missing` when it is unset.
/// The value is passed through verbatim: nothing is trimmed or validated.
pub fn get_required(env: &Env, key: &str) -> (r: Result<String, EnvError>)
    ensures
        str_result_view(r) == get_required_spec(env@, key@),
{
    match env.lookup(key) {
        Some(v) => Ok(v),
        None => Err(EnvError::Missing(key.to_owned())),
    }
}

/// What `get_or_default` returns: the raw value when `key` is set, else the
/// default verbatim.
pub open spec fn get_or_default_spec(
    env: Map<Seq<char>, Seq<char>>,
    key: Seq<char>,
    default: Seq<char>,
) -> Seq<char> {
    if env.contains_key(key) {
        env[key]
    } else {
        default
    }
}

/// Returns the raw value of `key` when it is set, else `default` verbatim;
/// never fails.
pub fn get_or_default(env: &Env, key: &str, default: &str) -> (r: String)
    ensures
        r@ == get_or_default_spec(env@, key@, default@),
{
    match env.lookup(key) {
        Some(v) => v,
        None => default.to_owned(),
    }
}

// ---------------------------------------------------------------------------
// Typed lookups
// ---------------------------------------------------------------------------
/// What `get_parsed` returns: `Missing` when `key` is unset; else the parsed
/// value, or `ParseError` carrying the key and the raw value.
pub open spec fn get_parsed_spec<T: EnvValue>(
    env: Map<Seq<char>, Seq<char>>,
    key: Seq<char>,
) -> Result<T, EnvErrorView> {
    if !env.contains_key(key) {
        Err(EnvErrorView::Missing(key))
    } else {
        match T::from_str_spec(env[key]) {
            Some(t) => Ok(t),
            None => Err(EnvErrorView::ParseError { key: key, value: env[key] }),
        }
    }
}

/// Fetches `key` and converts its value to `T` by that type's canonical
/// string-parsing rule. Fails with `Missing` when unset and with `ParseError`
/// when set but unparsable.
pub fn get_parsed<T: EnvValue>(env: &Env, key: &str) -> (r: Result<T, EnvError>)
    ensures
        parsed_result_view(r) == get_parsed_spec::<T>(env@, key@),
{
    match env.lookup(key) {
        Some(v) => match T::from_env_str(v.as_str()) {
            Some(t) => Ok(t),
            None => Err(EnvError::ParseError { key: key.to_owned(), value: v }),
        },
        None => Err(EnvError::Missing(key.to_owned())),
    }
}

/// What `get_parsed_or_default` returns: the parsed value when `key` is set
/// and parsable, else the default. Absence and parse failure are deliberately
/// indistinguishable here.
pub open spec fn get_parsed_or_default_spec<T: EnvValue>(
    env: Map<Seq<char>, Seq<char>>,
    key: Seq<char>,
    default: T,
) -> T {
    if env.contains_key(key) {
        match T::from_str_spec(env[key]) {
            Some(t) => t,
            None => default,
        }
    } else {
        default
    }
}

/// Fetches `key` and converts its value to `T`; when the variable is unset
/// or its value unparsable, silently returns `default`.
pub fn get_parsed_or_default<T: EnvValue>(env: &Env, key: &str, default: T) -> (r: T)
    ensures
        r == get_parsed_or_default_spec::<T>(env@, key@, default),
{
    match env.lookup(key) {
        Some(v) => match T::from_env_str(v.as_str()) {
            Some(t) => t,
            None => default,
        },
        None => default,
    }
}

// ---------------------------------------------------------------------------
// Booleans
// ---------------------------------------------------------------------------
/// What `get_bool` returns: when `key` is set, whether its lowercased value
/// is a truthy token (an unrecognized value gives `false`, not the default);
/// when unset, the default.
pub open spec fn get_bool_spec(
    env: Map<Seq<char>, Seq<char>>,
    key: Seq<char>,
    default: bool,
) -> bool {
    if env.contains_key(key) {
        truthy(lower_of(env[key]))
    } else {
        default
    }
}

/// Fetches `key`, lowercases its value, and returns `true` iff the result is
/// exactly one of `true`, `1`, `yes`, `on`. Any other present value gives
/// `false`; only absence gives `default`.
pub fn get_bool(env: &Env, key: &str, default: bool) -> (r: bool)
    ensures
        r == get_bool_spec(env@, key@, default),
{
    match env.lookup(key) {
        Some(v) => {
            let low = lowercase(v.as_str());
            is_truthy(low.as_str())
        },
        None => default,
    }
}

// ---------------------------------------------------------------------------
// Lists
// ---------------------------------------------------------------------------
/// What `get_list` returns: `Missing` when `key` is unset; else the value
/// split on commas, each piece trimmed, order and duplicates kept, empty
/// pieces kept.
pub open spec fn get_list_spec(env: Map<Seq<char>, Seq<char>>, key: Seq<char>) -> Result<
    Seq<Seq<char>>,
    EnvErrorView,
> {
    if env.contains_key(key) {
        Ok(split_trim_spec(env[key]))
    } else {
        Err(EnvErrorView::Missing(key))
    }
}

/// Fetches `key` and splits its value on `,`, trimming the whitespace around
/// each piece. Fails with `Missing` when unset. No empty-piece filtering: a
/// trailing comma yields a trailing empty element.
pub fn get_list(env: &Env, key: &str) -> (r: Result<Vec<String>, EnvError>)
    ensures
        list_result_view(r) == get_list_spec(env@, key@),
{
    match env.lookup(key) {
        Some(v) => Ok(split_and_trim(v.as_str())),
        None => Err(EnvError::Missing(key.to_owned())),
    }
}

// ---------------------------------------------------------------------------
// Memory sizes
// ---------------------------------------------------------------------------
/// The multiplier a normalized memory-size string carries: 1024 for a `KB`
/// suffix, 1024 squared for `MB`, 1024 cubed for `GB`, else 1.
pub open spec fn mem_multiplier(s: Seq<char>) -> int {
    if s.len() >= 2 && s[s.len() - 1] == 'B' && s[s.len() - 2] == 'K' {
        1024
    } else if s.len() >= 2 && s[s.len() - 1] == 'B' && s[s.len() - 2] == 'M' {
        1048576
    } else if s.len() >= 2 && s[s.len() - 1] == 'B' && s[s.len() - 2] == 'G' {
        1073741824
    } else {
        1
    }
}

/// The numeric prefix of a normalized memory-size string: everything before
/// a recognized suffix, or the whole string when there is none.
pub open spec fn mem_num_part(s: Seq<char>) -> Seq<char> {
    if mem_multiplier(s) == 1 {
        s
    } else {
        s.subrange(0, s.len() - 2)
    }
}

/// The byte count a normalized memory-size string denotes, or `None` when
/// its numeric prefix is not an unsigned decimal in `usize` range or the
/// multiplied count exceeds `usize::MAX`.
pub open spec fn mem_size_spec(s: Seq<char>) -> Option<int> {
    match parse_uint_spec(mem_num_part(s)) {
        Some(v) => if v <= usize::MAX && v * mem_multiplier(s) <= usize::MAX {
            Some(v * mem_multiplier(s))
        } else {
            None
        },
        None => None,
    }
}

/// Parses an already trimmed and upper-cased memory-size string: a `KB`,
/// `MB` or `GB` suffix multiplies the decimal prefix by the matching power
/// of 1024; without a suffix the whole string is a plain byte count. On
/// failure the error carries the key `memory_size` and `norm` itself.
pub fn parse_memory_size_normalized(norm: &str) -> (r: Result<usize, EnvError>)
    ensures
        size_result_view(r) == match mem_size_spec(norm@) {
            Some(v) => Ok::<int, EnvErrorView>(v),
            None => Err(EnvErrorView::ParseError { key: "memory_size"@, value: norm@ }),
        },
{
    let n = norm.unicode_len();
    let mult: usize;
    let cut: usize;
    if n >= 2 && norm.get_char(n - 1) == 'B' {
        let p = norm.get_char(n - 2);
        if p == 'K' {
            mult = 1024;
            cut = 2;
        } else if p == 'M' {
            mult = 1048576;
            cut = 2;
        } else if p == 'G' {
            mult = 1073741824;
            cut = 2;
        } else {
            mult = 1;
            cut = 0;
        }
    } else {
        mult = 1;
        cut = 0;
    }
    proof {
        assert(mult == mem_multiplier(norm@));
        if cut == 0 {
            assert(norm@.subrange(0, n as int) =~= norm@);
        }
        assert(norm@.subrange(0, n - cut) =~= mem_num_part(norm@));
        lemma_parse_uint_nonneg(mem_num_part(norm@));
    }
    let num = norm.substring_char(0, n - cut);
    match usize::from_env_str(num) {
        Some(v) => match v.checked_mul(mult) {
            Some(total) => Ok(total),
            None => Err(
                EnvError::ParseError {
                    key: String::from_str("memory_size"),
                    value: norm.to_owned(),
                },
            ),
        },
        None => {
            proof {
                let parsed = parse_uint_spec(mem_num_part(norm@));
                if parsed is Some && parsed->0 > usize::MAX {
                    assert(parsed->0 * mem_multiplier(norm@) > usize::MAX);
                }
            }
            Err(
                EnvError::ParseError {
                    key: String::from_str("memory_size"),
                    value: norm.to_owned(),
                },
            )
        },
    }
}

/// What `parse_memory_size` returns, as a function of the input characters:
/// the byte count of the trimmed, upper-cased input, or a `ParseError` whose
/// key is `memory_size` and whose value is that normalized string.
pub open spec fn parse_memory_size_spec(input: Seq<char>) -> Result<int, EnvErrorView> {
    let norm = upper_of(trim_spec(input));
    match mem_size_spec(norm) {
        Some(v) => Ok(v),
        None => Err(EnvErrorView::ParseError { key: "memory_size"@, value: norm }),
    }
}

/// Parses a human-readable memory size such as `10MB`, `512KB` or `1GB`.
/// The input is trimmed and upper-cased first; a recognized suffix
/// multiplies the decimal prefix by its power of 1024, and a string without
/// one is a plain byte count. Every failure is a returned `ParseError`, never
/// a panic, and it carries the normalized string.
pub fn parse_memory_size(input: &str) -> (r: Result<usize, EnvError>)
    ensures
        size_result_view(r) == parse_memory_size_spec(input@),
{
    let trimmed = trim_chars(input);
    let up = uppercase(trimmed);
    parse_memory_size_normalized(up.as_str())
}

} // verus!
