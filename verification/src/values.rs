use vstd::prelude::*;

verus! {

// ---------------------------------------------------------------------------
// Decimal digits
// ---------------------------------------------------------------------------
/// Whether `c` is a decimal digit.
pub open spec fn is_digit(c: char) -> bool {
    48 <= c as int <= 57
}

/// The value of the decimal digit `c`.
pub open spec fn digit_val(c: char) -> int {
    c as int - 48
}

/// Whether every character of `s` is a decimal digit.
pub open spec fn all_digits(s: Seq<char>) -> bool {
    forall|k: int| 0 <= k < s.len() ==> is_digit(s[k])
}

/// The number that the digit string `s` denotes in base ten.
pub open spec fn digits_val(s: Seq<char>) -> int
    decreases s.len(),
{
    if s.len() == 0 {
        0
    } else {
        digits_val(s.drop_last()) * 10 + digit_val(s.last())
    }
}

/// The number an unsigned decimal string denotes: an optional `+` sign
/// followed by at least one digit, as the standard integer parsers accept it.
pub open spec fn parse_uint_spec(s: Seq<char>) -> Option<int> {
    let body = if s.len() > 0 && s[0] == '+' {
        s.subrange(1, s.len() as int)
    } else {
        s
    };
    if body.len() > 0 && all_digits(body) {
        Some(digits_val(body))
    } else {
        None
    }
}

/// The number a signed decimal string denotes: an optional `+` or `-` sign
/// followed by at least one digit.
pub open spec fn parse_sint_spec(s: Seq<char>) -> Option<int> {
    if s.len() > 0 && s[0] == '-' {
        let body = s.subrange(1, s.len() as int);
        if body.len() > 0 && all_digits(body) {
            Some(-digits_val(body))
        } else {
            None
        }
    } else {
        parse_uint_spec(s)
    }
}

proof fn lemma_digits_val_nonneg(s: Seq<char>)
    requires
        all_digits(s),
    ensures
        digits_val(s) >= 0,
    decreases s.len(),
{
    if s.len() > 0 {
        lemma_digits_val_nonneg(s.drop_last());
    }
}

/// A digit string denotes at least as much as any of its prefixes.
proof fn lemma_digits_val_prefix_le(s: Seq<char>, k: int)
    requires
        all_digits(s),
        0 <= k <= s.len(),
    ensures
        digits_val(s.subrange(0, k)) <= digits_val(s),
    decreases s.len() - k,
{
    if k == s.len() {
        assert(s.subrange(0, k) =~= s);
    } else {
        lemma_digits_val_prefix_le(s, k + 1);
        let shorter = s.subrange(0, k);
        let longer = s.subrange(0, k + 1);
        assert(longer.drop_last() =~= shorter);
        assert(all_digits(shorter));
        lemma_digits_val_nonneg(shorter);
        assert(digits_val(longer) == digits_val(shorter) * 10 + digit_val(longer.last()));
    }
}

/// The value of the digit run of `s` that starts at `from`, as a `u64`;
/// `None` when that run is empty, holds a non-digit, or exceeds `u64::MAX`.
fn digits_value_u64(s: &str, from: usize) -> (r: Option<u64>)
    requires
        from <= s@.len(),
    ensures
        ({
            let body = s@.subrange(from as int, s@.len() as int);
            match r {
                Some(v) => body.len() > 0 && all_digits(body) && v == digits_val(body),
                None => !(body.len() > 0 && all_digits(body) && digits_val(body) <= u64::MAX),
            }
        }),
{
    let n = s.unicode_len();
    let ghost body = s@.subrange(from as int, s@.len() as int);
    if from == n {
        return None;
    }
    let mut acc: u64 = 0;
    let mut i: usize = from;
    proof {
        assert(s@.subrange(from as int, from as int) =~= Seq::<char>::empty());
    }
    while i < n
        invariant
            from <= i <= n,
            n == s@.len(),
            all_digits(s@.subrange(from as int, i as int)),
            acc == digits_val(s@.subrange(from as int, i as int)),
        decreases n - i,
    {
        let ghost body = s@.subrange(from as int, s@.len() as int);
        let c = s.get_char(i);
        let u = c as u32;
        if u < 48 || u > 57 {
            proof {
                assert(body[i - from] == s@[i as int]);
                assert(!is_digit(s@[i as int]));
            }
            return None;
        }
        let d: u64 = (u - 48) as u64;
        let ghost prefix = s@.subrange(from as int, i as int);
        let ghost prefix2 = s@.subrange(from as int, i + 1);
        proof {
            assert(prefix2.drop_last() =~= prefix);
            assert(prefix2.last() == s@[i as int]);
        }
        let step = match acc.checked_mul(10) {
            Some(m) => m.checked_add(d),
            None => None,
        };
        match step {
            Some(v) => {
                acc = v;
            },
            None => {
                proof {
                    assert(digits_val(prefix2) > u64::MAX);
                    if all_digits(body) {
                        lemma_digits_val_prefix_le(body, i + 1 - from);
                        assert(body.subrange(0, i + 1 - from) =~= prefix2);
                    }
                }
                return None;
            },
        }
        i = i + 1;
    }
    proof {
        assert(s@.subrange(from as int, n as int) =~= body);
    }
    Some(acc)
}

// ---------------------------------------------------------------------------
// Typed values
// ---------------------------------------------------------------------------
/// A type that the environment accessor can parse out of a raw string value,
/// together with the exact statement of what parses to what.
pub trait EnvValue: Sized {
    /// The value the raw string `s` denotes, or `None` when it does not
    /// denote one.
    spec fn from_str_spec(s: Seq<char>) -> Option<Self>;

    /// Parses `s`, following `from_str_spec` exactly.
    fn from_env_str(s: &str) -> (r: Option<Self>)
        ensures
            r == Self::from_str_spec(s@),
    ;
}

impl EnvValue for bool {
    open spec fn from_str_spec(s: Seq<char>) -> Option<bool> {
        if s == "true"@ {
            Some(true)
        } else if s == "false"@ {
            Some(false)
        } else {
            None
        }
    }

    fn from_env_str(s: &str) -> (r: Option<bool>) {
        let v = s.to_owned();
        if v == String::from_str("true") {
            Some(true)
        } else if v == String::from_str("false") {
            Some(false)
        } else {
            None
        }
    }
}

impl EnvValue for u64 {
    open spec fn from_str_spec(s: Seq<char>) -> Option<u64> {
        match parse_uint_spec(s) {
            Some(v) => if v <= u64::MAX {
                Some(v as u64)
            } else {
                None
            },
            None => None,
        }
    }

    fn from_env_str(s: &str) -> (r: Option<u64>) {
        if s.is_empty() {
            return None;
        }
        let start: usize = if s.get_char(0) == '+' {
            1
        } else {
            0
        };
        proof {
            if start == 1 {
                assert(s@.subrange(1, s@.len() as int) =~= s@.subrange(
                    start as int,
                    s@.len() as int,
                ));
            } else {
                assert(s@ =~= s@.subrange(start as int, s@.len() as int));
            }
        }
        digits_value_u64(s, start)
    }
}

impl EnvValue for u32 {
    open spec fn from_str_spec(s: Seq<char>) -> Option<u32> {
        match parse_uint_spec(s) {
            Some(v) => if v <= u32::MAX {
                Some(v as u32)
            } else {
                None
            },
            None => None,
        }
    }

    fn from_env_str(s: &str) -> (r: Option<u32>) {
        proof {
            lemma_parse_uint_nonneg(s@);
        }
        match u64::from_env_str(s) {
            Some(v) => if v <= u32::MAX as u64 {
                Some(v as u32)
            } else {
                None
            },
            None => {
                proof {
                    lemma_wide_none_means_none_or_large(s@);
                }
                None
            },
        }
    }
}

impl EnvValue for usize {
    open spec fn from_str_spec(s: Seq<char>) -> Option<usize> {
        match parse_uint_spec(s) {
            Some(v) => if v <= usize::MAX {
                Some(v as usize)
            } else {
                None
            },
            None => None,
        }
    }

    fn from_env_str(s: &str) -> (r: Option<usize>) {
        proof {
            lemma_parse_uint_nonneg(s@);
        }
        match u64::from_env_str(s) {
            Some(v) => if v <= usize::MAX as u64 {
                Some(v as usize)
            } else {
                None
            },
            None => {
                proof {
                    lemma_wide_none_means_none_or_large(s@);
                }
                None
            },
        }
    }
}

/// An unsigned decimal string denotes a non-negative number.
pub proof fn lemma_parse_uint_nonneg(s: Seq<char>)
    ensures
        parse_uint_spec(s) matches Some(v) ==> v >= 0,
{
    let body = if s.len() > 0 && s[0] == '+' {
        s.subrange(1, s.len() as int)
    } else {
        s
    };
    if body.len() > 0 && all_digits(body) {
        lemma_digits_val_nonneg(body);
    }
}

/// When a string does not denote a `u64`, it denotes either nothing at all or
/// a number beyond `u64::MAX`.
proof fn lemma_wide_none_means_none_or_large(s: Seq<char>)
    requires
        u64::from_str_spec(s) is None,
    ensures
        parse_uint_spec(s) is None || parse_uint_spec(s)->0 > u64::MAX,
{
    lemma_parse_uint_nonneg(s);
}

impl EnvValue for i64 {
    open spec fn from_str_spec(s: Seq<char>) -> Option<i64> {
        match parse_sint_spec(s) {
            Some(v) => if i64::MIN <= v <= i64::MAX {
                Some(v as i64)
            } else {
                None
            },
            None => None,
        }
    }

    fn from_env_str(s: &str) -> (r: Option<i64>) {
        proof {
            lemma_parse_uint_nonneg(s@);
        }
        if s.is_empty() {
            return None;
        }
        if s.get_char(0) == '-' {
            let ghost body = s@.subrange(1, s@.len() as int);
            match digits_value_u64(s, 1) {
                Some(v) => {
                    if v < 9223372036854775808u64 {
                        Some(-(v as i64))
                    } else if v == 9223372036854775808u64 {
                        Some(i64::MIN)
                    } else {
                        None
                    }
                },
                None => {
                    proof {
                        if body.len() > 0 && all_digits(body) {
                            assert(digits_val(body) > u64::MAX);
                        }
                    }
                    None
                },
            }
        } else {
            match u64::from_env_str(s) {
                Some(v) => if v <= i64::MAX as u64 {
                    Some(v as i64)
                } else {
                    None
                },
                None => {
                    proof {
                        lemma_wide_none_means_none_or_large(s@);
                    }
                    None
                },
            }
        }
    }
}

impl EnvValue for i32 {
    open spec fn from_str_spec(s: Seq<char>) -> Option<i32> {
        match parse_sint_spec(s) {
            Some(v) => if i32::MIN <= v <= i32::MAX {
                Some(v as i32)
            } else {
                None
            },
            None => None,
        }
    }

    fn from_env_str(s: &str) -> (r: Option<i32>) {
        proof {
            lemma_parse_uint_nonneg(s@);
        }
        if s.is_empty() {
            return None;
        }
        if s.get_char(0) == '-' {
            let ghost body = s@.subrange(1, s@.len() as int);
            match digits_value_u64(s, 1) {
                Some(v) => {
                    if v < 2147483648u64 {
                        Some(-(v as i32))
                    } else if v == 2147483648u64 {
                        Some(i32::MIN)
                    } else {
                        None
                    }
                },
                None => {
                    proof {
                        if body.len() > 0 && all_digits(body) {
                            assert(digits_val(body) > u64::MAX);
                        }
                    }
                    None
                },
            }
        } else {
            match u64::from_env_str(s) {
                Some(v) => if v <= i32::MAX as u64 {
                    Some(v as i32)
                } else {
                    None
                },
                None => {
                    proof {
                        lemma_wide_none_means_none_or_large(s@);
                    }
                    None
                },
            }
        }
    }
}

} // verus!
