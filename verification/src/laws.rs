use vstd::prelude::*;

use crate::env::get_bool_spec;
use crate::env::get_list_spec;
use crate::env::get_or_default_spec;
use crate::env::get_parsed_or_default_spec;
use crate::env::get_parsed_spec;
use crate::env::get_required_spec;
use crate::env::parse_memory_size_spec;
use crate::errors::EnvErrorView;
use crate::values::EnvValue;

verus! {

// Every operation's contract determines its result from the environment view
// and the arguments alone, so repeated calls with an unchanged environment
// return identical results: there is no internal caching to drift. The
// lemmas below state that, one per operation, for any two results that the
// contracts admit.
/// Two `get_required` results for the same environment and key are equal.
pub proof fn lemma_get_required_idempotent(
    env: Map<Seq<char>, Seq<char>>,
    key: Seq<char>,
    r1: Result<Seq<char>, EnvErrorView>,
    r2: Result<Seq<char>, EnvErrorView>,
)
    requires
        r1 == get_required_spec(env, key),
        r2 == get_required_spec(env, key),
    ensures
        r1 == r2,
{
}

/// Two `get_or_default` results for the same environment, key and default
/// are equal.
pub proof fn lemma_get_or_default_idempotent(
    env: Map<Seq<char>, Seq<char>>,
    key: Seq<char>,
    default: Seq<char>,
    r1: Seq<char>,
    r2: Seq<char>,
)
    requires
        r1 == get_or_default_spec(env, key, default),
        r2 == get_or_default_spec(env, key, default),
    ensures
        r1 == r2,
{
}

/// Two `get_parsed` results for the same environment and key are equal.
pub proof fn lemma_get_parsed_idempotent<T: EnvValue>(
    env: Map<Seq<char>, Seq<char>>,
    key: Seq<char>,
    r1: Result<T, EnvErrorView>,
    r2: Result<T, EnvErrorView>,
)
    requires
        r1 == get_parsed_spec::<T>(env, key),
        r2 == get_parsed_spec::<T>(env, key),
    ensures
        r1 == r2,
{
}

/// Two `get_parsed_or_default` results for the same environment, key and
/// default are equal.
pub proof fn lemma_get_parsed_or_default_idempotent<T: EnvValue>(
    env: Map<Seq<char>, Seq<char>>,
    key: Seq<char>,
    default: T,
    r1: T,
    r2: T,
)
    requires
        r1 == get_parsed_or_default_spec::<T>(env, key, default),
        r2 == get_parsed_or_default_spec::<T>(env, key, default),
    ensures
        r1 == r2,
{
}

/// Two `get_bool` results for the same environment, key and default are
/// equal.
pub proof fn lemma_get_bool_idempotent(
    env: Map<Seq<char>, Seq<char>>,
    key: Seq<char>,
    default: bool,
    r1: bool,
    r2: bool,
)
    requires
        r1 == get_bool_spec(env, key, default),
        r2 == get_bool_spec(env, key, default),
    ensures
        r1 == r2,
{
}

/// Two `get_list` results for the same environment and key are equal.
pub proof fn lemma_get_list_idempotent(
    env: Map<Seq<char>, Seq<char>>,
    key: Seq<char>,
    r1: Result<Seq<Seq<char>>, EnvErrorView>,
    r2: Result<Seq<Seq<char>>, EnvErrorView>,
)
    requires
        r1 == get_list_spec(env, key),
        r2 == get_list_spec(env, key),
    ensures
        r1 == r2,
{
}

/// Two `parse_memory_size` results for the same input are equal.
pub proof fn lemma_parse_memory_size_idempotent(
    input: Seq<char>,
    r1: Result<int, EnvErrorView>,
    r2: Result<int, EnvErrorView>,
)
    requires
        r1 == parse_memory_size_spec(input),
        r2 == parse_memory_size_spec(input),
    ensures
        r1 == r2,
{
}

} // verus!
