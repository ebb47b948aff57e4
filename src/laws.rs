use vstd::prelude::*;

use crate::env::{EnvironmentView, collected, entry_for, has_prefix, key_for, prefix_pattern, separated};
use crate::text::lower_of;

verus! {

/// Under a prefix, every key of the collected mapping comes from a variable
/// whose name begins with the prefix and `_` in some mix of cases: names
/// without it leave no trace.
pub proof fn lemma_keys_come_from_prefixed_names(
    cfg: EnvironmentView,
    vars: Seq<(Seq<char>, Seq<char>)>,
    key: Seq<char>,
)
    requires
        cfg.prefix is Some,
        collected(cfg, vars).contains_key(key),
    ensures
        exists|i: int|
            0 <= i < vars.len() && has_prefix(#[trigger] vars[i].0, prefix_pattern(cfg.prefix->0))
                && key_for(cfg, vars[i].0) == Some(key),
    decreases vars.len(),
{
    let n = vars.len() - 1;
    let last = vars.last();
    match entry_for(cfg, last.0, last.1) {
        Some(e) => {
            if e.0 == key {
                assert(has_prefix(vars[n].0, prefix_pattern(cfg.prefix->0)));
                return;
            }
        },
        None => {},
    }
    lemma_keys_come_from_prefixed_names(cfg, vars.drop_last(), key);
    let i = choose|i: int|
        0 <= i < vars.drop_last().len() && has_prefix(
            #[trigger] vars.drop_last()[i].0,
            prefix_pattern(cfg.prefix->0),
        ) && key_for(cfg, vars.drop_last()[i].0) == Some(key);
    assert(vars.drop_last()[i] == vars[i]);
}

/// Under a prefix, a variable whose name begins with the prefix and `_` in
/// any case, and which is not dropped for being empty, is collected under
/// the rest of its name, separators turned into `.`, in lower case.
pub proof fn lemma_prefixed_name_collected(
    cfg: EnvironmentView,
    vars: Seq<(Seq<char>, Seq<char>)>,
    i: int,
)
    requires
        cfg.prefix is Some,
        0 <= i < vars.len(),
        has_prefix(vars[i].0, prefix_pattern(cfg.prefix->0)),
        !(cfg.ignore_empty && vars[i].1.len() == 0),
    ensures
        collected(cfg, vars).contains_key(
            lower_of(
                separated(vars[i].0.skip(prefix_pattern(cfg.prefix->0).len() as int), cfg.separator),
            ),
        ),
    decreases vars.len(),
{
    if i < vars.len() - 1 {
        assert(vars.drop_last()[i] == vars[i]);
        lemma_prefixed_name_collected(cfg, vars.drop_last(), i);
    }
}

/// Collecting the same variables under the same settings twice gives the
/// same mapping, keys, kinds and origins alike.
pub proof fn lemma_collect_repeatable(
    cfg: EnvironmentView,
    first: Seq<(Seq<char>, Seq<char>)>,
    second: Seq<(Seq<char>, Seq<char>)>,
)
    requires
        first == second,
    ensures
        collected(cfg, first) == collected(cfg, second),
{
}

/// The case of the prefix in a name does not matter: a variable renamed to
/// a name that is the same in lower case and the same after the prefix
/// leaves the collected mapping as it was.
pub proof fn lemma_prefix_case_ignored(
    cfg: EnvironmentView,
    vars: Seq<(Seq<char>, Seq<char>)>,
    i: int,
    name: Seq<char>,
)
    requires
        cfg.prefix is Some,
        0 <= i < vars.len(),
        name.len() == vars[i].0.len(),
        lower_of(name) == lower_of(vars[i].0),
        name.skip(prefix_pattern(cfg.prefix->0).len() as int) == vars[i].0.skip(
            prefix_pattern(cfg.prefix->0).len() as int,
        ),
    ensures
        collected(cfg, vars.update(i, (name, vars[i].1))) == collected(cfg, vars),
    decreases vars.len(),
{
    let renamed = vars.update(i, (name, vars[i].1));
    if i < vars.len() - 1 {
        assert(renamed.drop_last() =~= vars.drop_last().update(i, (name, vars[i].1)));
        assert(vars.drop_last()[i] == vars[i]);
        lemma_prefix_case_ignored(cfg, vars.drop_last(), i, name);
    } else {
        assert(renamed.drop_last() =~= vars.drop_last());
        assert(entry_for(cfg, name, vars[i].1) == entry_for(cfg, vars[i].0, vars[i].1));
    }
}

} // verus!
