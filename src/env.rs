use vstd::prelude::*;

use crate::map::ConfigMap;
use crate::text::{float_syntax, int_text, float_text, lower_of, lowercase, parse_i64, replace_all, replaced, starts_with};
use crate::value::{KindView, Value, ValueKind, ValueView};

verus! {

/// Where every value that `Environment::collect` makes says it came from.
pub const ORIGIN: &'static str = "the environment";

/// Reads configuration from environment variables.
#[derive(Clone, Debug)]
pub struct Environment {
    /// Only names that begin with this prefix and `_`, in any case, are read;
    /// the key is what follows. With a prefix of `config`, `CONFIG_DEBUG`
    /// gives the key `debug`.
    prefix: Option<String>,
    /// Stands for `.` between the segments of a nested key: with `_`,
    /// `REDIS_PASSWORD` gives the key `redis.password`.
    separator: Option<String>,
    /// Variables set to the empty string count as unset.
    ignore_empty: bool,
    /// Values that read as integers or floating-point numbers become one.
    parse_numbers: bool,
}

/// The settings of an `Environment`.
pub struct EnvironmentView {
    pub prefix: Option<Seq<char>>,
    pub separator: Option<Seq<char>>,
    pub ignore_empty: bool,
    pub parse_numbers: bool,
}

impl View for Environment {
    type V = EnvironmentView;

    closed spec fn view(&self) -> EnvironmentView {
        EnvironmentView {
            prefix: self.prefix.deep_view(),
            separator: self.separator.deep_view(),
            ignore_empty: self.ignore_empty,
            parse_numbers: self.parse_numbers,
        }
    }
}

pub open spec fn origin_text() -> Seq<char> {
    ORIGIN@
}

/// What a name must begin with under `prefix`.
pub open spec fn prefix_pattern(prefix: Seq<char>) -> Seq<char> {
    prefix + seq!['_']
}

/// `name` begins with `pattern` when both are put in lower case. A name with
/// fewer characters than the pattern never does, even where lower-casing
/// lengthens it: the characters taken off are those the pattern counts.
pub open spec fn has_prefix(name: Seq<char>, pattern: Seq<char>) -> bool {
    pattern.len() <= name.len() && lower_of(pattern).is_prefix_of(lower_of(name))
}

/// What is left of `name` once the prefix is taken off; `None` if the name
/// does not carry it.
pub open spec fn stripped_name(cfg: EnvironmentView, name: Seq<char>) -> Option<Seq<char>> {
    match cfg.prefix {
        None => Some(name),
        Some(p) => if has_prefix(name, prefix_pattern(p)) {
            Some(name.skip(prefix_pattern(p).len() as int))
        } else {
            None
        },
    }
}

/// `key` with each occurrence of a non-empty separator turned into `.`.
pub open spec fn separated(key: Seq<char>, separator: Option<Seq<char>>) -> Seq<char> {
    match separator {
        Some(s) => if s.len() > 0 {
            replaced(key, s, seq!['.'])
        } else {
            key
        },
        None => key,
    }
}

/// The key under which the variable `name` is collected, if it is.
pub open spec fn key_for(cfg: EnvironmentView, name: Seq<char>) -> Option<Seq<char>> {
    match stripped_name(cfg, name) {
        Some(k) => Some(lower_of(separated(k, cfg.separator))),
        None => None,
    }
}

/// What a variable's text becomes: an integer where it writes one, else a
/// floating-point number where it writes one, else the text itself; numbers
/// only when `parse_numbers` is set.
pub open spec fn kind_for(parse_numbers: bool, text: Seq<char>) -> KindView {
    if !parse_numbers {
        KindView::Str(text)
    } else {
        match int_text(text) {
            Some(i) => KindView::Int(i),
            None => if float_text(text) {
                KindView::Float(text)
            } else {
                KindView::Str(text)
            },
        }
    }
}

/// The key and value that the variable `name` set to `text` contributes.
pub open spec fn entry_for(cfg: EnvironmentView, name: Seq<char>, text: Seq<char>) -> Option<
    (Seq<char>, ValueView),
> {
    if cfg.ignore_empty && text.len() == 0 {
        None
    } else {
        match key_for(cfg, name) {
            Some(k) => Some(
                (k, ValueView { origin: Some(origin_text()), kind: kind_for(cfg.parse_numbers, text) }),
            ),
            None => None,
        }
    }
}

/// The mapping collected from `vars`, read in order: a later variable with
/// the same key takes the place of an earlier one.
pub open spec fn collected(cfg: EnvironmentView, vars: Seq<(Seq<char>, Seq<char>)>) -> Map<
    Seq<char>,
    ValueView,
>
    decreases vars.len(),
{
    if vars.len() == 0 {
        Map::empty()
    } else {
        let m = collected(cfg, vars.drop_last());
        match entry_for(cfg, vars.last().0, vars.last().1) {
            Some(e) => m.insert(e.0, e.1),
            None => m,
        }
    }
}

impl Default for Environment {
    fn default() -> (r: Environment)
        ensures
            r@ == (EnvironmentView {
                prefix: None,
                separator: None,
                ignore_empty: false,
                parse_numbers: false,
            }),
    {
        Environment { prefix: None, separator: None, ignore_empty: false, parse_numbers: false }
    }
}

impl Environment {
    pub fn new() -> (r: Environment)
        ensures
            r@ == (EnvironmentView {
                prefix: None,
                separator: None,
                ignore_empty: false,
                parse_numbers: false,
            }),
    {
        Environment::default()
    }

    pub fn with_prefix(s: &str) -> (r: Environment)
        ensures
            r@ == (EnvironmentView {
                prefix: Some(s@),
                separator: None,
                ignore_empty: false,
                parse_numbers: false,
            }),
    {
        Environment {
            prefix: Some(String::from_str(s)),
            separator: None,
            ignore_empty: false,
            parse_numbers: false,
        }
    }

    pub fn prefix(self, s: &str) -> (r: Environment)
        ensures
            r@ == (EnvironmentView { prefix: Some(s@), ..self@ }),
    {
        Environment { prefix: Some(String::from_str(s)), ..self }
    }

    pub fn separator(self, s: &str) -> (r: Environment)
        ensures
            r@ == (EnvironmentView { separator: Some(s@), ..self@ }),
    {
        Environment { separator: Some(String::from_str(s)), ..self }
    }

    pub fn ignore_empty(self, ignore: bool) -> (r: Environment)
        ensures
            r@ == (EnvironmentView { ignore_empty: ignore, ..self@ }),
    {
        Environment { ignore_empty: ignore, ..self }
    }

    pub fn parse_numbers(self, parse_numbers: bool) -> (r: Environment)
        ensures
            r@ == (EnvironmentView { parse_numbers: parse_numbers, ..self@ }),
    {
        Environment { parse_numbers, ..self }
    }

    /// The configuration that `vars`, a list of environment variables as
    /// names and values, gives under these settings. Each variable is read in
    /// turn; a later one replaces an earlier one with the same key.
    pub fn collect(&self, vars: &Vec<(String, String)>) -> (r: ConfigMap)
        ensures
            r.wf(),
            r@ == collected(self@, vars.deep_view()),
    {
        let pattern: Option<(usize, String)> = match &self.prefix {
            Some(p) => {
                let mut full = p.clone();
                full.append("_");
                proof {
                    reveal_strlit("_");
                    assert("_"@ =~= seq!['_']);
                }
                assert(full@ == prefix_pattern(p@));
                Some((full.unicode_len(), lowercase(full.as_str())))
            },
            None => None,
        };
        let mut m = ConfigMap::new();
        let mut i: usize = 0;
        while i < vars.len()
            invariant
                i <= vars@.len(),
                m.wf(),
                m@ == collected(self@, vars.deep_view().take(i as int)),
                match self@.prefix {
                    None => pattern is None,
                    Some(p) => pattern matches Some(lp) && lp.0 == prefix_pattern(p).len() && lp.1@
                        == lower_of(prefix_pattern(p)),
                },
            decreases vars@.len() - i,
        {
            let var = &vars[i];
            assert(vars.deep_view().take(i + 1).drop_last() =~= vars.deep_view().take(i as int));
            assert(vars.deep_view().take(i + 1).last() == (var.0@, var.1@));
            match self.entry(&pattern, var.0.as_str(), var.1.as_str()) {
                Some((key, value)) => m.insert(key, value),
                None => {},
            }
            i = i + 1;
        }
        assert(vars.deep_view().take(i as int) =~= vars.deep_view());
        m
    }

    /// The key for the variable `name`; `pattern` is the length of the
    /// prefix pattern and that pattern in lower case, if there is a prefix.
    fn key_of(&self, pattern: &Option<(usize, String)>, name: &str) -> (r: Option<String>)
        requires
            match self@.prefix {
                None => pattern is None,
                Some(p) => pattern matches Some(lp) && lp.0 == prefix_pattern(p).len() && lp.1@
                    == lower_of(prefix_pattern(p)),
            },
        ensures
            match r {
                Some(k) => key_for(self@, name@) == Some(k@),
                None => key_for(self@, name@) is None,
            },
    {
        let mut key: String;
        match pattern {
            Some((len, lowered)) => {
                let n = name.unicode_len();
                if *len <= n && starts_with(lowercase(name).as_str(), lowered.as_str()) {
                    key = String::from_str(name.substring_char(*len, n));
                    assert(key@ =~= name@.skip(*len as int));
                } else {
                    return None;
                }
            },
            None => {
                key = String::from_str(name);
            },
        }
        assert(stripped_name(self@, name@) == Some(key@));
        let ghost stripped = key@;
        match &self.separator {
            Some(sep) => {
                assert(self@.separator == Some(sep@));
                if sep.unicode_len() > 0 {
                    proof {
                        reveal_strlit(".");
                        assert("."@ =~= seq!['.']);
                    }
                    key = replace_all(key.as_str(), sep.as_str(), ".");
                }
            },
            None => {},
        }
        assert(key@ == separated(stripped, self@.separator));
        Some(lowercase(key.as_str()))
    }

    /// The variable `name` set to `text`, as a key and a value, unless it is
    /// left out.
    fn entry(&self, pattern: &Option<(usize, String)>, name: &str, text: &str) -> (r: Option<
        (String, Value),
    >)
        requires
            match self@.prefix {
                None => pattern is None,
                Some(p) => pattern matches Some(lp) && lp.0 == prefix_pattern(p).len() && lp.1@
                    == lower_of(prefix_pattern(p)),
            },
        ensures
            match r {
                Some(e) => entry_for(self@, name@, text@) == Some((e.0@, e.1@)),
                None => entry_for(self@, name@, text@) is None,
            },
    {
        if self.ignore_empty && text.unicode_len() == 0 {
            return None;
        }
        match self.key_of(pattern, name) {
            Some(key) => {
                let kind = value_kind(self.parse_numbers, text);
                Some((key, Value::new(Some(ORIGIN), kind)))
            },
            None => None,
        }
    }
}

/// What `text` holds: an integer, a floating-point number or text, as
/// `kind_for` says.
pub fn value_kind(parse_numbers: bool, text: &str) -> (r: ValueKind)
    ensures
        r@ == kind_for(parse_numbers, text@),
{
    if parse_numbers {
        match parse_i64(text) {
            Some(i) => ValueKind::Integer(i),
            None => if float_syntax(text) {
                ValueKind::Float(String::from_str(text))
            } else {
                ValueKind::String(String::from_str(text))
            },
        }
    } else {
        ValueKind::String(String::from_str(text))
    }
}

} // verus!
