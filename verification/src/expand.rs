//! Expansion of `${VAR}` placeholders in a configuration document against
//! a list of variable bindings. A placeholder is a dollar sign, an opening
//! brace, a non-empty name free of closing braces, and a closing brace;
//! anything else is copied through unchanged.

use vstd::prelude::*;
use vstd::string::StrSliceExecFns;
use vstd::string::StringExecFns;
use crate::text::{find_first, lemma_find_first_props, str_find_first};

verus! {

/// Why expansion failed.
#[derive(Debug)]
pub enum ExpandError {
    MissingVariable(String),
}

/// The model of an [`ExpandError`].
pub enum ExpandErrorView {
    MissingVariable(Seq<char>),
}

impl View for ExpandError {
    type V = ExpandErrorView;

    open spec fn view(&self) -> ExpandErrorView {
        match self {
            ExpandError::MissingVariable(n) => ExpandErrorView::MissingVariable(n@),
        }
    }
}

/// The bindings as character sequences.
pub open spec fn vars_view(vars: Seq<(String, String)>) -> Seq<(Seq<char>, Seq<char>)> {
    vars.map_values(|p: (String, String)| (p.0@, p.1@))
}

/// The value bound to `name`, taking the first binding when a name is
/// bound twice.
pub open spec fn lookup_var(vars: Seq<(Seq<char>, Seq<char>)>, name: Seq<char>) -> Option<
    Seq<char>,
>
    decreases vars.len(),
{
    if vars.len() == 0 {
        None
    } else if vars[0].0 == name {
        Some(vars[0].1)
    } else {
        lookup_var(vars.drop_first(), name)
    }
}

proof fn lemma_lookup_var_at(vars: Seq<(Seq<char>, Seq<char>)>, name: Seq<char>, k: int)
    requires
        0 <= k < vars.len(),
        vars[k].0 == name,
        forall|j: int| 0 <= j < k ==> vars[j].0 != name,
    ensures
        lookup_var(vars, name) == Some(vars[k].1),
    decreases k,
{
    if k != 0 {
        lemma_lookup_var_at(vars.drop_first(), name, k - 1);
    }
}

proof fn lemma_lookup_var_none(vars: Seq<(Seq<char>, Seq<char>)>, name: Seq<char>)
    requires
        forall|j: int| 0 <= j < vars.len() ==> vars[j].0 != name,
    ensures
        lookup_var(vars, name) == None::<Seq<char>>,
    decreases vars.len(),
{
    if vars.len() > 0 {
        lemma_lookup_var_none(vars.drop_first(), name);
    }
}

/// Whether `s` begins with a placeholder: `${`, then a non-empty name
/// containing no closing brace, then `}`.
pub open spec fn placeholder_at_start(s: Seq<char>) -> bool {
    s.len() >= 2 && s[0] == '$' && s[1] == '{' && 2 < find_first(s, '}') < s.len()
}

/// What expanding `s` against `vars` yields: the expanded text, or the
/// name of the first placeholder whose variable is unbound.
pub open spec fn spec_expand(s: Seq<char>, vars: Seq<(Seq<char>, Seq<char>)>) -> Result<
    Seq<char>,
    Seq<char>,
>
    decreases s.len(),
{
    if s.len() == 0 {
        Ok(s)
    } else if placeholder_at_start(s) {
        let close = find_first(s, '}');
        let name = s.subrange(2, close);
        match lookup_var(vars, name) {
            Some(v) => match spec_expand(s.subrange(close + 1, s.len() as int), vars) {
                Ok(rest) => Ok(v + rest),
                Err(e) => Err(e),
            },
            None => Err(name),
        }
    } else {
        match spec_expand(s.subrange(1, s.len() as int), vars) {
            Ok(rest) => Ok(seq![s[0]] + rest),
            Err(e) => Err(e),
        }
    }
}

/// The names of the placeholders in `s`, in order of occurrence.
pub open spec fn spec_placeholder_names(s: Seq<char>) -> Seq<Seq<char>>
    decreases s.len(),
{
    if s.len() == 0 {
        Seq::empty()
    } else if placeholder_at_start(s) {
        let close = find_first(s, '}');
        seq![s.subrange(2, close)] + spec_placeholder_names(
            s.subrange(close + 1, s.len() as int),
        )
    } else {
        spec_placeholder_names(s.subrange(1, s.len() as int))
    }
}

fn lookup_var_exec<'a>(vars: &'a Vec<(String, String)>, name: &str) -> (r: Option<&'a String>)
    ensures
        match r {
            Some(v) => lookup_var(vars_view(vars@), name@) == Some(v@),
            None => lookup_var(vars_view(vars@), name@) == None::<Seq<char>>,
        },
{
    let n = vars.len();
    let mut i: usize = 0;
    while i < n
        invariant
            0 <= i <= n,
            n == vars@.len(),
            forall|j: int| 0 <= j < i ==> vars_view(vars@)[j].0 != name@,
        decreases n - i,
    {
        if crate::text::str_eq(vars[i].0.as_str(), name) {
            proof {
                lemma_lookup_var_at(vars_view(vars@), name@, i as int);
            }
            return Some(&vars[i].1);
        }
        i = i + 1;
    }
    proof {
        lemma_lookup_var_none(vars_view(vars@), name@);
    }
    None
}

/// Replaces each `${VAR}` placeholder in `s` with the value bound to
/// `VAR`, failing on the first unbound variable.
pub fn expand_placeholders(s: &str, vars: &Vec<(String, String)>) -> (r: Result<
    String,
    ExpandError,
>)
    ensures
        match r {
            Ok(out) => spec_expand(s@, vars_view(vars@)) == Ok::<Seq<char>, Seq<char>>(out@),
            Err(e) => spec_expand(s@, vars_view(vars@)) matches Err(n) && e@
                == ExpandErrorView::MissingVariable(n),
        },
    decreases s@.len(),
{
    let n = s.unicode_len();
    if n == 0 {
        return Ok(s.to_owned());
    }
    if n >= 2 && s.get_char(0) == '$' && s.get_char(1) == '{' {
        let close_opt = str_find_first(s, '}');
        match close_opt {
            Some(close) if close > 2 => {
                proof {
                    lemma_find_first_props(s@, '}');
                }
                let name = s.substring_char(2, close);
                match lookup_var_exec(vars, name) {
                    Some(v) => {
                        let tail = s.substring_char(close + 1, n);
                        match expand_placeholders(tail, vars) {
                            Ok(rest) => Ok(String::from_str(v.as_str()).concat(rest.as_str())),
                            Err(e) => Err(e),
                        }
                    },
                    None => Err(ExpandError::MissingVariable(name.to_owned())),
                }
            },
            _ => {
                let head = s.substring_char(0, 1);
                let tail = s.substring_char(1, n);
                proof {
                    assert(!placeholder_at_start(s@));
                    assert(head@ =~= seq![s@[0]]);
                }
                match expand_placeholders(tail, vars) {
                    Ok(rest) => Ok(String::from_str(head).concat(rest.as_str())),
                    Err(e) => Err(e),
                }
            },
        }
    } else {
        let head = s.substring_char(0, 1);
        let tail = s.substring_char(1, n);
        proof {
            assert(!placeholder_at_start(s@));
            assert(head@ =~= seq![s@[0]]);
        }
        match expand_placeholders(tail, vars) {
            Ok(rest) => Ok(String::from_str(head).concat(rest.as_str())),
            Err(e) => Err(e),
        }
    }
}

/// The names of the placeholders in `s`, in order of occurrence, so a
/// caller can gather their values before expanding.
pub fn placeholder_names(s: &str) -> (r: Vec<String>)
    ensures
        r@.map_values(|x: String| x@) == spec_placeholder_names(s@),
    decreases s@.len(),
{
    let n = s.unicode_len();
    let mut out: Vec<String> = Vec::new();
    if n == 0 {
        proof {
            assert(out@.map_values(|x: String| x@) =~= spec_placeholder_names(s@));
        }
        return out;
    }
    if n >= 2 && s.get_char(0) == '$' && s.get_char(1) == '{' {
        let close_opt = str_find_first(s, '}');
        match close_opt {
            Some(close) if close > 2 => {
                proof {
                    lemma_find_first_props(s@, '}');
                }
                let name = s.substring_char(2, close);
                out.push(name.to_owned());
                let mut rest = placeholder_names(s.substring_char(close + 1, n));
                let ghost rest0 = rest@;
                out.append(&mut rest);
                proof {
                    assert(out@.map_values(|x: String| x@) =~= spec_placeholder_names(s@));
                }
                out
            },
            _ => {
                proof {
                    assert(!placeholder_at_start(s@));
                }
                placeholder_names(s.substring_char(1, n))
            },
        }
    } else {
        proof {
            assert(!placeholder_at_start(s@));
        }
        placeholder_names(s.substring_char(1, n))
    }
}

} // verus!
