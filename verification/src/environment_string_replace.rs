//! Variable expansion: replaces `${NAME}` tokens in a string with values
//! drawn from a layered variable source (custom table first, then an
//! optional environment table).

use crate::text::chars_of_str;
use crate::text::find_char_from;
use crate::text::find_from;
use crate::text::push_all;
use crate::text::string_of_chars;
use crate::text::subvec_chars;
use vstd::prelude::*;

verus! {

/// Mathematical model of a variable source: layered name/value tables.
pub struct EnvReplaceView {
    /// When false, names absent from the custom table never resolve.
    pub use_system_environment: bool,
    /// Name/value pairs checked first; a later pair shadows an earlier one.
    pub custom: Seq<(Seq<char>, Seq<char>)>,
    /// Name/value pairs of the ambient environment, checked second.
    pub environment: Seq<(Seq<char>, Seq<char>)>,
}

/// View of a vector of name/value pairs as a sequence of character sequences.
pub open spec fn pairs_view(pairs: Seq<(String, String)>) -> Seq<(Seq<char>, Seq<char>)> {
    pairs.map_values(|p: (String, String)| (p.0@, p.1@))
}

/// Value bound to `name` in `pairs`, the last matching pair winning.
pub open spec fn lookup(pairs: Seq<(Seq<char>, Seq<char>)>, name: Seq<char>) -> Option<Seq<char>>
    decreases pairs.len(),
{
    if pairs.len() == 0 {
        None
    } else if pairs.last().0 == name {
        Some(pairs.last().1)
    } else {
        lookup(pairs.drop_last(), name)
    }
}

/// Resolution of `name` through the layered source: the custom table first,
/// then the environment table when that fallback is enabled.
pub open spec fn resolve(v: EnvReplaceView, name: Seq<char>) -> Option<Seq<char>> {
    match lookup(v.custom, name) {
        Some(val) => Some(val),
        None => if v.use_system_environment {
            lookup(v.environment, name)
        } else {
            None
        },
    }
}

/// The text an unresolved or resolved name contributes to the output:
/// its value on success, nothing on failure.
pub open spec fn resolve_or_empty(v: EnvReplaceView, name: Seq<char>) -> Seq<char> {
    match resolve(v, name) {
        Some(val) => val,
        None => Seq::empty(),
    }
}

/// A `${NAME}` token starts at index `i` of `s`: the two marker characters,
/// then at least one name character before the first closing brace.
pub open spec fn token_starts_at(s: Seq<char>, i: int) -> bool {
    &&& 0 <= i
    &&& i + 1 < s.len()
    &&& s[i] == '$'
    &&& s[i + 1] == '{'
    &&& match find_from(s, '}', i + 2) {
        Some(j) => i + 2 < j && j < s.len(),
        None => false,
    }
}

/// The expansion of `s` from index `i` on: each `${NAME}` token is replaced
/// by the resolution of its name (empty when unresolved), every other
/// character is kept, in a single left-to-right pass.
pub open spec fn expand_from(v: EnvReplaceView, s: Seq<char>, i: int) -> Seq<char>
    decreases s.len() - i,
        when 0 <= i <= s.len()
{
    if i >= s.len() {
        Seq::empty()
    } else if token_starts_at(s, i) {
        match find_from(s, '}', i + 2) {
            Some(j) => resolve_or_empty(v, s.subrange(i + 2, j)) + expand_from(v, s, j + 1),
            None => seq![s[i]] + expand_from(v, s, i + 1),
        }
    } else {
        seq![s[i]] + expand_from(v, s, i + 1)
    }
}

/// The expansion of the whole of `s`.
pub open spec fn expand_spec(v: EnvReplaceView, s: Seq<char>) -> Seq<char> {
    expand_from(v, s, 0)
}

/// A layered variable source for `${NAME}` expansion.
pub struct EnvStringReplace {
    use_system_environment_variables: bool,
    custom_variables: Vec<(String, String)>,
    environment_variables: Vec<(String, String)>,
}

impl View for EnvStringReplace {
    type V = EnvReplaceView;

    closed spec fn view(&self) -> EnvReplaceView {
        EnvReplaceView {
            use_system_environment: self.use_system_environment_variables,
            custom: pairs_view(self.custom_variables@),
            environment: pairs_view(self.environment_variables@),
        }
    }
}

impl EnvStringReplace {
    /// A source with empty tables; `use_system_environment_variables` decides
    /// whether names may later fall back to the environment table.
    pub fn new(use_system_environment_variables: bool) -> (r: Self)
        ensures
            r@.use_system_environment == use_system_environment_variables,
            r@.custom == Seq::<(Seq<char>, Seq<char>)>::empty(),
            r@.environment == Seq::<(Seq<char>, Seq<char>)>::empty(),
    {
        let r = EnvStringReplace {
            use_system_environment_variables,
            custom_variables: Vec::new(),
            environment_variables: Vec::new(),
        };
        proof {
            assert(r@.custom =~= Seq::<(Seq<char>, Seq<char>)>::empty());
            assert(r@.environment =~= Seq::<(Seq<char>, Seq<char>)>::empty());
        }
        r
    }

    /// Bind `name` to `value` in the custom table, shadowing any earlier
    /// binding of the same name.
    pub fn set_custom_variable(&mut self, name: String, value: String)
        ensures
            final (self)@.custom == old(self)@.custom.push((name@, value@)),
            final (self)@.environment == old(self)@.environment,
            final (self)@.use_system_environment == old(self)@.use_system_environment,
    {
        let ghost before = self@.custom;
        self.custom_variables.push((name, value));
        proof {
            assert(self@.custom =~= before.push((name@, value@)));
        }
    }

    /// Install the environment table that names may fall back to; the caller
    /// hands in the ambient process environment as plain pairs.
    pub fn set_environment_variables(&mut self, vars: Vec<(String, String)>)
        ensures
            final (self)@.environment == pairs_view(vars@),
            final (self)@.custom == old(self)@.custom,
            final (self)@.use_system_environment == old(self)@.use_system_environment,
    {
        self.environment_variables = vars;
    }

    /// Resolve `key` through the layered source: the custom table first,
    /// then the environment table when that fallback is enabled.
    pub fn get_var_value(&self, key: &str) -> (r: Result<String, ()>)
        ensures
            match r {
                Ok(val) => resolve(self@, key@) == Some(val@),
                Err(_) => resolve(self@, key@) is None,
            },
    {
        match lookup_pairs(&self.custom_variables, key) {
            Some(val) => Ok(val),
            None => {
                if !self.use_system_environment_variables {
                    Err(())
                } else {
                    match lookup_pairs(&self.environment_variables, key) {
                        Some(val) => Ok(val),
                        None => Err(()),
                    }
                }
            },
        }
    }

    /// Expand every `${NAME}` token of `target` in one left-to-right pass,
    /// replacing each by its resolved value or by nothing when unresolved;
    /// all other characters, malformed tokens included, are kept as they are.
    pub fn apply(&self, target: &String) -> (r: String)
        ensures
            r@ == expand_spec(self@, target@),
    {
        let s = chars_of_str(target.as_str());
        let n = s.len();
        let mut out: Vec<char> = Vec::new();
        let mut i: usize = 0;
        while i < n
            invariant
                s@ == target@,
                n == s@.len(),
                i <= n,
                out@ + expand_from(self@, s@, i as int) == expand_spec(self@, s@),
            decreases n - i,
        {
            let mut consumed = false;
            if s[i] == '$' && i + 1 < n && s[i + 1] == '{' {
                match find_char_from(&s, '}', i + 2) {
                    Some(j) => {
                        if i + 2 < j {
                            let name = subvec_chars(&s, i + 2, j);
                            let name_string = string_of_chars(&name);
                            let ghost prev = out@;
                            match self.get_var_value(name_string.as_str()) {
                                Ok(val) => {
                                    let val_chars = chars_of_str(val.as_str());
                                    push_all(&mut out, &val_chars);
                                },
                                Err(_) => {
                                    proof {
                                        assert(out@ =~= prev + Seq::<char>::empty());
                                    }
                                },
                            }
                            proof {
                                assert(token_starts_at(s@, i as int));
                                assert(out@ == prev + resolve_or_empty(
                                    self@,
                                    s@.subrange(i + 2 as int, j as int),
                                ));
                                assert(out@ + expand_from(self@, s@, j + 1 as int) =~= prev
                                    + expand_from(self@, s@, i as int));
                            }
                            i = j + 1;
                            consumed = true;
                        }
                    },
                    None => {},
                }
            }
            if !consumed {
                proof {
                    assert(!token_starts_at(s@, i as int));
                    assert(out@.push(s@[i as int]) + expand_from(self@, s@, i + 1 as int) =~= out@
                        + expand_from(self@, s@, i as int));
                }
                out.push(s[i]);
                i = i + 1;
            }
        }
        proof {
            assert(out@ =~= expand_spec(self@, s@));
        }
        string_of_chars(&out)
    }
}

proof fn lemma_expand_identity_from(v: EnvReplaceView, s: Seq<char>, i: int)
    requires
        0 <= i <= s.len(),
        forall|j: int| !token_starts_at(s, j),
    ensures
        expand_from(v, s, i) == s.skip(i),
    decreases s.len() - i,
{
    if i >= s.len() {
        assert(expand_from(v, s, i) =~= s.skip(i));
    } else {
        assert(!token_starts_at(s, i));
        lemma_expand_identity_from(v, s, i + 1);
        assert(seq![s[i]] + s.skip(i + 1) =~= s.skip(i));
    }
}

/// On a string that holds no `${NAME}` token, expansion is the identity,
/// whatever the variable source holds.
pub proof fn lemma_expand_identity(v: EnvReplaceView, s: Seq<char>)
    requires
        forall|j: int| !token_starts_at(s, j),
    ensures
        expand_spec(v, s) == s,
{
    lemma_expand_identity_from(v, s, 0);
    assert(s.skip(0) =~= s);
}

/// A name bound in the custom table always resolves to its custom value,
/// taking precedence over any same-named environment entry.
pub proof fn lemma_custom_precedence(v: EnvReplaceView, name: Seq<char>, val: Seq<char>)
    requires
        lookup(v.custom, name) == Some(val),
    ensures
        resolve(v, name) == Some(val),
{
}

/// Value bound to `key` in `pairs`, the last matching pair winning.
fn lookup_pairs(pairs: &Vec<(String, String)>, key: &str) -> (r: Option<String>)
    ensures
        match r {
            Some(val) => lookup(pairs_view(pairs@), key@) == Some(val@),
            None => lookup(pairs_view(pairs@), key@) is None,
        },
{
    let key_string = key.to_owned();
    let ghost m = pairs_view(pairs@);
    let mut best: Option<String> = None;
    let mut i: usize = 0;
    while i < pairs.len()
        invariant
            i <= pairs@.len(),
            m == pairs_view(pairs@),
            key_string@ == key@,
            match best {
                Some(val) => lookup(m.take(i as int), key@) == Some(val@),
                None => lookup(m.take(i as int), key@) is None,
            },
        decreases pairs@.len() - i,
    {
        proof {
            assert(m.take(i + 1 as int).drop_last() =~= m.take(i as int));
            assert(m.take(i + 1 as int).last() == m[i as int]);
        }
        let pair = &pairs[i];
        if pair.0 == key_string {
            best = Some(pair.1.clone());
        }
        i = i + 1;
    }
    proof {
        assert(m.take(pairs@.len() as int) =~= m);
    }
    best
}

} // verus!
