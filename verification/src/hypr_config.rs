//! Scope-aware config parsing: an ordered list of raw lines becomes an
//! ordered list of flat key/value records, with brace-delimited scopes
//! prefixing keys and macro-marked lines passing through variable expansion.

use crate::environment_string_replace::expand_spec;
use crate::environment_string_replace::EnvReplaceView;
use crate::environment_string_replace::EnvStringReplace;
use crate::text::chars_of_str;
use crate::text::find_char_from;
use crate::text::find_from;
use crate::text::string_of_chars;
use crate::text::subvec_chars;
use crate::text::trim_chars;
use crate::text::trim_spec;
use vstd::prelude::*;
use vstd::string::StringExecFns;

verus! {

/// One parsed directive: a fully-qualified, colon-separated key and its value.
pub struct HyprConfigObject {
    pub key: String,
    pub value: String,
}

impl View for HyprConfigObject {
    type V = (Seq<char>, Seq<char>);

    open spec fn view(&self) -> (Seq<char>, Seq<char>) {
        (self.key@, self.value@)
    }
}

impl HyprConfigObject {
    /// The `key=value` form in which an entry is written to a
    /// persistence file.
    pub fn persistence_line(&self) -> (r: String)
        ensures
            r@ == self.key@ + seq!['='] + self.value@,
    {
        let mut r = self.key.clone();
        r.append("=");
        r.append(self.value.as_str());
        proof {
            reveal_strlit("=");
            assert("="@ =~= seq!['=']);
            assert(r@ =~= self.key@ + seq!['='] + self.value@);
        }
        r
    }
}

/// The key/value pairs of a sequence of parsed directives.
pub open spec fn entries_view(entries: Seq<HyprConfigObject>) -> Seq<(Seq<char>, Seq<char>)> {
    entries.map_values(|e: HyprConfigObject| e@)
}

/// A trimmed line opts into variable expansion with the two-character
/// macro marker.
pub open spec fn macro_marked(t: Seq<char>) -> bool {
    t.len() >= 2 && t[0] == '#' && t[1] == '!'
}

/// The trimmed line with its macro marker removed, when it carries one.
pub open spec fn strip_marker(t: Seq<char>) -> Seq<char> {
    if macro_marked(t) {
        t.skip(2)
    } else {
        t
    }
}

/// The marker-stripped trimmed form of a raw line, against which all
/// further per-line checks run.
pub open spec fn line_body(line: Seq<char>) -> Seq<char> {
    strip_marker(trim_spec(line))
}

/// Whether a raw line opts into variable expansion.
pub open spec fn line_is_macro(line: Seq<char>) -> bool {
    macro_marked(trim_spec(line))
}

/// A comment line: skipped entirely, with no scope or entry effect.
pub open spec fn is_comment(b: Seq<char>) -> bool {
    b.len() >= 1 && b[0] == '#'
}

/// A line that opens a scope ends with the opening-brace marker.
pub open spec fn opens_scope(b: Seq<char>) -> bool {
    b.len() >= 1 && b.last() == '{'
}

/// A line that closes a scope starts with the closing-brace marker.
pub open spec fn closes_scope(b: Seq<char>) -> bool {
    b.len() >= 1 && b[0] == '}'
}

/// The scope stack after a non-comment line body `b`: an opening line pushes
/// its trimmed name first, then a closing line pops, a pop of an empty stack
/// being a no-op. Both can fire on one line; neither excludes an entry.
pub open spec fn scope_after_line(b: Seq<char>, scope: Seq<Seq<char>>) -> Seq<Seq<char>> {
    let pushed = if opens_scope(b) {
        scope.push(trim_spec(b.take(b.len() - 1)))
    } else {
        scope
    };
    if closes_scope(b) {
        if pushed.len() > 0 {
            pushed.drop_last()
        } else {
            pushed
        }
    } else {
        pushed
    }
}

/// The fully-qualified key: every open scope name, innermost first, each
/// followed by a colon, then the local key.
pub open spec fn joined_key(scope: Seq<Seq<char>>, local: Seq<char>) -> Seq<char>
    decreases scope.len(),
{
    if scope.len() == 0 {
        local
    } else {
        scope.last() + seq![':'] + joined_key(scope.drop_last(), local)
    }
}

/// The entry a non-comment line body `b` emits under the scope stack
/// `scope` (already updated for `b`'s own braces): none without an
/// assignment separator; otherwise the trimmed left side of the first `=`
/// qualified by the scopes, and the right side with any inline trailing
/// comment removed, trimmed, and expanded when the line is macro-eligible.
pub open spec fn line_entry(
    v: EnvReplaceView,
    b: Seq<char>,
    scope: Seq<Seq<char>>,
    is_macro: bool,
) -> Option<(Seq<char>, Seq<char>)> {
    match find_from(b, '=', 0) {
        None => None,
        Some(idx) => {
            let local_key = trim_spec(b.take(idx));
            let vseg = b.skip(idx + 1);
            let raw_value = match find_from(vseg, '#', 0) {
                None => vseg,
                Some(p) => vseg.take(p),
            };
            let value = trim_spec(raw_value);
            let expanded = if is_macro {
                expand_spec(v, value)
            } else {
                value
            };
            Some((joined_key(scope, local_key), expanded))
        },
    }
}

/// The scope stack after one raw line.
pub open spec fn line_step_scope(line: Seq<char>, scope: Seq<Seq<char>>) -> Seq<Seq<char>> {
    let b = line_body(line);
    if is_comment(b) {
        scope
    } else {
        scope_after_line(b, scope)
    }
}

/// The entry one raw line emits, if any.
pub open spec fn line_step_entry(v: EnvReplaceView, line: Seq<char>, scope: Seq<Seq<char>>) -> Option<
    (Seq<char>, Seq<char>),
> {
    let b = line_body(line);
    if is_comment(b) {
        None
    } else {
        line_entry(v, b, scope_after_line(b, scope), line_is_macro(line))
    }
}

/// The entries emitted by `lines[i..]`, starting from the scope stack
/// `scope`, in input order.
pub open spec fn parse_from(
    v: EnvReplaceView,
    lines: Seq<Seq<char>>,
    i: int,
    scope: Seq<Seq<char>>,
) -> Seq<(Seq<char>, Seq<char>)>
    decreases lines.len() - i,
        when 0 <= i <= lines.len()
{
    if i >= lines.len() {
        Seq::empty()
    } else {
        let rest = parse_from(v, lines, i + 1, line_step_scope(lines[i], scope));
        match line_step_entry(v, lines[i], scope) {
            Some(kv) => seq![kv] + rest,
            None => rest,
        }
    }
}

/// The entries of a whole input, parsed from an empty scope stack.
pub open spec fn parse_spec(v: EnvReplaceView, lines: Seq<Seq<char>>) -> Seq<
    (Seq<char>, Seq<char>),
> {
    parse_from(v, lines, 0, Seq::empty())
}

/// Parsing is a pure function of the lines and the variable source: equal
/// inputs parse to equal output, with no hidden state across calls.
pub proof fn lemma_parse_deterministic(
    v1: EnvReplaceView,
    v2: EnvReplaceView,
    l1: Seq<Seq<char>>,
    l2: Seq<Seq<char>>,
)
    requires
        v1 == v2,
        l1 == l2,
    ensures
        parse_spec(v1, l1) == parse_spec(v2, l2),
{
}

/// Qualify `local` with every open scope name, innermost first.
fn join_key(scope: &Vec<Vec<char>>, local: &Vec<char>) -> (r: Vec<char>)
    ensures
        r@ == joined_key(scope.deep_view(), local@),
{
    let ghost sv = scope.deep_view();
    let mut out: Vec<char> = Vec::new();
    let mut i: usize = scope.len();
    proof {
        assert(sv.len() == scope@.len());
        assert(sv.take(sv.len() as int) =~= sv);
        assert(out@ + joined_key(sv, local@) =~= joined_key(sv, local@));
    }
    while i > 0
        invariant
            sv == scope.deep_view(),
            sv.len() == scope@.len(),
            i <= scope@.len(),
            out@ + joined_key(sv.take(i as int), local@) == joined_key(sv, local@),
        decreases i,
    {
        i = i - 1;
        let ghost out_prev = out@;
        crate::text::push_all(&mut out, &scope[i]);
        out.push(':');
        proof {
            crate::text::lemma_chars_deep_view(scope@[i as int]);
            assert(scope@[i as int]@ == sv[i as int]);
            assert(sv.take(i + 1 as int).last() == sv[i as int]);
            assert(sv.take(i + 1 as int).drop_last() =~= sv.take(i as int));
            assert(out@ =~= out_prev + sv[i as int] + seq![':']);
            assert(out@ + joined_key(sv.take(i as int), local@) =~= out_prev + joined_key(
                sv.take(i + 1 as int),
                local@,
            ));
        }
    }
    let ghost out_before = out@;
    crate::text::push_all(&mut out, local);
    proof {
        assert(sv.take(0) =~= Seq::<Seq<char>>::empty());
        assert(joined_key(sv.take(0), local@) == local@);
        assert(out@ =~= out_before + joined_key(sv.take(0), local@));
    }
    out
}

/// Process one raw line: update the scope stack for its braces and return
/// the entry it emits, if any.
fn process_line(replacer: &EnvStringReplace, line: &str, scope: &mut Vec<Vec<char>>) -> (r: Option<
    HyprConfigObject,
>)
    ensures
        final (scope).deep_view() == line_step_scope(line@, old(scope).deep_view()),
        match r {
            Some(e) => line_step_entry(replacer@, line@, old(scope).deep_view()) == Some(e@),
            None => line_step_entry(replacer@, line@, old(scope).deep_view()) is None,
        },
{
    let ghost scope0 = scope.deep_view();
    let chars = chars_of_str(line);
    let trimmed = trim_chars(&chars);
    let t_len = trimmed.len();
    let is_macro = t_len >= 2 && trimmed[0] == '#' && trimmed[1] == '!';
    let body: Vec<char> = if is_macro {
        subvec_chars(&trimmed, 2, t_len)
    } else {
        trimmed
    };
    proof {
        assert(trim_spec(line@).skip(2) =~= trim_spec(line@).subrange(
            2,
            trim_spec(line@).len() as int,
        ));
        assert(body@ == line_body(line@));
        assert(is_macro == line_is_macro(line@));
    }
    let n = body.len();
    if n >= 1 && body[0] == '#' {
        return None;
    }
    if n >= 1 && body[n - 1] == '{' {
        let name = subvec_chars(&body, 0, n - 1);
        let scope_name = trim_chars(&name);
        let ghost sv_prev = scope.deep_view();
        let ghost pushed_name = scope_name@;
        scope.push(scope_name);
        proof {
            crate::text::lemma_chars_deep_view(scope@[scope@.len() - 1]);
            assert(body@.take(n - 1 as int) =~= body@.subrange(0, n - 1 as int));
            assert(pushed_name == trim_spec(body@.take(n - 1 as int)));
            assert(scope.deep_view() =~= sv_prev.push(pushed_name));
        }
    }
    if n >= 1 && body[0] == '}' {
        let ghost sv_prev = scope.deep_view();
        let _ = scope.pop();
        proof {
            if sv_prev.len() > 0 {
                assert(scope.deep_view() =~= sv_prev.drop_last());
            } else {
                assert(scope.deep_view() =~= sv_prev);
            }
        }
    }
    proof {
        assert(scope.deep_view() == scope_after_line(body@, scope0));
    }
    match find_char_from(&body, '=', 0) {
        None => None,
        Some(idx) => {
            let key_part = subvec_chars(&body, 0, idx);
            let local_key = trim_chars(&key_part);
            let vseg = subvec_chars(&body, idx + 1, n);
            let raw_value: Vec<char> = match find_char_from(&vseg, '#', 0) {
                None => vseg,
                Some(p) => subvec_chars(&vseg, 0, p),
            };
            let value = trim_chars(&raw_value);
            let full_key = join_key(scope, &local_key);
            proof {
                assert(body@.take(idx as int) =~= body@.subrange(0, idx as int));
                assert(body@.skip(idx + 1 as int) =~= body@.subrange(idx + 1 as int, n as int));
                if find_from(vseg@, '#', 0) is Some {
                    let p = find_from(vseg@, '#', 0)->Some_0;
                    assert(vseg@.take(p) =~= vseg@.subrange(0, p));
                }
            }
            let value_string = if is_macro {
                let raw_string = string_of_chars(&value);
                replacer.apply(&raw_string)
            } else {
                string_of_chars(&value)
            };
            Some(
                HyprConfigObject {
                    key: string_of_chars(&full_key),
                    value: value_string,
                },
            )
        },
    }
}

impl HyprConfigObject {
    /// Parse an ordered list of raw lines into the ordered list of entries
    /// they emit, expanding `${NAME}` tokens through `replacer` on
    /// macro-eligible lines.
    pub fn collection_from_vector(input: Vec<&str>, replacer: &EnvStringReplace) -> (r: Vec<
        HyprConfigObject,
    >)
        ensures
            entries_view(r@) == parse_spec(replacer@, input.deep_view()),
    {
        let ghost lines = input.deep_view();
        let mut result: Vec<HyprConfigObject> = Vec::new();
        let mut scope: Vec<Vec<char>> = Vec::new();
        let mut li: usize = 0;
        proof {
            assert(lines.len() == input@.len());
            assert(scope.deep_view() =~= Seq::<Seq<char>>::empty());
            assert(entries_view(result@) =~= Seq::<(Seq<char>, Seq<char>)>::empty());
            assert(entries_view(result@) + parse_from(replacer@, lines, 0, scope.deep_view())
                =~= parse_spec(replacer@, lines));
        }
        while li < input.len()
            invariant
                lines == input.deep_view(),
                lines.len() == input@.len(),
                li <= lines.len(),
                entries_view(result@) + parse_from(replacer@, lines, li as int, scope.deep_view())
                    == parse_spec(replacer@, lines),
            decreases lines.len() - li,
        {
            let ghost scope_before = scope.deep_view();
            let ghost result_before = result@;
            let line = input[li];
            proof {
                assert(lines[li as int] == line@);
            }
            let entry = process_line(replacer, line, &mut scope);
            match entry {
                Some(e) => {
                    let ghost ev = e@;
                    result.push(e);
                    proof {
                        assert(entries_view(result@) =~= entries_view(result_before).push(ev));
                        assert(entries_view(result_before).push(ev) + parse_from(
                            replacer@,
                            lines,
                            li + 1 as int,
                            scope.deep_view(),
                        ) =~= entries_view(result_before) + (seq![ev] + parse_from(
                            replacer@,
                            lines,
                            li + 1 as int,
                            scope.deep_view(),
                        )));
                    }
                },
                None => {},
            }
            li = li + 1;
        }
        proof {
            assert(parse_from(replacer@, lines, lines.len() as int, scope.deep_view())
                =~= Seq::<(Seq<char>, Seq<char>)>::empty());
            assert(entries_view(result@) + Seq::<(Seq<char>, Seq<char>)>::empty() =~= entries_view(
                result@,
            ));
        }
        result
    }
}

} // verus!
