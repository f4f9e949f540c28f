//! Environment interpolation: `$NAME` references inside typed lines are
//! replaced from a table of variables handed in by the caller.

use vstd::prelude::*;

use crate::text::{chars_range, chars_to_string, push_char, str_to_chars};

verus! {

/// Whether a character can stand in a variable name.
pub open spec fn is_name_char(c: char) -> bool {
    ('a' <= c && c <= 'z') || ('A' <= c && c <= 'Z') || ('0' <= c && c <= '9') || c == '_'
}

/// The length of the name-character prefix of a text.
pub open spec fn name_prefix_len(s: Seq<char>) -> int
    decreases s.len(),
{
    if s.len() > 0 && is_name_char(s[0]) {
        1 + name_prefix_len(s.skip(1))
    } else {
        0
    }
}

/// The name prefix never reaches past the end.
pub proof fn lemma_name_prefix(s: Seq<char>)
    ensures
        0 <= name_prefix_len(s) <= s.len(),
        forall|j: int| 0 <= j < name_prefix_len(s) ==> is_name_char(#[trigger] s[j]),
        name_prefix_len(s) < s.len() ==> !is_name_char(s[name_prefix_len(s)]),
    decreases s.len(),
{
    if s.len() > 0 && is_name_char(s[0]) {
        lemma_name_prefix(s.skip(1));
        assert forall|j: int| 0 <= j < name_prefix_len(s) implies is_name_char(
            #[trigger] s[j],
        ) by {
            if j > 0 {
                assert(s[j] == s.skip(1)[j - 1]);
            }
        }
        if name_prefix_len(s) < s.len() {
            assert(s[name_prefix_len(s)] == s.skip(1)[name_prefix_len(s) - 1]);
        }
    }
}

/// The first value bound to a name, scanning the entries front to back.
pub open spec fn lookup(entries: Seq<(Seq<char>, Seq<char>)>, name: Seq<char>) -> Option<
    Seq<char>,
>
    decreases entries.len(),
{
    if entries.len() == 0 {
        None
    } else if entries[0].0 == name {
        Some(entries[0].1)
    } else {
        lookup(entries.skip(1), name)
    }
}

#[via_fn]
proof fn interp_dec(s: Seq<char>, env: Seq<(Seq<char>, Seq<char>)>) {
    lemma_name_prefix(s.skip(1));
}

/// The interpolation of a text: each `$NAME` whose name is bound becomes its
/// value, an unbound `$NAME` stays as written, and everything else is copied.
pub open spec fn interp(s: Seq<char>, env: Seq<(Seq<char>, Seq<char>)>) -> Seq<char>
    decreases s.len(),
    via interp_dec
{
    if s.len() == 0 {
        Seq::empty()
    } else if s[0] == '$' && name_prefix_len(s.skip(1)) > 0 {
        let nl = name_prefix_len(s.skip(1));
        let name = s.skip(1).take(nl);
        match lookup(env, name) {
            Some(v) => v + interp(s.skip(1 + nl), env),
            None => seq!['$'] + name + interp(s.skip(1 + nl), env),
        }
    } else {
        seq![s[0]] + interp(s.skip(1), env)
    }
}

/// A value that interpolation can substitute without creating new variable
/// references: it holds no dollar sign and does not begin with a name
/// character.
pub open spec fn benign_value(v: Seq<char>) -> bool {
    (forall|i: int| 0 <= i < v.len() ==> #[trigger] v[i] != '$') && (v.len() > 0
        ==> !is_name_char(v[0]))
}

/// An environment whose values are all benign.
pub open spec fn benign_env(env: Seq<(Seq<char>, Seq<char>)>) -> bool {
    forall|k: int| 0 <= k < env.len() ==> benign_value((#[trigger] env[k]).1)
}

/// A successful lookup in a benign environment yields a benign value.
proof fn lemma_lookup_benign(env: Seq<(Seq<char>, Seq<char>)>, name: Seq<char>)
    requires
        benign_env(env),
    ensures
        lookup(env, name) matches Some(v) ==> benign_value(v),
    decreases env.len(),
{
    if env.len() > 0 && env[0].0 != name {
        assert forall|k: int| 0 <= k < env.skip(1).len() implies benign_value(
            (#[trigger] env.skip(1)[k]).1,
        ) by {
            assert(env.skip(1)[k] == env[k + 1]);
        }
        lemma_lookup_benign(env.skip(1), name);
    }
}

/// Interpolation walks over dollar-free text unchanged.
proof fn lemma_interp_literal_prefix(
    v: Seq<char>,
    rest: Seq<char>,
    env: Seq<(Seq<char>, Seq<char>)>,
)
    requires
        forall|i: int| 0 <= i < v.len() ==> #[trigger] v[i] != '$',
    ensures
        interp(v + rest, env) == v + interp(rest, env),
    decreases v.len(),
{
    if v.len() == 0 {
        assert(v + rest =~= rest);
        assert(v + interp(rest, env) =~= interp(rest, env));
    } else {
        assert((v + rest)[0] == v[0]);
        assert((v + rest).skip(1) =~= v.skip(1) + rest);
        assert forall|i: int| 0 <= i < v.skip(1).len() implies #[trigger] v.skip(1)[i]
            != '$' by {
            assert(v.skip(1)[i] == v[i + 1]);
        }
        lemma_interp_literal_prefix(v.skip(1), rest, env);
        assert(interp(v + rest, env) == seq![v[0]] + (v.skip(1) + interp(rest, env)));
        assert(seq![v[0]] + (v.skip(1) + interp(rest, env)) =~= v + interp(rest, env));
    }
}

/// In a benign environment, an interpolation whose input does not begin
/// with a name character yields output that does not either.
proof fn lemma_interp_first_not_name(x: Seq<char>, env: Seq<(Seq<char>, Seq<char>)>)
    requires
        benign_env(env),
        x.len() > 0 ==> !is_name_char(x[0]),
    ensures
        interp(x, env).len() > 0 ==> !is_name_char(interp(x, env)[0]),
    decreases x.len(),
{
    if x.len() > 0 {
        if x[0] == '$' && name_prefix_len(x.skip(1)) > 0 {
            let nl = name_prefix_len(x.skip(1));
            let name = x.skip(1).take(nl);
            lemma_name_prefix(x.skip(1));
            let x1 = x.skip(1 + nl);
            assert(x1.len() > 0 ==> !is_name_char(x1[0])) by {
                if x1.len() > 0 {
                    assert(x1[0] == x.skip(1)[nl]);
                }
            }
            lemma_interp_first_not_name(x1, env);
            match lookup(env, name) {
                Some(v) => {
                    lemma_lookup_benign(env, name);
                    if v.len() > 0 {
                        assert((v + interp(x1, env))[0] == v[0]);
                    } else {
                        assert(v + interp(x1, env) =~= interp(x1, env));
                    }
                },
                None => {
                    assert((seq!['$'] + name + interp(x1, env))[0] == '$');
                },
            }
        } else {
            assert((seq![x[0]] + interp(x.skip(1), env))[0] == x[0]);
        }
    }
}

/// A run of name characters closed by a non-name character is exactly the
/// name prefix of the combined text.
proof fn lemma_name_prefix_exact(name: Seq<char>, tail: Seq<char>)
    requires
        forall|i: int| 0 <= i < name.len() ==> is_name_char(#[trigger] name[i]),
        tail.len() > 0 ==> !is_name_char(tail[0]),
    ensures
        name_prefix_len(name + tail) == name.len(),
    decreases name.len(),
{
    if name.len() == 0 {
        assert(name + tail =~= tail);
    } else {
        assert((name + tail)[0] == name[0]);
        assert((name + tail).skip(1) =~= name.skip(1) + tail);
        assert forall|i: int| 0 <= i < name.skip(1).len() implies is_name_char(
            #[trigger] name.skip(1)[i],
        ) by {
            assert(name.skip(1)[i] == name[i + 1]);
        }
        lemma_name_prefix_exact(name.skip(1), tail);
    }
}

/// The interpolation idempotence law: in an environment whose values hold no
/// dollar sign and do not begin with a name character, interpolating twice
/// is the same as interpolating once.
pub proof fn lemma_interpolate_idempotent(s: Seq<char>, env: Seq<(Seq<char>, Seq<char>)>)
    requires
        benign_env(env),
    ensures
        interp(interp(s, env), env) == interp(s, env),
    decreases s.len(),
{
    if s.len() == 0 {
    } else if s[0] == '$' && name_prefix_len(s.skip(1)) > 0 {
        let nl = name_prefix_len(s.skip(1));
        let name = s.skip(1).take(nl);
        lemma_name_prefix(s.skip(1));
        let s1 = s.skip(1 + nl);
        let r = interp(s1, env);
        lemma_interpolate_idempotent(s1, env);
        assert(s1.len() > 0 ==> !is_name_char(s1[0])) by {
            if s1.len() > 0 {
                assert(s1[0] == s.skip(1)[nl]);
            }
        }
        lemma_interp_first_not_name(s1, env);
        assert(forall|i: int| 0 <= i < name.len() ==> is_name_char(#[trigger] name[i])) by {
            assert(forall|i: int|
                0 <= i < name.len() ==> #[trigger] name[i] == s.skip(1)[i]);
        }
        match lookup(env, name) {
            Some(v) => {
                lemma_lookup_benign(env, name);
                lemma_interp_literal_prefix(v, r, env);
            },
            None => {
                let t = seq!['$'] + name + r;
                assert(t[0] == '$');
                assert(t.skip(1) =~= name + r);
                lemma_name_prefix_exact(name, r);
                assert(name_prefix_len(t.skip(1)) == nl);
                assert(t.skip(1).take(nl) =~= name);
                assert(t.skip(1 + nl) =~= r);
                assert(interp(t, env) == seq!['$'] + name + interp(r, env));
            },
        }
    } else if s[0] == '$' {
        let s1 = s.skip(1);
        let r = interp(s1, env);
        lemma_interpolate_idempotent(s1, env);
        assert(s1.len() > 0 ==> !is_name_char(s1[0])) by {
            if s1.len() > 0 && is_name_char(s1[0]) {
                lemma_name_prefix(s1.skip(1));
                assert(name_prefix_len(s1) >= 1);
            }
        }
        lemma_interp_first_not_name(s1, env);
        let t = seq!['$'] + r;
        assert(t[0] == '$');
        assert(t.skip(1) =~= r);
        assert(name_prefix_len(t.skip(1)) == 0) by {
            if r.len() > 0 {
                assert(!is_name_char(r[0]));
            }
        }
        assert(interp(t, env) == seq!['$'] + interp(r, env));
        assert(interp(s, env) =~= t);
    } else {
        let s1 = s.skip(1);
        let r = interp(s1, env);
        lemma_interpolate_idempotent(s1, env);
        let t = seq![s[0]] + r;
        assert(t[0] == s[0]);
        assert(t.skip(1) =~= r);
        assert(interp(t, env) == seq![s[0]] + interp(r, env));
    }
}

/// A table of environment variables, ordered; the first binding of a name
/// wins.
#[derive(Debug)]
pub struct EnvTable {
    entries: Vec<(String, String)>,
}

impl EnvTable {
    /// The entries as pairs of character sequences.
    pub closed spec fn entries_view(self) -> Seq<(Seq<char>, Seq<char>)> {
        self.entries.deep_view()
    }

    /// An empty table.
    pub fn new() -> (r: Self)
        ensures
            r.entries_view() == Seq::<(Seq<char>, Seq<char>)>::empty(),
    {
        let r = EnvTable { entries: Vec::new() };
        proof {
            assert(r.entries_view() =~= Seq::<(Seq<char>, Seq<char>)>::empty());
        }
        r
    }

    /// Appends a binding.
    pub fn push(&mut self, name: String, value: String)
        ensures
            final(self).entries_view() == old(self).entries_view().push((name@, value@)),
    {
        let ghost pre = self.entries.deep_view();
        let ghost nv = name@;
        let ghost vv = value@;
        self.entries.push((name, value));
        proof {
            assert(self.entries.deep_view() =~= pre.push((nv, vv)));
        }
    }

    /// The first value bound to a name.
    pub fn get(&self, name: &String) -> (r: Option<&String>)
        ensures
            lookup(self.entries_view(), name@) matches Some(v) ==> (r matches Some(s) && s@
                == v),
            lookup(self.entries_view(), name@) is None ==> r is None,
    {
        let mut k: usize = 0;
        proof {
            assert(self.entries_view().skip(0) =~= self.entries_view());
        }
        loop
            invariant
                k <= self.entries@.len(),
                self.entries_view().len() == self.entries@.len(),
                lookup(self.entries_view(), name@) == lookup(
                    self.entries_view().skip(k as int),
                    name@,
                ),
            ensures
                (k == self.entries@.len() && lookup(self.entries_view(), name@) is None) || (k
                    < self.entries@.len() && (lookup(self.entries_view(), name@) matches Some(v)
                    && v == self.entries@[k as int].1@)),
            decreases self.entries@.len() - k,
        {
            if k == self.entries.len() {
                proof {
                    assert(self.entries_view().skip(k as int) =~= Seq::<
                        (Seq<char>, Seq<char>),
                    >::empty());
                }
                break ;
            }
            proof {
                assert(self.entries_view().skip(k as int)[0] == self.entries_view()[k as int]);
                assert(self.entries_view()[k as int] == (
                    self.entries@[k as int].0@,
                    self.entries@[k as int].1@,
                ));
                assert(self.entries_view().skip(k as int).skip(1) =~= self.entries_view().skip(
                    k + 1,
                ));
            }
            if self.entries[k].0 == *name {
                break ;
            }
            k = k + 1;
        }
        if k < self.entries.len() {
            Some(&self.entries[k].1)
        } else {
            None
        }
    }
}

/// The length of the name-character prefix of a vector.
fn name_count(v: &Vec<char>) -> (r: usize)
    ensures
        r == name_prefix_len(v@),
{
    let mut i: usize = 0;
    proof {
        assert(v@.skip(0) =~= v@);
    }
    while i < v.len() && (('a' <= v[i] && v[i] <= 'z') || ('A' <= v[i] && v[i] <= 'Z') || ('0'
        <= v[i] && v[i] <= '9') || v[i] == '_')
        invariant
            i <= v@.len(),
            name_prefix_len(v@) == i + name_prefix_len(v@.skip(i as int)),
        decreases v@.len() - i,
    {
        proof {
            assert(v@.skip(i as int)[0] == v@[i as int]);
            assert(v@.skip(i as int).skip(1) =~= v@.skip(i + 1));
        }
        i = i + 1;
    }
    proof {
        if i < v@.len() {
            assert(v@.skip(i as int)[0] == v@[i as int]);
        }
        assert(name_prefix_len(v@.skip(i as int)) == 0);
    }
    i
}

/// Replaces each `$NAME` of the text with the bound value; an unbound name
/// stays as written.
pub fn interpolate(value: &str, env: &EnvTable) -> (r: String)
    ensures
        r@ == interp(value@, env.entries_view()),
{
    let chars = str_to_chars(value);
    let n = chars.len();
    let mut out = String::new();
    let mut pos: usize = 0;
    proof {
        assert(chars@.skip(0) =~= chars@);
        assert(Seq::<char>::empty() + interp(chars@, env.entries_view()) =~= interp(
            chars@,
            env.entries_view(),
        ));
    }
    while pos < n
        invariant
            pos <= n,
            n == chars@.len(),
            out@ + interp(chars@.skip(pos as int), env.entries_view()) == interp(
                chars@,
                env.entries_view(),
            ),
        decreases n - pos,
    {
        let c = chars[pos];
        let ghost tail = chars@.skip(pos as int);
        proof {
            assert(tail[0] == chars@[pos as int]);
            assert(tail.skip(1) =~= chars@.skip(pos + 1));
        }
        if c == '$' {
            let after = chars_range(&chars, pos + 1, n);
            proof {
                assert(after@ =~= tail.skip(1));
            }
            let nl = name_count(&after);
            proof {
                lemma_name_prefix(after@);
            }
            if nl > 0 {
                let name_chars = chars_range(&chars, pos + 1, pos + 1 + nl);
                proof {
                    assert(name_chars@ =~= tail.skip(1).take(nl as int));
                }
                let name = chars_to_string(&name_chars);
                proof {
                    assert(tail.skip(1 + nl as int) =~= chars@.skip(pos + 1 + nl));
                }
                match env.get(&name) {
                    Some(v) => {
                        let piece = v.clone();
                        proof {
                            assert(lookup(env.entries_view(), name@) == Some(piece@));
                            assert(interp(tail, env.entries_view()) == piece@ + interp(
                                chars@.skip(pos + 1 + nl),
                                env.entries_view(),
                            ));
                        }
                        crate::text::append_str(&mut out, piece.as_str());
                        proof {
                            assert((out@ + interp(chars@.skip(pos + 1 + nl), env.entries_view()))
                                =~= interp(chars@, env.entries_view()));
                        }
                    },
                    None => {
                        proof {
                            assert(lookup(env.entries_view(), name@) is None);
                            assert(interp(tail, env.entries_view()) == seq!['$'] + name@
                                + interp(chars@.skip(pos + 1 + nl), env.entries_view()));
                        }
                        push_char(&mut out, '$');
                        crate::text::append_str(&mut out, name.as_str());
                        proof {
                            assert((out@ + interp(chars@.skip(pos + 1 + nl), env.entries_view()))
                                =~= interp(chars@, env.entries_view()));
                        }
                    },
                }
                pos = pos + 1 + nl;
                continue ;
            }
        }
        push_char(&mut out, c);
        proof {
            assert((out@ + interp(chars@.skip(pos + 1), env.entries_view())) =~= interp(
                chars@,
                env.entries_view(),
            ));
        }
        pos = pos + 1;
    }
    proof {
        assert(chars@.skip(n as int) =~= Seq::<char>::empty());
        assert(out@ =~= interp(chars@, env.entries_view()));
    }
    out
}

} // verus!
