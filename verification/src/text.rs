use vstd::prelude::*;

use crate::num::{dec_str, find2, int_dec_str, lemma_find2};

verus! {

/// Relies on `String::push`: appends exactly the one character.
#[verifier::external_body]
fn push_char(s: &mut String, c: char)
    ensures
        final (s)@ == old(s)@.push(c),
{
    s.push(c);
}

/// Appends the decimal rendering of `n`.
#[verifier::loop_isolation(false)]
pub fn push_dec(s: &mut String, n: u64)
    ensures
        final (s)@ == old(s)@ + dec_str(n as nat),
    decreases n,
{
    if n >= 10 {
        push_dec(s, n / 10);
    }
    let d = (n % 10) as u8;
    let c: char = if d == 0 {
        '0'
    } else if d == 1 {
        '1'
    } else if d == 2 {
        '2'
    } else if d == 3 {
        '3'
    } else if d == 4 {
        '4'
    } else if d == 5 {
        '5'
    } else if d == 6 {
        '6'
    } else if d == 7 {
        '7'
    } else if d == 8 {
        '8'
    } else {
        '9'
    };
    push_char(s, c);
    proof {
        if n < 10 {
            assert(old(s)@ + dec_str(n as nat) =~= old(s)@.push(c));
        } else {
            assert(old(s)@ + dec_str(n as nat) =~= (old(s)@ + dec_str((n / 10) as nat)).push(c));
        }
    }
}

/// The decimal rendering of `n` as a fresh string.
pub fn u64_to_dec(n: u64) -> (r: String)
    ensures
        r@ == dec_str(n as nat),
{
    let mut s = String::new();
    push_dec(&mut s, n);
    proof {
        assert(Seq::<char>::empty() + dec_str(n as nat) =~= dec_str(n as nat));
    }
    s
}

/// Appends the decimal rendering of a signed value.
pub fn push_int_dec(s: &mut String, v: i32)
    ensures
        final (s)@ == old(s)@ + int_dec_str(v as int),
{
    if v < 0 {
        push_char(s, '-');
        let m: u64 = if v == i32::MIN {
            2147483648u64
        } else {
            (-v) as u64
        };
        push_dec(s, m);
        proof {
            assert(old(s)@ + (seq!['-'] + dec_str(m as nat)) =~= old(s)@.push('-') + dec_str(
                m as nat,
            ));
        }
    } else {
        push_dec(s, v as u64);
    }
}

/// `s` with every occurrence of `pat` replaced by `rep`, scanning left to
/// right without overlap. The whole text when `pat` is empty.
pub open spec fn replace_seq(s: Seq<char>, pat: Seq<char>, rep: Seq<char>) -> Seq<char>
    decreases s.len(),
{
    if pat.len() == 0 || s.len() < pat.len() {
        s
    } else if s.take(pat.len() as int) == pat {
        rep + replace_seq(s.skip(pat.len() as int), pat, rep)
    } else {
        seq![s[0]] + replace_seq(s.skip(1), pat, rep)
    }
}

/// Whether `pat` stands at position `i` of `s`.
#[verifier::loop_isolation(false)]
fn matches_at(s: &str, i: usize, pat: &str, m: usize) -> (r: bool)
    requires
        m == pat@.len(),
        i + m <= s@.len(),
        i + m <= usize::MAX,
    ensures
        r == (s@.subrange(i as int, i + m) == pat@),
{
    let mut j: usize = 0;
    while j < m
        invariant
            0 <= j <= m,
            forall|k: int| 0 <= k < j ==> s@[i + k] == pat@[k],
        decreases m - j,
    {
        if s.get_char(i + j) != pat.get_char(j) {
            proof {
                assert(s@.subrange(i as int, i + m)[j as int] == s@[i + j]);
            }
            return false;
        }
        j = j + 1;
    }
    proof {
        assert(s@.subrange(i as int, i + m) =~= pat@);
    }
    true
}

/// `s` with every occurrence of `pat` replaced by `rep`.
#[verifier::loop_isolation(false)]
pub fn replace_all(s: &str, pat: &str, rep: &str) -> (r: String)
    ensures
        r@ == replace_seq(s@, pat@, rep@),
{
    let n = s.unicode_len();
    let m = pat.unicode_len();
    if m == 0 {
        return s.to_owned();
    }
    let mut out = String::new();
    let mut i: usize = 0;
    proof {
        assert(s@.skip(0) =~= s@);
        assert(Seq::<char>::empty() + replace_seq(s@, pat@, rep@) =~= replace_seq(s@, pat@, rep@));
    }
    while i < n
        invariant
            0 <= i <= n,
            replace_seq(s@, pat@, rep@) == out@ + replace_seq(s@.skip(i as int), pat@, rep@),
        decreases n - i,
    {
        let ghost tail = s@.skip(i as int);
        if m <= n - i && matches_at(s, i, pat, m) {
            proof {
                assert(tail.take(m as int) =~= s@.subrange(i as int, i + m));
                assert(tail.skip(m as int) =~= s@.skip(i + m));
            }
            out.append(rep);
            i = i + m;
            proof {
                assert(out@ + replace_seq(s@.skip(i as int), pat@, rep@) =~= replace_seq(
                    s@,
                    pat@,
                    rep@,
                ));
            }
        } else {
            proof {
                if i + m <= n {
                    assert(tail.take(m as int) =~= s@.subrange(i as int, i + m));
                }
                assert(tail.skip(1) =~= s@.skip(i + 1));
                assert(tail[0] == s@[i as int]);
            }
            let c = s.get_char(i);
            push_char(&mut out, c);
            i = i + 1;
            proof {
                assert(out@ + replace_seq(s@.skip(i as int), pat@, rep@) =~= replace_seq(
                    s@,
                    pat@,
                    rep@,
                ));
            }
        }
    }
    proof {
        assert(s@.skip(n as int) =~= Seq::<char>::empty());
        assert(out@ + Seq::<char>::empty() =~= out@);
    }
    out
}

/// The segments of `s` between occurrences of `c`: always at least one
/// segment, and one more segment than separators.
pub open spec fn split_seq(s: Seq<char>, c: char) -> Seq<Seq<char>>
    decreases s.len(),
{
    if s.len() == 0 {
        seq![Seq::<char>::empty()]
    } else if s[0] == c {
        seq![Seq::<char>::empty()] + split_seq(s.skip(1), c)
    } else {
        let rest = split_seq(s.skip(1), c);
        seq![seq![s[0]] + rest[0]] + rest.skip(1)
    }
}

pub proof fn lemma_split_seq_len(s: Seq<char>, c: char)
    ensures
        split_seq(s, c).len() >= 1,
    decreases s.len(),
{
    if s.len() > 0 {
        lemma_split_seq_len(s.skip(1), c);
    }
}

/// Splits `s` at every newline, as the stop-sequence field is written.
#[verifier::loop_isolation(false)]
pub fn split_newlines(s: &str) -> (parts: Vec<String>)
    ensures
        parts@.map_values(|p: String| p@) == split_seq(s@, '\n'),
{
    let n = s.unicode_len();
    let mut parts: Vec<String> = Vec::new();
    let mut cur = String::new();
    let mut i: usize = 0;
    proof {
        lemma_split_seq_len(s@, '\n');
        assert(s@.skip(0) =~= s@);
        assert(parts@.map_values(|p: String| p@) =~= Seq::<Seq<char>>::empty());
        assert(Seq::<char>::empty() + split_seq(s@, '\n')[0] =~= split_seq(s@, '\n')[0]);
        assert(split_seq(s@, '\n') =~= Seq::<Seq<char>>::empty() + seq![split_seq(s@, '\n')[0]]
            + split_seq(s@, '\n').skip(1));
    }
    while i < n
        invariant
            0 <= i <= n,
            split_seq(s@.skip(i as int), '\n').len() >= 1,
            split_seq(s@, '\n') == parts@.map_values(|p: String| p@) + seq![cur@ + split_seq(
                s@.skip(i as int),
                '\n',
            )[0]] + split_seq(s@.skip(i as int), '\n').skip(1),
        decreases n - i,
    {
        let ghost tail = s@.skip(i as int);
        let ghost rest = split_seq(s@.skip(i + 1), '\n');
        let ghost pm0 = parts@.map_values(|p: String| p@);
        let ghost c0 = cur@;
        proof {
            lemma_split_seq_len(s@.skip(i + 1), '\n');
            assert(tail[0] == s@[i as int]);
            assert(tail.skip(1) =~= s@.skip(i + 1));
        }
        let ch = s.get_char(i);
        if ch == '\n' {
            let done = cur;
            cur = String::new();
            parts.push(done);
            i = i + 1;
            proof {
                assert(split_seq(tail, '\n') == seq![Seq::<char>::empty()] + rest);
                assert((seq![Seq::<char>::empty()] + rest)[0] == Seq::<char>::empty());
                assert((seq![Seq::<char>::empty()] + rest).skip(1) =~= rest);
                assert(c0 + Seq::<char>::empty() =~= c0);
                assert(parts@.map_values(|p: String| p@) =~= pm0.push(c0));
                assert(pm0.push(c0) =~= pm0 + seq![c0]);
                assert(Seq::<char>::empty() + rest[0] =~= rest[0]);
                assert(seq![rest[0]] + rest.skip(1) =~= rest);
                assert(split_seq(s@, '\n') =~= pm0.push(c0) + seq![Seq::<char>::empty() + rest[0]]
                    + rest.skip(1));
            }
        } else {
            push_char(&mut cur, ch);
            i = i + 1;
            proof {
                assert(split_seq(tail, '\n') == seq![seq![tail[0]] + rest[0]] + rest.skip(1));
                assert((seq![seq![tail[0]] + rest[0]] + rest.skip(1))[0] == seq![tail[0]]
                    + rest[0]);
                assert((seq![seq![tail[0]] + rest[0]] + rest.skip(1)).skip(1) =~= rest.skip(1));
                assert(cur@ + rest[0] =~= c0 + (seq![tail[0]] + rest[0]));
                assert(split_seq(s@, '\n') =~= pm0 + seq![cur@ + rest[0]] + rest.skip(1));
            }
        }
    }
    proof {
        assert(s@.skip(n as int) =~= Seq::<char>::empty());
    }
    let last = cur;
    let ghost pm0 = parts@.map_values(|p: String| p@);
    parts.push(last);
    proof {
        assert(split_seq(Seq::<char>::empty(), '\n') == seq![Seq::<char>::empty()]);
        assert(last@ + Seq::<char>::empty() =~= last@);
        assert(seq![Seq::<char>::empty()].skip(1) =~= Seq::<Seq<char>>::empty());
        assert(parts@.map_values(|p: String| p@) =~= pm0.push(last@));
        assert(pm0.push(last@) =~= pm0 + seq![last@]);
        assert(pm0 + seq![last@] + Seq::<Seq<char>>::empty() =~= pm0 + seq![last@]);
        assert(split_seq(s@, '\n') =~= parts@.map_values(|p: String| p@));
    }
    parts
}

/// The value bound to `name` among the context's variable bindings: the
/// first binding wins.
pub open spec fn var_lookup(vars: Seq<(Seq<char>, Seq<char>)>, name: Seq<char>) -> Option<
    Seq<char>,
>
    decreases vars.len(),
{
    if vars.len() == 0 {
        None
    } else if vars[0].0 == name {
        Some(vars[0].1)
    } else {
        var_lookup(vars.skip(1), name)
    }
}

proof fn lemma_var_lookup_step(vars: Seq<(Seq<char>, Seq<char>)>, name: Seq<char>, i: int)
    requires
        0 <= i < vars.len(),
        forall|j: int| 0 <= j < i ==> vars[j].0 != name,
    ensures
        vars[i].0 == name ==> var_lookup(vars, name) == Some(vars[i].1),
        (forall|j: int| 0 <= j <= i ==> vars[j].0 != name) && i == vars.len() - 1 ==> var_lookup(
            vars,
            name,
        ) is None,
    decreases i,
{
    if i == 0 {
        if vars[0].0 != name && vars.len() == 1 {
            assert(vars.skip(1).len() == 0);
        }
    } else {
        lemma_var_lookup_step(vars.skip(1), name, i - 1);
        assert(vars.skip(1)[i - 1] == vars[i]);
        assert(forall|j: int| 0 <= j < i - 1 ==> vars.skip(1)[j] == vars[j + 1]);
    }
}

/// The binding for `name`, scanned in order.
#[verifier::loop_isolation(false)]
pub fn var_get<'a>(vars: &'a Vec<(String, String)>, name: &str) -> (r: Option<&'a String>)
    ensures
        match r {
            Some(v) => var_lookup(
                vars@.map_values(|p: (String, String)| (p.0@, p.1@)),
                name@,
            ) == Some(v@),
            None => var_lookup(vars@.map_values(|p: (String, String)| (p.0@, p.1@)), name@) is None,
        },
{
    let ghost vv = vars@.map_values(|p: (String, String)| (p.0@, p.1@));
    let mut i: usize = 0;
    while i < vars.len()
        invariant
            i <= vars.len(),
            forall|j: int| 0 <= j < i ==> vv[j].0 != name@,
        decreases vars.len() - i,
    {
        if crate::json::str_eq(vars[i].0.as_str(), name) {
            proof {
                lemma_var_lookup_step(vv, name@, i as int);
            }
            return Some(&vars[i].1);
        }
        i = i + 1;
    }
    proof {
        if vv.len() > 0 {
            lemma_var_lookup_step(vv, name@, vv.len() - 1);
        }
    }
    None
}

/// The instruction template with every `${name}` reference replaced by its
/// binding: `None` on an unclosed reference or an unbound name.
pub open spec fn subst_seq(s: Seq<char>, vars: Seq<(Seq<char>, Seq<char>)>) -> Option<Seq<char>>
    decreases s.len(),
    via subst_seq_dec
{
    if s.len() == 0 {
        Some(Seq::<char>::empty())
    } else if s.len() >= 2 && s[0] == '$' && s[1] == '{' {
        let c = find2(s.skip(2), '}', '}');
        if c == -1 {
            None
        } else {
            let name = s.skip(2).take(c);
            match var_lookup(vars, name) {
                None => None,
                Some(val) => match subst_seq(s.skip(c + 3), vars) {
                    None => None,
                    Some(rest) => Some(val + rest),
                },
            }
        }
    } else {
        match subst_seq(s.skip(1), vars) {
            None => None,
            Some(r) => Some(seq![s[0]] + r),
        }
    }
}

#[via_fn]
proof fn subst_seq_dec(s: Seq<char>, vars: Seq<(Seq<char>, Seq<char>)>) {
    if s.len() >= 2 && s[0] == '$' && s[1] == '{' {
        lemma_find2(s.skip(2), '}', '}');
    }
}

/// Substitutes the context's bindings into a template.
#[verifier::loop_isolation(false)]
pub fn subst_vars(s: &str, vars: &Vec<(String, String)>) -> (r: Option<String>)
    ensures
        match r {
            Some(out) => subst_seq(s@, vars@.map_values(|p: (String, String)| (p.0@, p.1@)))
                == Some(out@),
            None => subst_seq(s@, vars@.map_values(|p: (String, String)| (p.0@, p.1@))) is None,
        },
{
    let ghost vv = vars@.map_values(|p: (String, String)| (p.0@, p.1@));
    let n = s.unicode_len();
    let mut out = String::new();
    let mut i: usize = 0;
    proof {
        assert(s@.skip(0) =~= s@);
    }
    while i < n
        invariant
            0 <= i <= n,
            subst_seq(s@, vv) is Some <==> subst_seq(s@.skip(i as int), vv) is Some,
            forall|rest: Seq<char>|
                subst_seq(s@.skip(i as int), vv) == Some(rest) ==> subst_seq(s@, vv) == Some(
                    out@ + rest,
                ),
        decreases n - i,
    {
        let ghost tail = s@.skip(i as int);
        proof {
            assert(tail[0] == s@[i as int]);
            assert(tail.skip(1) =~= s@.skip(i + 1));
        }
        let c = s.get_char(i);
        let open_ref = c == '$' && i + 1 < n && s.get_char(i + 1) == '{';
        if open_ref {
            proof {
                assert(tail.len() >= 2 && tail[0] == '$' && tail[1] == '{');
                assert(tail.skip(2) =~= s@.subrange(i + 2, n as int));
            }
            match crate::num::find2_in(s, i + 2, n, '}', '}') {
                None => {
                    return None;
                },
                Some(k) => {
                    let ghost cpos = k - (i + 2);
                    proof {
                        assert(tail.skip(2).take(cpos as int) =~= s@.subrange(i + 2, k as int));
                    }
                    let mut name = String::new();
                    let mut j: usize = i + 2;
                    while j < k
                        invariant
                            i + 2 <= j <= k <= n,
                            n == s@.len(),
                            name@ =~= s@.subrange(i + 2, j as int),
                        decreases k - j,
                    {
                        let cj = s.get_char(j);
                        push_char(&mut name, cj);
                        j = j + 1;
                        proof {
                            assert(name@ =~= s@.subrange(i + 2, j as int));
                        }
                    }
                    match var_get(vars, name.as_str()) {
                        None => {
                            return None;
                        },
                        Some(val) => {
                            let ghost out0 = out@;
                            let ghost vval = val@;
                            out.append(val.as_str());
                            i = k + 1;
                            proof {
                                assert(tail.skip(cpos + 3) =~= s@.skip(i as int));
                                assert forall|rest: Seq<char>|
                                    subst_seq(s@.skip(i as int), vv) == Some(rest) implies subst_seq(
                                    s@,
                                    vv,
                                ) == Some(out@ + rest) by {
                                    assert(subst_seq(tail, vv) == Some(vval + rest));
                                    assert(out0 + (vval + rest) =~= (out0 + vval) + rest);
                                }
                            }
                        },
                    }
                },
            }
        } else {
            proof {
                if i + 1 < n {
                    assert(tail[1] == s@[i + 1]);
                }
            }
            let ghost out0 = out@;
            push_char(&mut out, c);
            i = i + 1;
            proof {
                assert forall|rest: Seq<char>|
                    subst_seq(s@.skip(i as int), vv) == Some(rest) implies subst_seq(s@, vv)
                    == Some(out@ + rest) by {
                    assert(subst_seq(tail, vv) == Some(seq![tail[0]] + rest));
                    assert(out0 + (seq![tail[0]] + rest) =~= out0.push(c) + rest);
                }
            }
        }
    }
    proof {
        assert(s@.skip(n as int) =~= Seq::<char>::empty());
        assert(out@ + Seq::<char>::empty() =~= out@);
    }
    Some(out)
}

} // verus!
