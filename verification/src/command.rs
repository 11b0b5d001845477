//! Command-line building: substitutes `{ip}` in a command template with the
//! dotted-quad address, splits the program name off at the first space, and
//! splits the remainder into whitespace-separated arguments. There is no
//! shell quoting.

use vstd::prelude::*;
use crate::ip::Ipv4;
use crate::pattern::at_ip;
use crate::text::{chars_to_string, str_to_chars};

verus! {

/// The template with every `{ip}` replaced by `d`.
pub open spec fn subst_from(s: Seq<char>, i: int, d: Seq<char>) -> Seq<char>
    decreases s.len() - i,
{
    if i < 0 || i >= s.len() {
        Seq::<char>::empty()
    } else if at_ip(s, i) {
        d + subst_from(s, i + 4, d)
    } else {
        seq![s[i]] + subst_from(s, i + 1, d)
    }
}

pub open spec fn is_space(c: char) -> bool {
    c == ' ' || c == '\t' || c == '\r' || c == '\n'
}

/// First space character at or after `from`; splitting is whitespace-only.
pub open spec fn first_space_from(s: Seq<char>, from: int) -> Option<int>
    decreases s.len() - from,
{
    if from < 0 || from >= s.len() {
        None
    } else if is_space(s[from]) {
        Some(from)
    } else {
        first_space_from(s, from + 1)
    }
}

/// The maximal nonempty runs between whitespace.
pub open spec fn tokens_of(s: Seq<char>) -> Seq<Seq<char>>
    decreases s.len(),
    via tokens_of_decreases
{
    if s.len() == 0 {
        Seq::<Seq<char>>::empty()
    } else if is_space(s[0]) {
        tokens_of(s.drop_first())
    } else {
        match first_space_from(s, 0) {
            None => seq![s],
            Some(k) => seq![s.subrange(0, k)] + tokens_of(s.skip(k)),
        }
    }
}

#[via_fn]
proof fn tokens_of_decreases(s: Seq<char>) {
    if s.len() > 0 && !is_space(s[0]) {
        lemma_first_space_bounds(s, 0);
    }
}

/// The program part: everything before the first space of the substituted
/// template (the whole text when it has no space).
pub open spec fn program_of(subst: Seq<char>) -> Seq<char> {
    match first_space_from(subst, 0) {
        None => subst,
        Some(k) => subst.subrange(0, k),
    }
}

/// The argument list: the whitespace-separated tokens after the program.
pub open spec fn args_of(subst: Seq<char>) -> Seq<Seq<char>> {
    match first_space_from(subst, 0) {
        None => Seq::<Seq<char>>::empty(),
        Some(k) => tokens_of(subst.skip(k)),
    }
}

proof fn lemma_first_space_bounds(s: Seq<char>, from: int)
    requires
        0 <= from <= s.len(),
    ensures
        match first_space_from(s, from) {
            Some(k) => from <= k < s.len() && is_space(s[k]) && forall|l: int|
                from <= l < k ==> !is_space(s[l]),
            None => forall|l: int| from <= l < s.len() ==> !is_space(s[l]),
        },
    decreases s.len() - from,
{
    if from < s.len() && !is_space(s[from]) {
        lemma_first_space_bounds(s, from + 1);
    }
}

/// Searching from the middle of the text finds the same first space as
/// searching the suffix from its start.
proof fn lemma_first_space_shift(s: Seq<char>, p: int)
    requires
        0 <= p <= s.len(),
    ensures
        first_space_from(s.skip(p), 0) == match first_space_from(s, p) {
            Some(k) => Some(k - p),
            None => None::<int>,
        },
{
    lemma_first_space_bounds(s, p);
    let t = s.skip(p);
    lemma_first_space_bounds(t, 0);
    match first_space_from(s, p) {
        Some(k) => {
            match first_space_from(t, 0) {
                Some(j) => {
                    assert(t[j] == s[p + j]);
                    if p + j < k {
                        assert(!is_space(s[p + j]));
                    }
                    if p + j > k {
                        assert(t[k - p] == s[k]);
                        assert(!is_space(t[k - p]));
                    }
                    assert(p + j == k);
                },
                None => {
                    assert(t[k - p] == s[k]);
                    assert(!is_space(t[k - p]));
                    assert(false);
                },
            }
        },
        None => {
            if first_space_from(t, 0) is Some {
                let j = first_space_from(t, 0)->Some_0;
                assert(t[j] == s[p + j]);
                assert(!is_space(s[p + j]));
                assert(false);
            }
        },
    }
}

fn find_space(v: &Vec<char>, from: usize) -> (r: Option<usize>)
    requires
        from <= v@.len(),
    ensures
        match r {
            Some(k) => from <= k < v@.len() && first_space_from(v@, from as int) == Some(k as int),
            None => first_space_from(v@, from as int) is None,
        },
{
    let mut i: usize = from;
    while i < v.len()
        invariant
            from <= i <= v@.len(),
            first_space_from(v@, from as int) == first_space_from(v@, i as int),
        decreases v@.len() - i,
    {
        let c = v[i];
        if c == ' ' || c == '\t' || c == '\r' || c == '\n' {
            return Some(i);
        }
        i = i + 1;
    }
    None
}

fn push_range(out: &mut Vec<char>, v: &Vec<char>, from: usize, to: usize)
    requires
        from <= to <= v@.len(),
    ensures
        final(out)@ == old(out)@ + v@.subrange(from as int, to as int),
{
    let mut k: usize = from;
    while k < to
        invariant
            from <= k <= to <= v@.len(),
            out@ == old(out)@ + v@.subrange(from as int, k as int),
        decreases to - k,
    {
        out.push(v[k]);
        proof {
            assert(v@.subrange(from as int, k + 1) =~= v@.subrange(from as int, k as int).push(
                v@[k as int],
            ));
        }
        k = k + 1;
    }
}

fn subst_ip(template: &Vec<char>, dotted: &Vec<char>) -> (r: Vec<char>)
    ensures
        r@ == subst_from(template@, 0, dotted@),
{
    let mut out: Vec<char> = Vec::new();
    let mut i: usize = 0;
    let n = template.len();
    while i < n
        invariant
            i <= n,
            n == template@.len(),
            subst_from(template@, 0, dotted@) == out@ + subst_from(template@, i as int, dotted@),
        decreases n - i,
    {
        if template.len() - i >= 4 && template[i] == '{' && template[i + 1] == 'i' && template[i
            + 2] == 'p' && template[i + 3] == '}' {
            proof {
                assert(at_ip(template@, i as int));
            }
            push_range(&mut out, dotted, 0, dotted.len());
            proof {
                assert(dotted@.subrange(0, dotted@.len() as int) =~= dotted@);
            }
            i = i + 4;
        } else {
            out.push(template[i]);
            i = i + 1;
        }
    }
    proof {
        assert(subst_from(template@, n as int, dotted@) =~= Seq::<char>::empty());
        assert(out@ =~= out@ + Seq::<char>::empty());
    }
    out
}

/// The command to run against `ip`: the template with `{ip}` substituted,
/// split into a program and its whitespace-separated arguments.
pub fn build_command(template: &str, ip: &Ipv4) -> (r: (String, Vec<String>))
    ensures
        r.0@ == program_of(subst_from(template@, 0, ip.dotted_spec())),
        r.1.deep_view() == args_of(subst_from(template@, 0, ip.dotted_spec())),
{
    let tchars = str_to_chars(template);
    let dotted_string = ip.to_dotted();
    let dotted = str_to_chars(dotted_string.as_str());
    let subst = subst_ip(&tchars, &dotted);
    let ghost sv = subst@;
    let mut args: Vec<String> = Vec::new();
    let split = find_space(&subst, 0);
    let program_end: usize = match split {
        Some(k) => k,
        None => subst.len(),
    };
    let mut program_chars: Vec<char> = Vec::new();
    push_range(&mut program_chars, &subst, 0, program_end);
    proof {
        if split is None {
            assert(program_chars@ =~= sv);
        }
        assert(program_chars@ == program_of(sv));
    }
    let program = chars_to_string(&program_chars);
    if split.is_none() {
        proof {
            assert(args.deep_view() =~= Seq::<Seq<char>>::empty());
        }
        return (program, args);
    }
    let mut p: usize = program_end;
    while p < subst.len()
        invariant
            program_end <= p <= sv.len(),
            sv == subst@,
            program@ == program_of(sv),
            split is Some && program_end == split->Some_0 < sv.len(),
            args_of(sv) == args.deep_view() + tokens_of(sv.skip(p as int)),
        decreases sv.len() - p,
    {
        let c = subst[p];
        if c == ' ' || c == '\t' || c == '\r' || c == '\n' {
            proof {
                assert(sv.skip(p as int).drop_first() =~= sv.skip(p + 1));
            }
            p = p + 1;
        } else {
            let tok_end: usize = match find_space(&subst, p) {
                Some(k) => k,
                None => subst.len(),
            };
            let mut tok: Vec<char> = Vec::new();
            push_range(&mut tok, &subst, p, tok_end);
            let token = chars_to_string(&tok);
            let ghost dv = args.deep_view();
            args.push(token);
            proof {
                assert(args.deep_view() =~= dv.push(token@));
                let rest = sv.skip(p as int);
                assert(!is_space(rest[0]));
                lemma_first_space_shift(sv, p as int);
                match first_space_from(sv, p as int) {
                    Some(k) => {
                        assert(tok_end == k);
                        assert(rest.subrange(0, k - p) =~= sv.subrange(p as int, k));
                        assert(rest.skip(k - p) =~= sv.skip(k));
                        assert(tokens_of(rest) == seq![sv.subrange(p as int, k)] + tokens_of(
                            sv.skip(k),
                        ));
                        assert(dv + tokens_of(rest) =~= dv.push(token@) + tokens_of(sv.skip(k)));
                    },
                    None => {
                        assert(tok_end == sv.len());
                        assert(rest =~= sv.subrange(p as int, sv.len() as int));
                        assert(tokens_of(rest) == seq![rest]);
                        assert(token@ == rest);
                        assert(dv + tokens_of(rest) =~= dv.push(token@) + tokens_of(
                            sv.skip(sv.len() as int),
                        ));
                    },
                }
            }
            p = tok_end;
        }
    }
    proof {
        assert(sv.skip(sv.len() as int) =~= Seq::<char>::empty());
        assert(args_of(sv) =~= args.deep_view());
    }
    (program, args)
}

} // verus!
