//! The display-template substitution helper: a format string and a list of
//! token/replacement rules, applied in order.

use crate::text::{chars_to_string, str_to_chars};
use vstd::prelude::*;

verus! {

/// Left-to-right, non-overlapping replacement of `pat` by `sub` in `s`. An
/// empty pattern matches at every character boundary, so the replacement is
/// inserted before each character and once at the end.
pub open spec fn spec_replace(s: Seq<char>, pat: Seq<char>, sub: Seq<char>) -> Seq<char>
    decreases s.len(),
{
    if pat.len() == 0 {
        if s.len() == 0 {
            sub
        } else {
            sub + seq![s[0]] + spec_replace(s.skip(1), pat, sub)
        }
    } else if s.len() < pat.len() {
        s
    } else if s.subrange(0, pat.len() as int) == pat {
        sub + spec_replace(s.skip(pat.len() as int), pat, sub)
    } else {
        seq![s[0]] + spec_replace(s.skip(1), pat, sub)
    }
}

/// What remains of an empty-pattern replacement after its leading insertion:
/// each character followed by one more insertion.
spec fn interleave_rest(t: Seq<char>, sub: Seq<char>) -> Seq<char>
    decreases t.len(),
{
    if t.len() == 0 {
        Seq::empty()
    } else {
        seq![t[0]] + sub + interleave_rest(t.skip(1), sub)
    }
}

proof fn lemma_replace_empty_pat(t: Seq<char>, sub: Seq<char>)
    ensures
        spec_replace(t, Seq::empty(), sub) == sub + interleave_rest(t, sub),
    decreases t.len(),
{
    if t.len() == 0 {
        assert(sub + interleave_rest(t, sub) =~= sub);
    } else {
        lemma_replace_empty_pat(t.skip(1), sub);
        assert(sub + seq![t[0]] + (sub + interleave_rest(t.skip(1), sub)) =~= sub + (seq![t[0]]
            + sub + interleave_rest(t.skip(1), sub)));
    }
}

/// The rule list as pairs of character sequences.
pub open spec fn rule_views(rules: Seq<(String, String)>) -> Seq<(Seq<char>, Seq<char>)> {
    rules.map(|i: int, r: (String, String)| (r.0@, r.1@))
}

/// Each rule applied in order to the text.
pub open spec fn apply_rules(s: Seq<char>, rules: Seq<(Seq<char>, Seq<char>)>) -> Seq<char>
    decreases rules.len(),
{
    if rules.len() == 0 {
        s
    } else {
        apply_rules(spec_replace(s, rules[0].0, rules[0].1), rules.skip(1))
    }
}

/// True when `pat` occurs in `s` starting at position `i`.
fn match_at(s: &Vec<char>, pat: &Vec<char>, i: usize) -> (r: bool)
    requires
        i <= s@.len(),
    ensures
        r <==> (i + pat@.len() <= s@.len() && s@.subrange(
            i as int,
            i as int + pat@.len() as int,
        ) == pat@),
{
    if pat.len() > s.len() - i {
        return false;
    }
    let n = s.len();
    let mut j: usize = 0;
    while j < pat.len()
        invariant
            j <= pat@.len(),
            n == s@.len(),
            i + pat@.len() <= s@.len(),
            forall|k: int| 0 <= k < j ==> s@[i + k] == pat@[k],
        decreases pat@.len() - j,
    {
        proof {
            assert(i + j < s@.len());
        }
        if s[i + j] != pat[j] {
            proof {
                assert(s@.subrange(i as int, i as int + pat@.len() as int)[j as int] != pat@[j as int]);
            }
            return false;
        }
        j = j + 1;
    }
    proof {
        assert(s@.subrange(i as int, i as int + pat@.len() as int) =~= pat@);
    }
    true
}

fn append_chars(out: &mut Vec<char>, add: &Vec<char>)
    ensures
        final(out)@ == old(out)@ + add@,
{
    let mut j: usize = 0;
    while j < add.len()
        invariant
            j <= add@.len(),
            out@ == old(out)@ + add@.take(j as int),
        decreases add@.len() - j,
    {
        out.push(add[j]);
        proof {
            assert(old(out)@ + add@.take(j as int + 1) =~= (old(out)@ + add@.take(j as int)).push(
                add@[j as int],
            ));
        }
        j = j + 1;
    }
    proof {
        assert(add@.take(add@.len() as int) =~= add@);
    }
}

pub fn replace_chars(s: &Vec<char>, pat: &Vec<char>, sub: &Vec<char>) -> (r: Vec<char>)
    ensures
        r@ == spec_replace(s@, pat@, sub@),
{
    let mut out: Vec<char> = Vec::new();
    if pat.len() == 0 {
        proof {
            assert(pat@ =~= Seq::<char>::empty());
            lemma_replace_empty_pat(s@, sub@);
        }
        append_chars(&mut out, sub);
        let mut i: usize = 0;
        proof {
            assert(s@.skip(0) =~= s@);
            assert(out@ =~= sub@);
        }
        while i < s.len()
            invariant
                i <= s@.len(),
                sub@ + interleave_rest(s@, sub@) == out@ + interleave_rest(
                    s@.skip(i as int),
                    sub@,
                ),
            decreases s@.len() - i,
        {
            let ghost rest = s@.skip(i as int);
            let ghost prev = out@;
            out.push(s[i]);
            append_chars(&mut out, sub);
            proof {
                assert(rest[0] == s@[i as int]);
                assert(rest.skip(1) =~= s@.skip(i as int + 1));
                assert(interleave_rest(rest, sub@) == seq![rest[0]] + sub@ + interleave_rest(
                    rest.skip(1),
                    sub@,
                ));
                assert((prev.push(s@[i as int]) + sub@) + interleave_rest(rest.skip(1), sub@)
                    =~= prev + (seq![rest[0]] + sub@ + interleave_rest(rest.skip(1), sub@)));
            }
            i = i + 1;
        }
        proof {
            assert(s@.skip(s@.len() as int) =~= Seq::<char>::empty());
            assert(out@ + Seq::<char>::empty() =~= out@);
            assert(out@ == spec_replace(s@, pat@, sub@));
        }
        return out;
    }
    let mut i: usize = 0;
    proof {
        assert(s@.skip(0) =~= s@);
        assert(out@ + spec_replace(s@, pat@, sub@) =~= spec_replace(s@, pat@, sub@));
    }
    while i < s.len()
        invariant
            i <= s@.len(),
            pat@.len() >= 1,
            spec_replace(s@, pat@, sub@) == out@ + spec_replace(s@.skip(i as int), pat@, sub@),
        decreases s@.len() - i,
    {
        let ghost rest = s@.skip(i as int);
        if match_at(s, pat, i) {
            append_chars(&mut out, sub);
            proof {
                assert(rest.subrange(0, pat@.len() as int) =~= s@.subrange(
                    i as int,
                    i as int + pat@.len() as int,
                ));
                assert(rest.skip(pat@.len() as int) =~= s@.skip(i as int + pat@.len() as int));
                assert(spec_replace(rest, pat@, sub@) == sub@ + spec_replace(
                    s@.skip(i as int + pat@.len() as int),
                    pat@,
                    sub@,
                ));
            }
            i = i + pat.len();
        } else {
            out.push(s[i]);
            proof {
                if rest.len() >= pat@.len() {
                    assert(rest.subrange(0, pat@.len() as int) =~= s@.subrange(
                        i as int,
                        i as int + pat@.len() as int,
                    ));
                }
                assert(rest.skip(1) =~= s@.skip(i as int + 1));
                if rest.len() < pat@.len() {
                    assert(rest =~= seq![s@[i as int]] + rest.skip(1));
                    assert(spec_replace(rest.skip(1), pat@, sub@) == rest.skip(1));
                }
                assert(spec_replace(rest, pat@, sub@) == seq![s@[i as int]] + spec_replace(
                    s@.skip(i as int + 1),
                    pat@,
                    sub@,
                ));
            }
            i = i + 1;
        }
    }
    proof {
        assert(s@.skip(s@.len() as int) =~= Seq::<char>::empty());
        assert(spec_replace(Seq::<char>::empty(), pat@, sub@) == Seq::<char>::empty());
        assert(out@ =~= out@ + Seq::<char>::empty());
    }
    out
}

/// The substitution rules: each token paired with its replacement text.
pub type Rules = Vec<(String, String)>;

/// A format string together with its substitution rules.
pub struct Format {
    format: String,
    rules: Rules,
}

impl View for Format {
    type V = (Seq<char>, Seq<(Seq<char>, Seq<char>)>);

    closed spec fn view(&self) -> Self::V {
        (self.format@, rule_views(self.rules@))
    }
}

impl Format {
    pub fn new(format: String, rules: Rules) -> (r: Format)
        ensures
            r@.0 == format@,
            r@.1 == rule_views(rules@),
    {
        Format { format, rules }
    }

    /// The format string with every rule applied, first rule first.
    pub fn format(&self) -> (r: String)
        ensures
            r@ == apply_rules(self@.0, self@.1),
    {
        let mut cur: Vec<char> = str_to_chars(self.format.as_str());
        let ghost rules = rule_views(self.rules@);
        let mut k: usize = 0;
        proof {
            assert(rules.skip(0) =~= rules);
        }
        while k < self.rules.len()
            invariant
                k <= self.rules@.len(),
                rules == rule_views(self.rules@),
                apply_rules(self.format@, rules) == apply_rules(cur@, rules.skip(k as int)),
            decreases self.rules@.len() - k,
        {
            let pat = str_to_chars(self.rules[k].0.as_str());
            let sub = str_to_chars(self.rules[k].1.as_str());
            let next = replace_chars(&cur, &pat, &sub);
            proof {
                assert(rules.skip(k as int)[0] == rules[k as int]);
                assert(rules.skip(k as int).skip(1) =~= rules.skip(k as int + 1));
            }
            cur = next;
            k = k + 1;
        }
        proof {
            assert(rules.skip(rules.len() as int) =~= Seq::<(Seq<char>, Seq<char>)>::empty());
        }
        chars_to_string(&cur)
    }
}

} // verus!
