//! Values of earlier tests put into a request's URL: each `{name}` whose
//! name has a value stands for that value.
use vstd::prelude::*;
use vstd::string::StringExecFns;
use crate::text::{str_chars, string_from_chars};
use crate::libtest::textops::{
    trim, prefix_before, split_on, replace_all, split_chars, prefix_before_chars, trim_chars,
    replace_chars,
};
use crate::libtest::stringmap::StringMap;

verus! {

/// The text `{name}`.
pub open spec fn braced(name: Seq<char>) -> Seq<char> {
    seq!['{'] + name + seq!['}']
}

/// The replacements that the pieces of a URL (split at `{`) call for, in
/// order: for each piece, the text before its first `}`, trimmed, is a
/// name; a name with a value gives the pair (`{name}`, value).
pub open spec fn replacements(pieces: Seq<Seq<char>>, values: Map<Seq<char>, Seq<char>>) -> Seq<(Seq<char>, Seq<char>)>
    decreases pieces.len(),
{
    if pieces.len() == 0 {
        Seq::empty()
    } else {
        let r = replacements(pieces.drop_last(), values);
        let name = trim(prefix_before(pieces.last(), '}'));
        if values.contains_key(name) {
            r.push((braced(name), values[name]))
        } else {
            r
        }
    }
}

/// `s` after each replacement in turn, every occurrence at a time.
pub open spec fn apply_all(s: Seq<char>, reps: Seq<(Seq<char>, Seq<char>)>) -> Seq<char>
    decreases reps.len(),
{
    if reps.len() == 0 {
        s
    } else {
        replace_all(apply_all(s, reps.drop_last()), reps.last().0, reps.last().1)
    }
}

/// Every pattern of the replacements has at least its two braces.
proof fn lemma_patterns_nonempty(pieces: Seq<Seq<char>>, values: Map<Seq<char>, Seq<char>>)
    ensures
        forall|k: int| 0 <= k < replacements(pieces, values).len()
            ==> #[trigger] replacements(pieces, values)[k].0.len() > 0,
    decreases pieces.len(),
{
    if pieces.len() > 0 {
        lemma_patterns_nonempty(pieces.drop_last(), values);
        let r = replacements(pieces.drop_last(), values);
        assert forall|k: int| 0 <= k < replacements(pieces, values).len()
            implies #[trigger] replacements(pieces, values)[k].0.len() > 0 by {
            if k < r.len() {
                assert(replacements(pieces, values)[k] == r[k]);
            }
        }
    }
}

/// The URL with its `{name}` parts replaced by the values of those names.
pub open spec fn url_with_values(url: Seq<char>, values: Map<Seq<char>, Seq<char>>) -> Seq<char> {
    apply_all(url, replacements(split_on(url, '{'), values))
}

/// Put the known values into a URL: each `{name}` whose trimmed name has a
/// value is replaced, everywhere in the URL, by that value.
pub fn url_replace_set_value_name_with_value(url: String, hashmap: &StringMap) -> (res: String)
    ensures
        res@ == url_with_values(url@, hashmap@),
{
    let chars = str_chars(url.as_str());
    let pieces = split_chars(&chars, '{');
    let ghost all = split_on(url@, '{');
    let mut patterns: Vec<Vec<char>> = Vec::new();
    let mut values: Vec<Vec<char>> = Vec::new();
    let mut i: usize = 0;
    assert(all.take(0) =~= Seq::<Seq<char>>::empty());
    while i < pieces.len()
        invariant
            i <= pieces@.len(),
            pieces@.len() == all.len(),
            forall|k: int| 0 <= k < pieces@.len() ==> #[trigger] pieces@[k]@ == all[k],
            patterns@.len() == values@.len(),
            patterns@.len() == replacements(all.take(i as int), hashmap@).len(),
            forall|k: int| 0 <= k < patterns@.len() ==> {
                &&& #[trigger] patterns@[k]@ == replacements(all.take(i as int), hashmap@)[k].0
                &&& values@[k]@ == replacements(all.take(i as int), hashmap@)[k].1
            },
        decreases pieces@.len() - i,
    {
        proof {
            assert(all.take(i + 1).drop_last() =~= all.take(i as int));
            assert(all.take(i + 1).last() == all[i as int]);
        }
        let before = prefix_before_chars(&pieces[i], '}');
        let name = trim_chars(&before);
        let key = string_from_chars(name.as_slice());
        let ghost old_r = replacements(all.take(i as int), hashmap@);
        let ghost old_p = patterns@;
        let ghost old_v = values@;
        match hashmap.get(&key) {
            Some(v) => {
                let mut p: Vec<char> = Vec::new();
                p.push('{');
                let mut k: usize = 0;
                while k < name.len()
                    invariant
                        k <= name@.len(),
                        p@ == seq!['{'] + name@.take(k as int),
                    decreases name@.len() - k,
                {
                    p.push(name[k]);
                    assert(p@ =~= seq!['{'] + name@.take(k + 1));
                    k = k + 1;
                }
                p.push('}');
                assert(name@.take(name@.len() as int) =~= name@);
                assert(p@ =~= braced(name@));
                patterns.push(p);
                values.push(str_chars(v.as_str()));
                proof {
                    let new_r = replacements(all.take(i + 1), hashmap@);
                    assert(new_r == old_r.push((braced(name@), hashmap@[name@])));
                    assert forall|k: int| 0 <= k < patterns@.len() implies {
                        &&& #[trigger] patterns@[k]@ == new_r[k].0
                        &&& values@[k]@ == new_r[k].1
                    } by {
                        if k < old_p.len() {
                            assert(patterns@[k] == old_p[k]);
                            assert(values@[k] == old_v[k]);
                        }
                    }
                }
            },
            None => {
                assert(replacements(all.take(i + 1), hashmap@) == old_r);
            },
        }
        i = i + 1;
    }
    assert(all.take(all.len() as int) =~= all);
    let ghost reps = replacements(all, hashmap@);
    proof { lemma_patterns_nonempty(all, hashmap@); }
    let mut out = chars;
    let mut j: usize = 0;
    while j < patterns.len()
        invariant
            j <= patterns@.len(),
            patterns@.len() == values@.len(),
            patterns@.len() == reps.len(),
            forall|k: int| 0 <= k < patterns@.len() ==> {
                &&& #[trigger] patterns@[k]@ == reps[k].0
                &&& values@[k]@ == reps[k].1
            },
            forall|k: int| 0 <= k < reps.len() ==> #[trigger] reps[k].0.len() > 0,
            out@ == apply_all(url@, reps.take(j as int)),
        decreases patterns@.len() - j,
    {
        proof {
            assert(reps.take(j + 1).drop_last() =~= reps.take(j as int));
            assert(reps.take(j + 1).last() == reps[j as int]);
        }
        out = replace_chars(&out, &patterns[j], &values[j]);
        j = j + 1;
    }
    assert(reps.take(reps.len() as int) =~= reps);
    string_from_chars(out.as_slice())
}

/// Replacing a pattern that starts with a character absent from `s` changes nothing.
proof fn lemma_replace_absent(s: Seq<char>, p: Seq<char>, r: Seq<char>)
    requires
        p.len() > 0,
        !s.contains(p[0]),
    ensures
        replace_all(s, p, r) == s,
    decreases s.len(),
{
    if s.len() >= p.len() {
        assert(s.take(p.len() as int)[0] == s[0]);
        if s[0] == p[0] {
            assert(s.contains(s[0]));
        }
        assert(s.take(p.len() as int) != p);
        assert forall|c: char| s.skip(1).contains(c) implies s.contains(c) by {
            let i = choose|i: int| 0 <= i < s.skip(1).len() && s.skip(1)[i] == c;
            assert(s[i + 1] == c);
        }
        lemma_replace_absent(s.skip(1), p, r);
        assert(seq![s[0]] + s.skip(1) =~= s);
    }
}

/// Each step of `apply_all` replaces a pattern that starts with `{`.
proof fn lemma_apply_absent(s: Seq<char>, reps: Seq<(Seq<char>, Seq<char>)>)
    requires
        !s.contains('{'),
        forall|k: int| 0 <= k < reps.len() ==> (#[trigger] reps[k]).0.len() > 0 && reps[k].0[0] == '{',
    ensures
        apply_all(s, reps) == s,
    decreases reps.len(),
{
    if reps.len() > 0 {
        lemma_apply_absent(s, reps.drop_last());
        assert(reps.last() == reps[reps.len() - 1]);
        lemma_replace_absent(s, reps.last().0, reps.last().1);
    }
}

/// Every replacement pattern is a name in braces.
proof fn lemma_patterns_braced(pieces: Seq<Seq<char>>, values: Map<Seq<char>, Seq<char>>)
    ensures
        forall|k: int| 0 <= k < replacements(pieces, values).len()
            ==> (#[trigger] replacements(pieces, values)[k]).0.len() > 0 && replacements(pieces, values)[k].0[0] == '{',
    decreases pieces.len(),
{
    if pieces.len() > 0 {
        lemma_patterns_braced(pieces.drop_last(), values);
        let r = replacements(pieces.drop_last(), values);
        assert forall|k: int| 0 <= k < replacements(pieces, values).len()
            implies (#[trigger] replacements(pieces, values)[k]).0.len() > 0 && replacements(pieces, values)[k].0[0] == '{' by {
            if k < r.len() {
                assert(replacements(pieces, values)[k] == r[k]);
            }
        }
    }
}

/// A URL without `{` names no value, and comes back as it is.
pub proof fn lemma_url_without_braces(url: Seq<char>, values: Map<Seq<char>, Seq<char>>)
    requires
        !url.contains('{'),
    ensures
        url_with_values(url, values) == url,
{
    lemma_patterns_braced(split_on(url, '{'), values);
    lemma_apply_absent(url, replacements(split_on(url, '{'), values));
}

} // verus!
