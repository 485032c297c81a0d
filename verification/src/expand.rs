//! Expansion of `$(NAME)` references in a string against variables.

use std::cell::RefCell;
use std::collections::HashMap;
use vstd::prelude::*;
use crate::vmspec::{nv_map, nv_pairs, NameValue, NameValuesExt};

verus! {

/// The text that `k8s_expand::expand` makes of `input` when a name is
/// looked up first in `first`, then in `second`, and a name that
/// neither holds stays as the reference it was.
pub uninterp spec fn k8s_expanded(
    input: Seq<char>,
    first: Seq<(Seq<char>, Seq<char>)>,
    second: Seq<(Seq<char>, Seq<char>)>,
) -> Seq<char>;

/// Whether no name occurs twice among the pairs.
pub open spec fn names_distinct(pairs: Seq<(Seq<char>, Seq<char>)>) -> bool {
    forall|i: int, j: int| 0 <= i < j < pairs.len() ==> (#[trigger] pairs[i]).0 != (#[trigger] pairs[j]).0
}

/// Whether `c` is an ASCII character.
pub open spec fn is_ascii(c: char) -> bool {
    c <= '\u{7f}'
}

/// Whether the operator `$` stands at `pos` or behind it.
pub open spec fn operator_ahead(input: Seq<char>, pos: int) -> bool {
    exists|i: int| pos <= i < input.len() && input[i] == '$'
}

/// Where the first `)` at `from` or behind it stands; the length of the
/// input where there is none.
pub open spec fn closer(input: Seq<char>, from: int) -> int
    decreases input.len() - from,
{
    if from < 0 || from >= input.len() {
        input.len() as int
    } else if input[from] == ')' {
        from
    } else {
        closer(input, from + 1)
    }
}

/// Whether the expansion can take `input` from `pos` on. It counts
/// characters where it cuts bytes, and the two agree only on ASCII. So
/// up to the last operator the text it walks over must be ASCII: the
/// characters between the operators, the character behind an operator,
/// and the name of a reference up to the `)` that closes it. What
/// follows the last operator and what it reads is free.
pub open spec fn expandable_from(input: Seq<char>, pos: int) -> bool
    decreases input.len() - pos,
{
    let close = closer(input, pos + 2);
    if pos < 0 || pos >= input.len() || !operator_ahead(input, pos) {
        true
    } else if !is_ascii(input[pos]) {
        false
    } else if input[pos] != '$' {
        expandable_from(input, pos + 1)
    } else if pos + 1 >= input.len() {
        true
    } else if !is_ascii(input[pos + 1]) {
        false
    } else if input[pos + 1] == '(' && pos + 2 <= close < input.len() {
        (forall|i: int| pos + 2 <= i < close ==> is_ascii(#[trigger] input[i])) && expandable_from(
            input,
            close + 1,
        )
    } else {
        expandable_from(input, pos + 2)
    }
}

/// Whether the expansion can take `input`. An input without the
/// operator `$` and an ASCII input always can.
pub open spec fn expandable(input: Seq<char>) -> bool {
    expandable_from(input, 0)
}

/// The expansion can take any input without the operator `$`.
pub proof fn lemma_plain_expandable(input: Seq<char>)
    requires
        !input.contains('$'),
    ensures
        expandable(input),
{
    if operator_ahead(input, 0) {
        let i = choose|i: int| 0 <= i < input.len() && input[i] == '$';
        assert(input.contains(input[i]));
    }
}

/// The expansion can take any ASCII input, from any place on.
pub proof fn lemma_ascii_expandable(input: Seq<char>, pos: int)
    requires
        forall|i: int| 0 <= i < input.len() ==> is_ascii(#[trigger] input[i]),
    ensures
        expandable_from(input, pos),
    decreases input.len() - pos,
{
    if 0 <= pos < input.len() {
        let close = closer(input, pos + 2);
        lemma_ascii_expandable(input, pos + 1);
        if pos + 1 < input.len() {
            lemma_ascii_expandable(input, pos + 2);
        }
        if pos + 2 <= close < input.len() {
            lemma_ascii_expandable(input, close + 1);
        }
    }
}

/// Calls `k8s_expand::expand` on `input` with the mapping that
/// `k8s_expand::mapping_func_for` makes of the two maps, `first` before
/// `second`. The result is the named expansion of the input; an input
/// without the operator `$` comes back unchanged. The call is only
/// made on an input that the expansion can take: on others it may cut
/// a character in two and stop the program.
#[verifier::external_body]
fn expand_with(input: &str, first: &Vec<NameValue>, second: &Vec<NameValue>) -> (r: String)
    requires
        expandable(input@),
        names_distinct(nv_pairs(first@)),
        names_distinct(nv_pairs(second@)),
    ensures
        r@ == k8s_expanded(input@, nv_pairs(first@), nv_pairs(second@)),
        !input@.contains('$') ==> r@ == input@,
{
    let a: HashMap<String, RefCell<String>> =
        first.iter().map(|nv| (nv.name.clone(), RefCell::new(nv.value.clone()))).collect();
    let b: HashMap<String, RefCell<String>> =
        second.iter().map(|nv| (nv.name.clone(), RefCell::new(nv.value.clone()))).collect();
    let maps = [&a, &b];
    k8s_expand::expand(input, k8s_expand::mapping_func_for(&maps))
}

/// Putting an entry into a list without repeated names leaves it
/// without repeated names.
proof fn lemma_put_distinct(s: Seq<NameValue>, nv: NameValue)
    requires
        names_distinct(nv_pairs(s)),
    ensures
        names_distinct(nv_pairs(crate::vmspec::nv_put(s, nv))),
        forall|k: int|
            0 <= k < crate::vmspec::nv_put(s, nv).len() ==> (#[trigger] crate::vmspec::nv_put(
                s,
                nv,
            )[k]).name@ == nv.name@ || exists|m: int|
                0 <= m < s.len() && s[m].name@ == crate::vmspec::nv_put(s, nv)[k].name@,
    decreases s.len(),
{
    let r = crate::vmspec::nv_put(s, nv);
    if s.len() == 0 {
    } else if s[0].name@ == nv.name@ {
        assert forall|i: int, j: int| 0 <= i < j < r.len() implies (#[trigger] nv_pairs(r)[i]).0 != (
        #[trigger] nv_pairs(r)[j]).0 by {
            assert(nv_pairs(s)[j].0 == s[j].name@);
            assert(nv_pairs(s)[i].0 == s[i].name@);
            assert(r[j] == s[j]);
        }
        assert forall|k: int| 0 <= k < r.len() implies (#[trigger] r[k]).name@ == nv.name@
            || exists|m: int| 0 <= m < s.len() && s[m].name@ == r[k].name@ by {
            if k > 0 {
                assert(r[k] == s[k]);
            }
        }
    } else {
        let tail = s.skip(1);
        assert forall|i: int, j: int| 0 <= i < j < tail.len() implies (#[trigger] nv_pairs(
            tail,
        )[i]).0 != (#[trigger] nv_pairs(tail)[j]).0 by {
            assert(nv_pairs(s)[i + 1].0 == tail[i].name@);
            assert(nv_pairs(s)[j + 1].0 == tail[j].name@);
        }
        lemma_put_distinct(tail, nv);
        let rt = crate::vmspec::nv_put(tail, nv);
        assert(r == seq![s[0]] + rt);
        assert forall|k: int| 0 <= k < r.len() implies (#[trigger] r[k]).name@ == nv.name@
            || exists|m: int| 0 <= m < s.len() && s[m].name@ == r[k].name@ by {
            if k > 0 {
                assert(r[k] == rt[k - 1]);
                if rt[k - 1].name@ != nv.name@ {
                    let m = choose|m: int| 0 <= m < tail.len() && tail[m].name@ == rt[k - 1].name@;
                    assert(s[m + 1].name@ == r[k].name@);
                }
            } else {
                assert(s[0].name@ == r[0].name@);
            }
        }
        assert forall|i: int, j: int| 0 <= i < j < r.len() implies (#[trigger] nv_pairs(r)[i]).0 != (
        #[trigger] nv_pairs(r)[j]).0 by {
            if i > 0 {
                assert(nv_pairs(rt)[i - 1].0 == rt[i - 1].name@);
                assert(nv_pairs(rt)[j - 1].0 == rt[j - 1].name@);
            } else {
                assert(r[j] == rt[j - 1]);
                if rt[j - 1].name@ != nv.name@ {
                    let m = choose|m: int|
                        0 <= m < tail.len() && tail[m].name@ == rt[j - 1].name@;
                    assert(nv_pairs(s)[m + 1].0 == tail[m].name@);
                    assert(nv_pairs(s)[0].0 == s[0].name@);
                }
            }
        }
    }
}

/// A list read as a map holds no name twice.
pub proof fn lemma_map_distinct(s: Seq<NameValue>)
    ensures
        names_distinct(nv_pairs(nv_map(s))),
    decreases s.len(),
{
    if s.len() > 0 {
        lemma_map_distinct(s.drop_last());
        lemma_put_distinct(nv_map(s.drop_last()), s.last());
    }
}

/// Expands the `$(NAME)` references of `input`. A name is looked up in
/// `first`, then in `second`, each read as a map in which the last
/// entry of a name counts. Gives `None` when the expansion cannot take
/// the input.
pub fn expand_value(input: &str, first: &Vec<NameValue>, second: &Vec<NameValue>) -> (r: Option<
    String,
>)
    ensures
        match r {
            Some(text) => expandable(input@) && text@ == k8s_expanded(
                input@,
                nv_pairs(nv_map(first@)),
                nv_pairs(nv_map(second@)),
            ),
            None => !expandable(input@),
        },
{
    if !can_expand(input) {
        return None;
    }
    let a = first.to_map();
    let b = second.to_map();
    proof {
        lemma_map_distinct(first@);
        lemma_map_distinct(second@);
    }
    Some(expand_with(input, &a, &b))
}

/// Tells whether the expansion can take `input`.
#[verifier::loop_isolation(false)]
pub fn can_expand(input: &str) -> (r: bool)
    ensures
        r == expandable(input@),
{
    let chars = crate::text::to_chars(input);
    let mut last: usize = 0;
    let mut found = false;
    let mut i: usize = 0;
    while i < chars.len()
        invariant
            i <= chars.len(),
            !found ==> forall|j: int| 0 <= j < i ==> chars@[j] != '$',
            found ==> last < i && chars@[last as int] == '$' && forall|j: int|
                last < j < i ==> chars@[j] != '$',
        decreases chars.len() - i,
    {
        if chars[i] == '$' {
            last = i;
            found = true;
        }
        i += 1;
    }
    if !found {
        return true;
    }
    let mut pos: usize = 0;
    while pos <= last
        invariant
            pos <= chars.len(),
            expandable(input@) == expandable_from(chars@, pos as int),
        decreases chars.len() - pos,
    {
        assert(operator_ahead(chars@, pos as int)) by {
            assert(pos <= last < chars@.len() && chars@[last as int] == '$');
        }
        if chars[pos] > '\u{7f}' {
            return false;
        }
        if chars[pos] != '$' {
            pos += 1;
        } else if pos + 1 >= chars.len() {
            return true;
        } else if chars[pos + 1] > '\u{7f}' {
            return false;
        } else if chars[pos + 1] == '(' {
            let mut q: usize = pos + 2;
            let mut ascii = true;
            while q < chars.len() && chars[q] != ')'
                invariant
                    pos + 2 <= q <= chars.len(),
                    closer(chars@, pos + 2) == closer(chars@, q as int),
                    ascii == (forall|k: int| pos + 2 <= k < q ==> is_ascii(#[trigger] chars@[k])),
                decreases chars.len() - q,
            {
                if chars[q] > '\u{7f}' {
                    ascii = false;
                }
                q += 1;
            }
            assert(closer(chars@, pos + 2) == q);
            if q < chars.len() {
                if !ascii {
                    return false;
                }
                pos = q + 1;
            } else {
                pos += 2;
            }
        } else {
            pos += 2;
        }
    }
    assert(!operator_ahead(chars@, pos as int));
    true
}

} // verus!
