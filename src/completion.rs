//! Tab completion of the command word: splitting the buffer into words,
//! gathering the candidates, and their longest common prefix.

use vstd::prelude::*;

use crate::order::{lemma_concat_contains, lemma_push_contains, sorted_unique, strictly_sorted};
use crate::parser::{flush_arg, strings_view};
use crate::text::{chars_of, chars_start_with, is_whitespace, is_ws, starts_with, string_of};

verus! {

/// The words of `s` from position `i` on, as `str::split_whitespace` gives
/// them, after `acc` and with `cur` as the word under way.
pub open spec fn words_from(s: Seq<char>, i: int, cur: Seq<char>, acc: Seq<Seq<char>>) -> Seq<
    Seq<char>,
>
    decreases s.len() - i,
{
    if i < 0 || i >= s.len() {
        flush_arg(acc, cur)
    } else if is_ws(s[i]) {
        words_from(s, i + 1, Seq::empty(), flush_arg(acc, cur))
    } else {
        words_from(s, i + 1, cur.push(s[i]), acc)
    }
}

/// The whitespace-separated words of `s`.
pub open spec fn words(s: Seq<char>) -> Seq<Seq<char>> {
    words_from(s, 0, Seq::empty(), Seq::empty())
}

/// The text that completion extends: the only word of the buffer, or the
/// empty text for a blank buffer; none when the buffer holds several words.
pub open spec fn completion_word(s: Seq<char>) -> Option<Seq<char>> {
    let w = words(s);
    if w.len() == 0 {
        Some(Seq::empty())
    } else if w.len() == 1 {
        Some(w[0])
    } else {
        None
    }
}

pub open spec fn char_vecs_view(ws: Seq<Vec<char>>) -> Seq<Seq<char>> {
    ws.map_values(|w: Vec<char>| w@)
}

/// Executable form of `completion_word`.
pub fn completion_prefix(buffer: &Vec<char>) -> (r: Option<Vec<char>>)
    ensures
        match r {
            Some(p) => completion_word(buffer@) == Some(p@),
            None => completion_word(buffer@) is None,
        },
{
    let mut found: Vec<Vec<char>> = Vec::new();
    let mut cur: Vec<char> = Vec::new();
    let mut i: usize = 0;
    assert(char_vecs_view(found@) =~= Seq::<Seq<char>>::empty());
    while i < buffer.len()
        invariant
            i <= buffer@.len(),
            words_from(buffer@, i as int, cur@, char_vecs_view(found@)) == words(buffer@),
        decreases buffer@.len() - i,
    {
        let c = buffer[i];
        if is_whitespace(c) {
            if cur.len() > 0 {
                let w = cur;
                proof {
                    assert(char_vecs_view(found@.push(w)) =~= char_vecs_view(found@).push(w@));
                }
                found.push(w);
            }
            cur = Vec::new();
        } else {
            cur.push(c);
        }
        i = i + 1;
    }
    if cur.len() > 0 {
        let w = cur;
        proof {
            assert(char_vecs_view(found@.push(w)) =~= char_vecs_view(found@).push(w@));
        }
        found.push(w);
    }
    assert(char_vecs_view(found@) == words(buffer@));
    if found.len() == 0 {
        Some(Vec::new())
    } else if found.len() == 1 {
        let w = found.pop().unwrap();
        Some(w)
    } else {
        None
    }
}

/// The names of `names` that start with `prefix`, in their order.
pub open spec fn with_prefix(names: Seq<Seq<char>>, prefix: Seq<char>) -> Seq<Seq<char>>
    decreases names.len(),
{
    if names.len() == 0 {
        Seq::empty()
    } else {
        let rest = with_prefix(names.drop_last(), prefix);
        if starts_with(names.last(), prefix) {
            rest.push(names.last())
        } else {
            rest
        }
    }
}

/// A name is kept exactly when it is there and starts with the prefix.
pub proof fn lemma_with_prefix_contains(names: Seq<Seq<char>>, prefix: Seq<char>, x: Seq<char>)
    ensures
        with_prefix(names, prefix).contains(x) <==> names.contains(x) && starts_with(x, prefix),
    decreases names.len(),
{
    if names.len() > 0 {
        let init = names.drop_last();
        lemma_with_prefix_contains(init, prefix, x);
        lemma_push_contains(with_prefix(init, prefix), names.last(), x);
        assert(names =~= init.push(names.last()));
        lemma_push_contains(init, names.last(), x);
    }
}

/// The names of `names` that start with `prefix`, in their order.
pub fn names_with_prefix(names: &Vec<String>, prefix: &str) -> (r: Vec<String>)
    ensures
        strings_view(r@) == with_prefix(strings_view(names@), prefix@),
{
    let p = chars_of(prefix);
    let mut r: Vec<String> = Vec::new();
    let mut i: usize = 0;
    assert(strings_view(r@) =~= Seq::<Seq<char>>::empty());
    while i < names.len()
        invariant
            p@ == prefix@,
            i <= names@.len(),
            strings_view(r@) == with_prefix(strings_view(names@.take(i as int)), prefix@),
        decreases names@.len() - i,
    {
        let ghost before = strings_view(names@.take(i as int));
        proof {
            assert(strings_view(names@.take(i + 1)) =~= before.push(names@[i as int]@));
            assert(before.push(names@[i as int]@).drop_last() =~= before);
        }
        let cs = chars_of(names[i].as_str());
        if chars_start_with(&cs, &p) {
            let s = names[i].clone();
            proof {
                assert(strings_view(r@.push(s)) =~= strings_view(r@).push(s@));
            }
            r.push(s);
        }
        i = i + 1;
    }
    assert(names@.take(i as int) =~= names@);
    r
}

/// Whether `p` begins every text of `ss`.
pub open spec fn is_common_prefix(p: Seq<char>, ss: Seq<Seq<char>>) -> bool {
    forall|i: int| 0 <= i < ss.len() ==> starts_with(#[trigger] ss[i], p)
}

/// Whether `p` is a common prefix of `ss` that no other is longer than.
pub open spec fn is_longest_common_prefix(p: Seq<char>, ss: Seq<Seq<char>>) -> bool {
    &&& is_common_prefix(p, ss)
    &&& forall|q: Seq<char>| #[trigger] is_common_prefix(q, ss) ==> q.len() <= p.len()
}

/// The longest common prefix of a nonempty list of texts.
pub open spec fn longest_common_prefix(ss: Seq<Seq<char>>) -> Seq<char> {
    choose|p: Seq<char>| is_longest_common_prefix(p, ss)
}

/// There is one longest common prefix at most.
pub proof fn lemma_longest_common_prefix_unique(p: Seq<char>, q: Seq<char>, ss: Seq<Seq<char>>)
    requires
        ss.len() > 0,
        is_longest_common_prefix(p, ss),
        is_longest_common_prefix(q, ss),
    ensures
        p == q,
{
    assert(is_common_prefix(p, ss));
    assert(is_common_prefix(q, ss));
    assert(starts_with(ss[0], p));
    assert(starts_with(ss[0], q));
    assert(p.len() == q.len());
    assert forall|i: int| 0 <= i < p.len() implies p[i] == q[i] by {
        assert(ss[0][i] == p[i]);
        assert(ss[0][i] == q[i]);
    }
    assert(p =~= q);
}

/// The longest prefix that all of `strings` share; empty when there are none.
pub fn find_longest_common_prefix(strings: &Vec<String>) -> (r: String)
    ensures
        strings@.len() == 0 ==> r@ == Seq::<char>::empty(),
        strings@.len() > 0 ==> r@ == longest_common_prefix(strings_view(strings@)),
{
    if strings.len() == 0 {
        return String::new();
    }
    let ghost ss = strings_view(strings@);
    let first = chars_of(strings[0].as_str());
    let mut len: usize = first.len();
    let mut i: usize = 1;
    while i < strings.len()
        invariant
            ss == strings_view(strings@),
            first@ == ss[0],
            1 <= i <= ss.len(),
            len <= first@.len(),
            forall|j: int|
                0 <= j < i ==> starts_with(#[trigger] ss[j], first@.take(len as int)),
            len == first@.len() || exists|j: int|
                0 <= j < i && (len == (#[trigger] ss[j]).len() || (len < ss[j].len() && ss[j][len
                    as int] != first@[len as int])),
        decreases ss.len() - i,
    {
        let s = chars_of(strings[i].as_str());
        let mut k: usize = 0;
        while k < len && k < s.len() && s[k] == first[k]
            invariant
                len <= first@.len(),
                k <= len,
                k <= s@.len(),
                forall|m: int| 0 <= m < k ==> #[trigger] s@[m] == first@[m],
            decreases len - k,
        {
            k = k + 1;
        }
        proof {
            assert forall|j: int| 0 <= j < i + 1 implies starts_with(
                #[trigger] ss[j],
                first@.take(k as int),
            ) by {
                if j < i {
                    assert(starts_with(ss[j], first@.take(len as int)));
                    assert forall|m: int| 0 <= m < k implies #[trigger] ss[j][m] == first@.take(
                        k as int,
                    )[m] by {
                        assert(ss[j][m] == first@.take(len as int)[m]);
                    }
                } else {
                    assert(ss[j] == s@);
                }
            }
            if k < len {
                assert(k == ss[i as int].len() || (k < ss[i as int].len() && ss[i as int][k as int]
                    != first@[k as int]));
            } else if len < first@.len() {
                let j = choose|j: int|
                    0 <= j < i && (len == (#[trigger] ss[j]).len() || (len < ss[j].len()
                        && ss[j][len as int] != first@[len as int]));
                assert(0 <= j < i + 1);
            }
        }
        len = k;
        i = i + 1;
    }
    let p = first.as_slice().split_at(len).0;
    let r = string_of(p);
    proof {
        let pv = first@.take(len as int);
        assert(p@ =~= pv);
        assert forall|q: Seq<char>| #[trigger] is_common_prefix(q, ss) implies q.len()
            <= pv.len() by {
            if q.len() > pv.len() {
                assert(starts_with(ss[0], q));
                if len < first@.len() {
                    let j = choose|j: int|
                        0 <= j < ss.len() && (len == (#[trigger] ss[j]).len() || (len < ss[j].len()
                            && ss[j][len as int] != first@[len as int]));
                    assert(starts_with(ss[j], q));
                    assert(q[len as int] == first@[len as int]);
                }
            }
        }
        assert(is_longest_common_prefix(pv, ss));
        lemma_longest_common_prefix_unique(pv, longest_common_prefix(ss), ss);
    }
    r
}

/// The completions of `prefix`: the builtin and executable names that start
/// with it, sorted, each once.
pub fn completion_candidates(prefix: &str, builtins: &Vec<String>, executables: &Vec<String>) -> (r:
    Vec<String>)
    ensures
        strictly_sorted(strings_view(r@)),
        forall|x: Seq<char>|
            strings_view(r@).contains(x) <==> (starts_with(x, prefix@) && (strings_view(
                builtins@,
            ).contains(x) || strings_view(executables@).contains(x))),
{
    let mut all = names_with_prefix(builtins, prefix);
    let mut more = names_with_prefix(executables, prefix);
    let ghost a = strings_view(all@);
    let ghost b = strings_view(more@);
    all.append(&mut more);
    let r = sorted_unique(&all);
    proof {
        assert(strings_view(all@) =~= a + b);
        assert forall|x: Seq<char>| #[trigger] (a + b).contains(x) <==> (starts_with(x, prefix@) && (
        strings_view(builtins@).contains(x) || strings_view(executables@).contains(x))) by {
            lemma_with_prefix_contains(strings_view(builtins@), prefix@, x);
            lemma_with_prefix_contains(strings_view(executables@), prefix@, x);
            lemma_concat_contains(a, b, x);
        }
    }
    r
}

} // verus!
