use vstd::prelude::*;

use crate::common::Error;
use crate::text::{
    is_ws, join, join_strings, lemma_ws_tokens_join, lemma_ws_tokens_space_concat,
    lemma_ws_tokens_words, split_whitespace, starts_with_char, str_eq, views, ws_tokens,
};

verus! {

/// A flag as the user may type it, with its leading '-' added where missing.
pub open spec fn norm_flag(f: Seq<char>) -> Seq<char> {
    if f.len() > 0 && f[0] == '-' {
        f
    } else {
        "-"@ + f
    }
}

/// The flags that the whitespace-separated words of `text` name.
pub open spec fn flags_named(text: Seq<char>) -> Seq<Seq<char>> {
    Seq::new(ws_tokens(text).len(), |i: int| norm_flag(ws_tokens(text)[i]))
}

/// The first position in `new` of a flag that `old` already holds.
pub open spec fn first_clash(new: Seq<Seq<char>>, old: Seq<Seq<char>>) -> Option<int>
    decreases new.len(),
{
    if new.len() == 0 {
        None
    } else {
        match first_clash(new.drop_last(), old) {
            Some(k) => Some(k),
            None => if old.contains(new.last()) {
                Some(new.len() - 1)
            } else {
                None
            },
        }
    }
}

/// `s` with only the first occurrence of each element kept.
pub open spec fn dedup(s: Seq<Seq<char>>) -> Seq<Seq<char>>
    decreases s.len(),
{
    if s.len() == 0 {
        s
    } else if dedup(s.drop_last()).contains(s.last()) {
        dedup(s.drop_last())
    } else {
        dedup(s.drop_last()).push(s.last())
    }
}

/// `s` without the occurrences of `v`.
pub open spec fn without(s: Seq<Seq<char>>, v: Seq<char>) -> Seq<Seq<char>>
    decreases s.len(),
{
    if s.len() == 0 {
        s
    } else if s.last() == v {
        without(s.drop_last(), v)
    } else {
        without(s.drop_last(), v).push(s.last())
    }
}

/// Takes the flags `rm` out of `set` one after the other: what remains, or
/// the first flag that is not there (any more).
pub open spec fn remove_scan(set: Seq<Seq<char>>, rm: Seq<Seq<char>>) -> Result<
    Seq<Seq<char>>,
    Seq<char>,
>
    decreases rm.len(),
{
    if rm.len() == 0 {
        Ok(set)
    } else {
        match remove_scan(set, rm.drop_last()) {
            Err(f) => Err(f),
            Ok(rest) => if rest.contains(rm.last()) {
                Ok(without(rest, rm.last()))
            } else {
                Err(rm.last())
            },
        }
    }
}

/// Adding the flags named in `added` to the cflags `old`: the new cflags, or
/// the first added flag that `old` already holds.
pub open spec fn add_flags_outcome(old: Seq<char>, added: Seq<char>) -> Result<Seq<char>, Seq<char>> {
    let new = flags_named(added);
    match first_clash(new, ws_tokens(old)) {
        Some(k) => Err(new[k]),
        None => Ok(old + " "@ + join(new, " "@)),
    }
}

/// Removing the flags named in `removed` from the cflags `old`: the distinct
/// flags that remain, in the order they first occur, joined by spaces; or
/// the first flag named that is not (or no longer) there.
pub open spec fn remove_flags_outcome(old: Seq<char>, removed: Seq<char>) -> Result<
    Seq<char>,
    Seq<char>,
> {
    match remove_scan(dedup(ws_tokens(old)), flags_named(removed)) {
        Err(f) => Err(f),
        Ok(rest) => Ok(join(rest, " "@)),
    }
}

/// The flag `f` with a leading '-' where it has none.
pub fn normalize_flag(f: &str) -> (r: String)
    ensures
        r@ == norm_flag(f@),
{
    if starts_with_char(f, '-') {
        f.to_owned()
    } else {
        let mut s = "-".to_owned();
        s.append(f);
        s
    }
}

/// The flags that the words of `text` name.
pub fn named_flags(text: &str) -> (r: Vec<String>)
    ensures
        views(r@) == flags_named(text@),
{
    let words = split_whitespace(text);
    let mut r: Vec<String> = Vec::new();
    let n = words.len();
    let mut i: usize = 0;
    while i < n
        invariant
            n == words@.len(),
            views(words@) == ws_tokens(text@),
            i <= n,
            r@.len() == i,
            forall|j: int| 0 <= j < i ==> #[trigger] r@[j]@ == norm_flag(words@[j]@),
        decreases n - i,
    {
        let f = normalize_flag(words[i].as_str());
        r.push(f);
        i = i + 1;
    }
    assert(views(r@) =~= flags_named(text@));
    r
}

/// Whether `v` holds a string equal to `s`; and the position of the first.
pub fn find_string(v: &Vec<String>, s: &str) -> (r: Option<usize>)
    ensures
        match r {
            Some(i) => i < v@.len() && v@[i as int]@ == s@ && forall|j: int|
                0 <= j < i ==> v@[j]@ != s@,
            None => !views(v@).contains(s@),
        },
{
    let n = v.len();
    let mut i: usize = 0;
    while i < n
        invariant
            n == v@.len(),
            i <= n,
            forall|j: int| 0 <= j < i ==> v@[j]@ != s@,
        decreases n - i,
    {
        if str_eq(v[i].as_str(), s) {
            return Some(i);
        }
        i = i + 1;
    }
    assert forall|k: int| 0 <= k < views(v@).len() implies views(v@)[k] != s@ by {
        assert(views(v@)[k] == v@[k]@);
    }
    None
}

/// Adds the flags named in `added` to the cflags `old`.
pub fn add_flags(old: &str, added: &str) -> (r: Result<String, Error>)
    ensures
        match add_flags_outcome(old@, added@) {
            Ok(s) => r matches Ok(t) && t@ == s,
            Err(f) => r matches Err(Error::CFlagNotUnique(x)) && x@ == f,
        },
{
    let old_flags = split_whitespace(old);
    let new = named_flags(added);
    let n = new.len();
    let mut i: usize = 0;
    while i < n
        invariant
            n == new@.len(),
            i <= n,
            views(new@) == flags_named(added@),
            views(old_flags@) == ws_tokens(old@),
            first_clash(views(new@).take(i as int), views(old_flags@)) is None,
        decreases n - i,
    {
        assert(views(new@).take(i + 1).drop_last() =~= views(new@).take(i as int));
        assert(views(new@).take(i + 1).last() == new@[i as int]@);
        match find_string(&old_flags, new[i].as_str()) {
            Some(j) => {
                proof {
                    assert(views(old_flags@)[j as int] == old_flags@[j as int]@);
                    assert(first_clash(views(new@).take(i + 1), views(old_flags@)) == Some(i as int));
                    lemma_first_clash_prefix(views(new@), views(old_flags@), i as int + 1);
                }
                return Err(Error::CFlagNotUnique(new[i].clone()));
            },
            None => {},
        }
        i = i + 1;
    }
    assert(views(new@).take(n as int) =~= views(new@));
    let mut s = old.to_owned();
    s.append(" ");
    let joined = join_strings(&new, " ");
    s.append(joined.as_str());
    Ok(s)
}

proof fn lemma_first_clash_prefix(new: Seq<Seq<char>>, old: Seq<Seq<char>>, k: int)
    requires
        0 <= k <= new.len(),
        first_clash(new.take(k), old) is Some,
    ensures
        first_clash(new, old) == first_clash(new.take(k), old),
    decreases new.len() - k,
{
    if k < new.len() {
        assert(new.take(k + 1).drop_last() =~= new.take(k));
        lemma_first_clash_prefix(new, old, k + 1);
    } else {
        assert(new.take(k) =~= new);
    }
}

proof fn lemma_remove_scan_prefix(set: Seq<Seq<char>>, rm: Seq<Seq<char>>, k: int)
    requires
        0 <= k <= rm.len(),
        remove_scan(set, rm.take(k)) is Err,
    ensures
        remove_scan(set, rm) == remove_scan(set, rm.take(k)),
    decreases rm.len() - k,
{
    if k < rm.len() {
        assert(rm.take(k + 1).drop_last() =~= rm.take(k));
        lemma_remove_scan_prefix(set, rm, k + 1);
    } else {
        assert(rm.take(k) =~= rm);
    }
}

/// The strings of `v`, with only the first occurrence of each kept.
fn dedup_strings(v: Vec<String>) -> (r: Vec<String>)
    ensures
        views(r@) == dedup(views(v@)),
{
    let mut r: Vec<String> = Vec::new();
    let n = v.len();
    let mut i: usize = 0;
    while i < n
        invariant
            n == v@.len(),
            i <= n,
            views(r@) == dedup(views(v@).take(i as int)),
        decreases n - i,
    {
        assert(views(v@).take(i + 1).drop_last() =~= views(v@).take(i as int));
        assert(views(v@).take(i + 1).last() == v@[i as int]@);
        match find_string(&r, v[i].as_str()) {
            Some(j) => {
                assert(views(r@)[j as int] == r@[j as int]@);
            },
            None => {
                let ghost before = views(r@);
                r.push(v[i].clone());
                assert(views(r@) =~= before.push(v@[i as int]@));
            },
        }
        i = i + 1;
    }
    assert(views(v@).take(n as int) =~= views(v@));
    r
}

/// The strings of `v` other than `s`.
fn strings_without(v: Vec<String>, s: &str) -> (r: Vec<String>)
    ensures
        views(r@) == without(views(v@), s@),
{
    let mut r: Vec<String> = Vec::new();
    let n = v.len();
    let mut i: usize = 0;
    while i < n
        invariant
            n == v@.len(),
            i <= n,
            views(r@) == without(views(v@).take(i as int), s@),
        decreases n - i,
    {
        assert(views(v@).take(i + 1).drop_last() =~= views(v@).take(i as int));
        assert(views(v@).take(i + 1).last() == v@[i as int]@);
        if !str_eq(v[i].as_str(), s) {
            let ghost before = views(r@);
            r.push(v[i].clone());
            assert(views(r@) =~= before.push(v@[i as int]@));
        }
        i = i + 1;
    }
    assert(views(v@).take(n as int) =~= views(v@));
    r
}

/// Removes the flags named in `removed` from the cflags `old`.
pub fn remove_flags(old: &str, removed: &str) -> (r: Result<String, Error>)
    ensures
        match remove_flags_outcome(old@, removed@) {
            Ok(s) => r matches Ok(t) && t@ == s,
            Err(f) => r matches Err(Error::CFlagNotFound(x)) && x@ == f,
        },
{
    let mut set = dedup_strings(split_whitespace(old));
    let rm = named_flags(removed);
    let ghost start = views(set@);
    let n = rm.len();
    let mut i: usize = 0;
    while i < n
        invariant
            n == rm@.len(),
            i <= n,
            views(rm@) == flags_named(removed@),
            start == dedup(ws_tokens(old@)),
            remove_scan(start, views(rm@).take(i as int)) == Ok::<Seq<Seq<char>>, Seq<char>>(
                views(set@),
            ),
        decreases n - i,
    {
        assert(views(rm@).take(i + 1).drop_last() =~= views(rm@).take(i as int));
        assert(views(rm@).take(i + 1).last() == rm@[i as int]@);
        match find_string(&set, rm[i].as_str()) {
            None => {
                proof {
                    lemma_remove_scan_prefix(start, views(rm@), i as int + 1);
                }
                return Err(Error::CFlagNotFound(rm[i].clone()));
            },
            Some(j) => {
                assert(views(set@)[j as int] == set@[j as int]@);
                set = strings_without(set, rm[i].as_str());
            },
        }
        i = i + 1;
    }
    assert(views(rm@).take(n as int) =~= views(rm@));
    Ok(join_strings(&set, " "))
}


proof fn lemma_no_clash(new: Seq<Seq<char>>, old: Seq<Seq<char>>)
    requires
        first_clash(new, old) is None,
    ensures
        forall|k: int| 0 <= k < new.len() ==> !old.contains(#[trigger] new[k]),
    decreases new.len(),
{
    if new.len() > 0 {
        lemma_no_clash(new.drop_last(), old);
        assert forall|k: int| 0 <= k < new.len() implies !old.contains(#[trigger] new[k]) by {
            if k < new.len() - 1 {
                assert(new[k] == new.drop_last()[k]);
            }
        }
    }
}

proof fn lemma_dedup_within(s: Seq<Seq<char>>, v: Seq<char>)
    requires
        dedup(s).contains(v),
    ensures
        s.contains(v),
    decreases s.len(),
{
    if s.len() > 0 {
        let p = dedup(s.drop_last());
        if p.contains(v) {
            lemma_dedup_within(s.drop_last(), v);
            let i = choose|i: int| 0 <= i < s.drop_last().len() && s.drop_last()[i] == v;
            assert(s[i] == v);
        } else {
            let i = choose|i: int| 0 <= i < p.push(s.last()).len() && p.push(s.last())[i] == v;
            assert(i == p.len());
            assert(s[s.len() - 1] == v);
        }
    }
}

/// Flags that are distinct and new keep their place after the old ones.
proof fn lemma_dedup_append(t: Seq<Seq<char>>, new: Seq<Seq<char>>)
    requires
        forall|k: int| 0 <= k < new.len() ==> !t.contains(#[trigger] new[k]),
        forall|i: int, j: int| 0 <= i < j < new.len() ==> new[i] != new[j],
    ensures
        dedup(t + new) == dedup(t) + new,
    decreases new.len(),
{
    if new.len() == 0 {
        assert(t + new =~= t);
        assert(dedup(t) + new =~= dedup(t));
    } else {
        let p = new.drop_last();
        lemma_dedup_append(t, p);
        assert((t + new).drop_last() =~= t + p);
        assert((t + new).last() == new.last());
        let v = new.last();
        if (dedup(t) + p).contains(v) {
            let i = choose|i: int| 0 <= i < (dedup(t) + p).len() && (dedup(t) + p)[i] == v;
            if i < dedup(t).len() {
                assert(dedup(t).contains(v));
                lemma_dedup_within(t, v);
                assert(!t.contains(new[new.len() - 1]));
            } else {
                assert(p[i - dedup(t).len()] == new[i - dedup(t).len()]);
            }
        }
        assert(dedup(t) + new =~= (dedup(t) + p).push(v));
    }
}

proof fn lemma_without_concat(a: Seq<Seq<char>>, b: Seq<Seq<char>>, v: Seq<char>)
    ensures
        without(a + b, v) == without(a, v) + without(b, v),
    decreases b.len(),
{
    if b.len() == 0 {
        assert(a + b =~= a);
        assert(without(a, v) + without(b, v) =~= without(a, v));
    } else {
        lemma_without_concat(a, b.drop_last(), v);
        assert((a + b).drop_last() =~= a + b.drop_last());
        assert((a + b).last() == b.last());
        if b.last() != v {
            assert(without(a, v) + without(b.drop_last(), v).push(b.last()) =~= (without(a, v)
                + without(b.drop_last(), v)).push(b.last()));
        }
    }
}

proof fn lemma_without_absent(a: Seq<Seq<char>>, v: Seq<char>)
    requires
        !a.contains(v),
    ensures
        without(a, v) == a,
    decreases a.len(),
{
    if a.len() > 0 {
        assert(!a.drop_last().contains(v)) by {
            if a.drop_last().contains(v) {
                let i = choose|i: int| 0 <= i < a.drop_last().len() && a.drop_last()[i] == v;
                assert(a[i] == v);
            }
        }
        lemma_without_absent(a.drop_last(), v);
        assert(a[a.len() - 1] != v);
        assert(a.drop_last().push(a.last()) =~= a);
    }
}

/// Removing distinct flags, none of which is in `d`, from `d` followed by
/// them leaves `d`.
proof fn lemma_remove_appended(d: Seq<Seq<char>>, new: Seq<Seq<char>>, k: int)
    requires
        0 <= k <= new.len(),
        forall|j: int| 0 <= j < new.len() ==> !d.contains(#[trigger] new[j]),
        forall|i: int, j: int| 0 <= i < j < new.len() ==> new[i] != new[j],
    ensures
        remove_scan(d + new, new.take(k)) == Ok::<Seq<Seq<char>>, Seq<char>>(d + new.skip(k)),
    decreases k,
{
    if k == 0 {
        assert(new.take(0) =~= seq![]);
        assert(new.skip(0) =~= new);
    } else {
        lemma_remove_appended(d, new, k - 1);
        assert(new.take(k).drop_last() =~= new.take(k - 1));
        let v = new[k - 1];
        assert(new.take(k).last() == v);
        let rest = d + new.skip(k - 1);
        assert(rest[d.len() as int] == v);
        assert(rest.contains(v));
        let tail = new.skip(k);
        assert(new.skip(k - 1) =~= seq![v] + tail);
        assert(!tail.contains(v)) by {
            if tail.contains(v) {
                let i = choose|i: int| 0 <= i < tail.len() && tail[i] == v;
                assert(new[k + i] == new[k - 1]);
            }
        }
        assert(!d.contains(new[k - 1]));
        lemma_without_concat(d, new.skip(k - 1), v);
        lemma_without_concat(seq![v], tail, v);
        lemma_without_absent(d, v);
        lemma_without_absent(tail, v);
        let one: Seq<Seq<char>> = seq![v];
        let none = Seq::<Seq<char>>::empty();
        assert(one.drop_last() =~= none);
        assert(one.last() == v);
        assert(without(none, v) == none);
        assert(without(one, v) == none);
        assert(none + tail =~= tail);
    }
}

/// Removing the flags just added, each named once, gives back the flags
/// the project had, each once, in the order they first occurred.
pub proof fn law_remove_undoes_add(old: Seq<char>, added: Seq<char>)
    requires
        add_flags_outcome(old, added) is Ok,
        forall|i: int, j: int|
            0 <= i < j < flags_named(added).len() ==> flags_named(added)[i] != flags_named(added)[j],
    ensures
        remove_flags_outcome(add_flags_outcome(old, added)->Ok_0, added) == Ok::<
            Seq<char>,
            Seq<char>,
        >(join(dedup(ws_tokens(old)), " "@)),
{
    reveal_strlit("-");
    let new = flags_named(added);
    let t = ws_tokens(old);
    lemma_no_clash(new, t);
    lemma_ws_tokens_words(added);
    let w = ws_tokens(added);
    assert forall|k: int| 0 <= k < new.len() implies #[trigger] new[k].len() > 0 by {
        assert(w[k].len() > 0);
    }
    assert forall|k: int, i: int| 0 <= k < new.len() && 0 <= i < new[k].len() implies !is_ws(
        #[trigger] new[k][i],
    ) by {
        if w[k].len() > 0 && w[k][0] == '-' {
            assert(new[k] == w[k]);
        } else {
            assert(new[k] == "-"@ + w[k]);
            if i > 0 {
                assert(new[k][i] == w[k][i - 1]);
            }
        }
    }
    lemma_ws_tokens_join(new);
    lemma_ws_tokens_space_concat(old, join(new, " "@));
    let text = old + " "@ + join(new, " "@);
    assert(ws_tokens(text) == t + new);
    lemma_dedup_append(t, new);
    assert forall|j: int| 0 <= j < new.len() implies !dedup(t).contains(#[trigger] new[j]) by {
        if dedup(t).contains(new[j]) {
            lemma_dedup_within(t, new[j]);
        }
    }
    lemma_remove_appended(dedup(t), new, new.len() as int);
    assert(new.take(new.len() as int) =~= new);
    assert(dedup(t) + new.skip(new.len() as int) =~= dedup(t));
}

} // verus!
