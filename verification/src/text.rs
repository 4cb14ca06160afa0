use vstd::prelude::*;

verus! {

/// The Unicode `White_Space` property, which `char::is_whitespace` and
/// `str::split_whitespace` go by.
pub open spec fn is_ws(c: char) -> bool {
    let v = c as u32;
    ||| 0x9 <= v && v <= 0xd
    ||| v == 0x20
    ||| v == 0x85
    ||| v == 0xa0
    ||| v == 0x1680
    ||| 0x2000 <= v && v <= 0x200a
    ||| v == 0x2028
    ||| v == 0x2029
    ||| v == 0x202f
    ||| v == 0x205f
    ||| v == 0x3000
}

pub fn is_whitespace(c: char) -> (r: bool)
    ensures
        r == is_ws(c),
{
    let v = c as u32;
    (0x9 <= v && v <= 0xd) || v == 0x20 || v == 0x85 || v == 0xa0 || v == 0x1680 || (0x2000 <= v
        && v <= 0x200a) || v == 0x2028 || v == 0x2029 || v == 0x202f || v == 0x205f || v == 0x3000
}

/// The views of a sequence of strings.
pub open spec fn views(v: Seq<String>) -> Seq<Seq<char>> {
    Seq::new(v.len(), |i: int| v[i]@)
}

/// The characters of a string, one by one.
pub fn chars_of(s: &str) -> (v: Vec<char>)
    ensures
        v@ == s@,
{
    let n = s.unicode_len();
    let mut v: Vec<char> = Vec::new();
    let mut i: usize = 0;
    while i < n
        invariant
            n == s@.len(),
            i <= n,
            v@ == s@.take(i as int),
        decreases n - i,
    {
        let c = s.get_char(i);
        v.push(c);
        i = i + 1;
        assert(v@ =~= s@.take(i as int));
    }
    assert(v@ =~= s@);
    v
}

/// Scanning `s` from the left: the tokens completed so far and the token in
/// progress, where tokens are the maximal runs of non-whitespace characters.
pub open spec fn ws_scan(s: Seq<char>) -> (Seq<Seq<char>>, Seq<char>)
    decreases s.len(),
{
    if s.len() == 0 {
        (seq![], seq![])
    } else {
        let (done, cur) = ws_scan(s.drop_last());
        let c = s.last();
        if is_ws(c) {
            if cur.len() > 0 {
                (done.push(cur), seq![])
            } else {
                (done, cur)
            }
        } else {
            (done, cur.push(c))
        }
    }
}

/// What `str::split_whitespace` yields: the maximal runs of non-whitespace
/// characters, left to right.
pub open spec fn ws_tokens(s: Seq<char>) -> Seq<Seq<char>> {
    let (done, cur) = ws_scan(s);
    if cur.len() > 0 {
        done.push(cur)
    } else {
        done
    }
}

/// Scanning `s` from the left: the lines completed so far (each ended by a
/// '\n') and the line in progress.
pub open spec fn line_scan(s: Seq<char>) -> (Seq<Seq<char>>, Seq<char>)
    decreases s.len(),
{
    if s.len() == 0 {
        (seq![], seq![])
    } else {
        let (done, cur) = line_scan(s.drop_last());
        let c = s.last();
        if c == '\n' {
            (done.push(cur), seq![])
        } else {
            (done, cur.push(c))
        }
    }
}

/// The lines of `s`: the pieces between '\n' characters, where a last piece
/// that is empty does not count (so "a\n" has the single line "a").
pub open spec fn lines_of(s: Seq<char>) -> Seq<Seq<char>> {
    let (done, cur) = line_scan(s);
    if cur.len() > 0 {
        done.push(cur)
    } else {
        done
    }
}

/// `parts` joined, with `sep` between each two of them.
pub open spec fn join(parts: Seq<Seq<char>>, sep: Seq<char>) -> Seq<char>
    decreases parts.len(),
{
    if parts.len() == 0 {
        seq![]
    } else if parts.len() == 1 {
        parts[0]
    } else {
        join(parts.drop_last(), sep) + sep + parts.last()
    }
}

/// A joined list starts with its first part.
pub proof fn lemma_join_starts_with_first(parts: Seq<Seq<char>>, sep: Seq<char>)
    requires
        parts.len() > 0,
    ensures
        join(parts, sep).len() >= parts[0].len(),
        join(parts, sep).subrange(0, parts[0].len() as int) == parts[0],
    decreases parts.len(),
{
    if parts.len() > 1 {
        let rest = parts.drop_last();
        lemma_join_starts_with_first(rest, sep);
        let j = join(rest, sep);
        assert(rest[0] == parts[0]);
        assert((j + sep + parts.last()).subrange(0, parts[0].len() as int) =~= j.subrange(
            0,
            parts[0].len() as int,
        ));
    }
}

/// A string made of the characters `s[from..to]`.
fn substring(s: &str, from: usize, to: usize) -> (r: String)
    requires
        from <= to <= s@.len(),
    ensures
        r@ == s@.subrange(from as int, to as int),
{
    s.substring_char(from, to).to_owned()
}

/// The tokens of `s` between whitespace, as `str::split_whitespace` gives them.
pub fn split_whitespace(s: &str) -> (r: Vec<String>)
    ensures
        views(r@) == ws_tokens(s@),
{
    let cs = chars_of(s);
    let n = cs.len();
    let mut done: Vec<String> = Vec::new();
    let mut start: usize = 0;
    let mut i: usize = 0;
    while i < n
        invariant
            n == cs@.len(),
            cs@ == s@,
            start <= i <= n,
            ws_scan(s@.take(i as int)) == (views(done@), s@.subrange(start as int, i as int)),
        decreases n - i,
    {
        let c = cs[i];
        proof {
            assert(s@.take(i + 1).drop_last() =~= s@.take(i as int));
            assert(s@.take(i + 1).last() == c);
        }
        if is_whitespace(c) {
            if start < i {
                let t = substring(s, start, i);
                done.push(t);
                assert(views(done@) =~= ws_scan(s@.take(i as int)).0.push(t@));
            }
            start = i + 1;
            assert(s@.subrange(start as int, i + 1) =~= seq![]);
        } else {
            assert(s@.subrange(start as int, i + 1) =~= s@.subrange(start as int, i as int).push(c));
        }
        i = i + 1;
    }
    assert(s@.take(n as int) =~= s@);
    if start < n {
        let t = substring(s, start, n);
        done.push(t);
        assert(views(done@) =~= ws_scan(s@).0.push(t@));
    }
    done
}


/// The lines of `s`, as `lines_of` describes them.
pub fn split_lines(s: &str) -> (r: Vec<String>)
    ensures
        views(r@) == lines_of(s@),
{
    let cs = chars_of(s);
    let n = cs.len();
    let mut done: Vec<String> = Vec::new();
    let mut start: usize = 0;
    let mut i: usize = 0;
    while i < n
        invariant
            n == cs@.len(),
            cs@ == s@,
            start <= i <= n,
            line_scan(s@.take(i as int)) == (views(done@), s@.subrange(start as int, i as int)),
        decreases n - i,
    {
        let c = cs[i];
        proof {
            assert(s@.take(i + 1).drop_last() =~= s@.take(i as int));
            assert(s@.take(i + 1).last() == c);
        }
        if c == '\n' {
            let t = substring(s, start, i);
            done.push(t);
            assert(views(done@) =~= line_scan(s@.take(i as int)).0.push(t@));
            start = i + 1;
            assert(s@.subrange(start as int, i + 1) =~= seq![]);
        } else {
            assert(s@.subrange(start as int, i + 1) =~= s@.subrange(start as int, i as int).push(c));
        }
        i = i + 1;
    }
    assert(s@.take(n as int) =~= s@);
    if start < n {
        let t = substring(s, start, n);
        done.push(t);
        assert(views(done@) =~= line_scan(s@).0.push(t@));
    }
    done
}

/// The strings of `parts` joined with `sep` between each two of them.
pub fn join_strings(parts: &Vec<String>, sep: &str) -> (r: String)
    ensures
        r@ == join(views(parts@), sep@),
{
    let mut r = String::new();
    let n = parts.len();
    let mut i: usize = 0;
    while i < n
        invariant
            n == parts@.len(),
            i <= n,
            r@ == join(views(parts@).take(i as int), sep@),
        decreases n - i,
    {
        proof {
            assert(views(parts@).take(i + 1).drop_last() =~= views(parts@).take(i as int));
        }
        if i > 0 {
            r.append(sep);
        }
        r.append(parts[i].as_str());
        proof {
            if i == 0 {
                assert(views(parts@).take(1) =~= seq![parts@[0]@]);
                assert(r@ =~= parts@[0]@);
            }
        }
        i = i + 1;
    }
    assert(views(parts@).take(n as int) =~= views(parts@));
    r
}

/// Whether `s` ends with `suffix`.
pub open spec fn has_suffix(s: Seq<char>, suffix: Seq<char>) -> bool {
    suffix.len() <= s.len() && s.skip(s.len() - suffix.len()) == suffix
}

/// Whether the characters `a` and `b` agree.
pub fn seq_eq(a: &Vec<char>, b: &Vec<char>) -> (r: bool)
    ensures
        r == (a@ == b@),
{
    if a.len() != b.len() {
        return false;
    }
    let n = a.len();
    let mut i: usize = 0;
    while i < n
        invariant
            n == a@.len(),
            n == b@.len(),
            i <= n,
            forall|j: int| 0 <= j < i ==> a@[j] == b@[j],
        decreases n - i,
    {
        if a[i] != b[i] {
            return false;
        }
        i = i + 1;
    }
    assert(a@ =~= b@);
    true
}

/// Whether the strings `a` and `b` have the same characters.
pub fn str_eq(a: &str, b: &str) -> (r: bool)
    ensures
        r == (a@ == b@),
{
    let x = chars_of(a);
    let y = chars_of(b);
    seq_eq(&x, &y)
}

/// Whether `s` ends with `suffix`.
pub fn ends_with(s: &str, suffix: &str) -> (r: bool)
    ensures
        r == has_suffix(s@, suffix@),
{
    let x = chars_of(s);
    let y = chars_of(suffix);
    if y.len() > x.len() {
        return false;
    }
    let off = x.len() - y.len();
    let n = y.len();
    let mut i: usize = 0;
    while i < n
        invariant
            x@ == s@,
            y@ == suffix@,
            n == y@.len(),
            x@.len() == x.len(),
            off + n == x@.len(),
            i <= n,
            forall|j: int| 0 <= j < i ==> x@[off + j] == y@[j],
        decreases n - i,
    {
        if x[off + i] != y[i] {
            assert(s@.skip(off as int)[i as int] != suffix@[i as int]);
            return false;
        }
        i = i + 1;
    }
    assert(s@.skip(off as int) =~= suffix@);
    true
}

/// Whether `s` starts with the character `c`.
pub fn starts_with_char(s: &str, c: char) -> (r: bool)
    ensures
        r == (s@.len() > 0 && s@[0] == c),
{
    if s.unicode_len() == 0 {
        false
    } else {
        s.get_char(0) == c
    }
}


/// Characters without whitespace extend the token in progress.
pub proof fn lemma_ws_scan_word(a: Seq<char>, b: Seq<char>)
    requires
        forall|i: int| 0 <= i < b.len() ==> !is_ws(#[trigger] b[i]),
    ensures
        ws_scan(a + b) == (ws_scan(a).0, ws_scan(a).1 + b),
    decreases b.len(),
{
    if b.len() == 0 {
        assert(a + b =~= a);
        assert(ws_scan(a).1 + b =~= ws_scan(a).1);
    } else {
        lemma_ws_scan_word(a, b.drop_last());
        assert((a + b).drop_last() =~= a + b.drop_last());
        assert(!is_ws(b[b.len() - 1]));
        assert(ws_scan(a).1 + b =~= (ws_scan(a).1 + b.drop_last()).push(b.last()));
    }
}

/// A space ends the token in progress.
pub proof fn lemma_ws_scan_space(a: Seq<char>)
    requires
        ws_scan(a).1.len() > 0,
    ensures
        ws_scan(a + " "@) == (ws_scan(a).0.push(ws_scan(a).1), Seq::<char>::empty()),
{
    reveal_strlit(" ");
    assert((a + " "@).drop_last() =~= a);
    assert((a + " "@).last() == ' ');
}

/// Characters other than '\n' extend the line in progress.
pub proof fn lemma_line_scan_text(a: Seq<char>, b: Seq<char>)
    requires
        forall|i: int| 0 <= i < b.len() ==> #[trigger] b[i] != '\n',
    ensures
        line_scan(a + b) == (line_scan(a).0, line_scan(a).1 + b),
    decreases b.len(),
{
    if b.len() == 0 {
        assert(a + b =~= a);
        assert(line_scan(a).1 + b =~= line_scan(a).1);
    } else {
        lemma_line_scan_text(a, b.drop_last());
        assert((a + b).drop_last() =~= a + b.drop_last());
        assert(b[b.len() - 1] != '\n');
        assert(line_scan(a).1 + b =~= (line_scan(a).1 + b.drop_last()).push(b.last()));
    }
}

/// Lines that hold no '\n', joined by newlines, scan back into the same lines.
pub proof fn lemma_line_scan_join(ls: Seq<Seq<char>>)
    requires
        ls.len() > 0,
        forall|k: int, i: int| 0 <= k < ls.len() && 0 <= i < ls[k].len() ==> #[trigger] ls[k][i] != '\n',
    ensures
        line_scan(join(ls, "\n"@)) == (ls.drop_last(), ls.last()),
    decreases ls.len(),
{
    reveal_strlit("\n");
    if ls.len() == 1 {
        lemma_line_scan_text(seq![], ls[0]);
        assert(Seq::<char>::empty() + ls[0] =~= ls[0]);
        assert(ls.drop_last() =~= seq![]);
        assert(line_scan(Seq::<char>::empty()).1 + ls[0] =~= ls[0]);
    } else {
        let prev = ls.drop_last();
        lemma_line_scan_join(prev);
        let j = join(prev, "\n"@);
        let jn = j + "\n"@;
        assert(jn.drop_last() =~= j);
        assert(jn.last() == '\n');
        assert(line_scan(jn) == (prev.drop_last().push(prev.last()), Seq::<char>::empty()));
        assert(prev.drop_last().push(prev.last()) =~= prev);
        assert forall|i: int| 0 <= i < ls.last().len() implies #[trigger] ls.last()[i] != '\n' by {
            assert(ls.last()[i] == ls[ls.len() - 1][i]);
        }
        lemma_line_scan_text(jn, ls.last());
        assert(join(ls, "\n"@) == jn + ls.last());
        assert(Seq::<char>::empty() + ls.last() =~= ls.last());
    }
}

/// Non-empty lines that hold no '\n', joined by newlines, are the lines of
/// the result.
pub proof fn lemma_lines_of_join(ls: Seq<Seq<char>>)
    requires
        forall|k: int| 0 <= k < ls.len() ==> #[trigger] ls[k].len() > 0,
        forall|k: int, i: int| 0 <= k < ls.len() && 0 <= i < ls[k].len() ==> #[trigger] ls[k][i] != '\n',
    ensures
        lines_of(join(ls, "\n"@)) == ls,
{
    if ls.len() > 0 {
        lemma_line_scan_join(ls);
        assert(ls.drop_last().push(ls.last()) =~= ls);
    }
}


/// Scanning `x + y` from a point where no token is in progress: the tokens
/// of `x`, then those of `y`.
pub proof fn lemma_ws_scan_concat(x: Seq<char>, y: Seq<char>)
    requires
        ws_scan(x).1.len() == 0,
    ensures
        ws_scan(x + y) == (ws_scan(x).0 + ws_scan(y).0, ws_scan(y).1),
    decreases y.len(),
{
    if y.len() == 0 {
        assert(x + y =~= x);
        assert(ws_scan(x).0 + ws_scan(y).0 =~= ws_scan(x).0);
    } else {
        lemma_ws_scan_concat(x, y.drop_last());
        assert((x + y).drop_last() =~= x + y.drop_last());
        assert((x + y).last() == y.last());
        let (d, cur) = ws_scan(y.drop_last());
        if is_ws(y.last()) && cur.len() > 0 {
            assert(ws_scan(x).0 + d.push(cur) =~= (ws_scan(x).0 + d).push(cur));
        }
    }
}

/// Every token is non-empty and holds no whitespace; so does the token in
/// progress.
pub proof fn lemma_ws_scan_tokens_words(s: Seq<char>)
    ensures
        forall|k: int| 0 <= k < ws_scan(s).0.len() ==> (#[trigger] ws_scan(s).0[k]).len() > 0,
        forall|k: int, i: int|
            0 <= k < ws_scan(s).0.len() && 0 <= i < ws_scan(s).0[k].len() ==> !is_ws(
                #[trigger] ws_scan(s).0[k][i],
            ),
        forall|i: int| 0 <= i < ws_scan(s).1.len() ==> !is_ws(#[trigger] ws_scan(s).1[i]),
    decreases s.len(),
{
    if s.len() > 0 {
        lemma_ws_scan_tokens_words(s.drop_last());
        let (d, cur) = ws_scan(s.drop_last());
        if !is_ws(s.last()) {
            assert forall|i: int| 0 <= i < cur.push(s.last()).len() implies !is_ws(
                #[trigger] cur.push(s.last())[i],
            ) by {
                if i < cur.len() {
                    assert(cur.push(s.last())[i] == cur[i]);
                }
            }
        } else if cur.len() > 0 {
            assert forall|k: int| 0 <= k < d.push(cur).len() implies (#[trigger] d.push(
                cur,
            )[k]).len() > 0 by {
                if k < d.len() {
                    assert(d.push(cur)[k] == d[k]);
                }
            }
            assert forall|k: int, i: int|
                0 <= k < d.push(cur).len() && 0 <= i < d.push(cur)[k].len() implies !is_ws(
                #[trigger] d.push(cur)[k][i],
            ) by {
                if k < d.len() {
                    assert(d.push(cur)[k] == d[k]);
                }
            }
        }
    }
}

/// Every token of a string is non-empty and holds no whitespace.
pub proof fn lemma_ws_tokens_words(s: Seq<char>)
    ensures
        forall|k: int| 0 <= k < ws_tokens(s).len() ==> (#[trigger] ws_tokens(s)[k]).len() > 0,
        forall|k: int, i: int|
            0 <= k < ws_tokens(s).len() && 0 <= i < ws_tokens(s)[k].len() ==> !is_ws(
                #[trigger] ws_tokens(s)[k][i],
            ),
{
    lemma_ws_scan_tokens_words(s);
    let (d, cur) = ws_scan(s);
    if cur.len() > 0 {
        assert forall|k: int| 0 <= k < d.push(cur).len() implies (#[trigger] d.push(cur)[k]).len()
            > 0 by {
            if k < d.len() {
                assert(d.push(cur)[k] == d[k]);
            }
        }
        assert forall|k: int, i: int|
            0 <= k < d.push(cur).len() && 0 <= i < d.push(cur)[k].len() implies !is_ws(
            #[trigger] d.push(cur)[k][i],
        ) by {
            if k < d.len() {
                assert(d.push(cur)[k] == d[k]);
            }
        }
    }
}

/// Words joined by spaces scan back into the same words.
pub proof fn lemma_ws_scan_join(ws: Seq<Seq<char>>)
    requires
        ws.len() > 0,
        forall|k: int| 0 <= k < ws.len() ==> #[trigger] ws[k].len() > 0,
        forall|k: int, i: int| 0 <= k < ws.len() && 0 <= i < ws[k].len() ==> !is_ws(#[trigger] ws[k][i]),
    ensures
        ws_scan(join(ws, " "@)) == (ws.drop_last(), ws.last()),
    decreases ws.len(),
{
    let e = Seq::<char>::empty();
    assert forall|i: int| 0 <= i < ws.last().len() implies !is_ws(#[trigger] ws.last()[i]) by {
        assert(ws.last()[i] == ws[ws.len() - 1][i]);
    }
    if ws.len() == 1 {
        lemma_ws_scan_word(e, ws[0]);
        assert(e + ws[0] =~= ws[0]);
        assert(ws.drop_last() =~= seq![]);
        assert(ws_scan(e).1 + ws[0] =~= ws[0]);
    } else {
        let prev = ws.drop_last();
        lemma_ws_scan_join(prev);
        let j = join(prev, " "@);
        assert(prev.last().len() > 0);
        lemma_ws_scan_space(j);
        let js = j + " "@;
        assert(prev.drop_last().push(prev.last()) =~= prev);
        lemma_ws_scan_word(js, ws.last());
        assert(join(ws, " "@) == js + ws.last());
        assert(e + ws.last() =~= ws.last());
    }
}

/// Words joined by spaces are the tokens of the result.
pub proof fn lemma_ws_tokens_join(ws: Seq<Seq<char>>)
    requires
        forall|k: int| 0 <= k < ws.len() ==> #[trigger] ws[k].len() > 0,
        forall|k: int, i: int| 0 <= k < ws.len() && 0 <= i < ws[k].len() ==> !is_ws(#[trigger] ws[k][i]),
    ensures
        ws_tokens(join(ws, " "@)) == ws,
{
    if ws.len() > 0 {
        lemma_ws_scan_join(ws);
        assert(ws.drop_last().push(ws.last()) =~= ws);
    }
}

/// The tokens of `x`, a space, then `y`: those of `x`, then those of `y`.
pub proof fn lemma_ws_tokens_space_concat(x: Seq<char>, y: Seq<char>)
    ensures
        ws_tokens(x + " "@ + y) == ws_tokens(x) + ws_tokens(y),
{
    reveal_strlit(" ");
    let xs = x + " "@;
    assert(xs.drop_last() =~= x);
    assert(xs.last() == ' ');
    let (d, cur) = ws_scan(x);
    assert(ws_scan(xs).1.len() == 0);
    assert(ws_scan(xs).0 == ws_tokens(x));
    lemma_ws_scan_concat(xs, y);
    let (dy, cy) = ws_scan(y);
    if cy.len() > 0 {
        assert(ws_tokens(x) + dy.push(cy) =~= (ws_tokens(x) + dy).push(cy));
    }
}

} // verus!
