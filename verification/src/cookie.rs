//! Reading values out of the browser's `document.cookie` string
//! ("name=value; other=value; ..."), as the pages remember their settings.
use vstd::prelude::*;
use crate::text::{chars_of, string_of};

verus! {

/// Unicode's White_Space property, which `char::is_whitespace` tests.
pub open spec fn is_white_space(c: char) -> bool {
    let n = c as u32;
    (0x9 <= n && n <= 0xd) || n == 0x20 || n == 0x85 || n == 0xa0 || n == 0x1680
        || (0x2000 <= n && n <= 0x200a) || n == 0x2028 || n == 0x2029 || n == 0x202f || n == 0x205f
        || n == 0x3000
}

fn white_space(c: char) -> (r: bool)
    ensures
        r == is_white_space(c),
{
    let n = c as u32;
    (0x9 <= n && n <= 0xd) || n == 0x20 || n == 0x85 || n == 0xa0 || n == 0x1680
        || (0x2000 <= n && n <= 0x200a) || n == 0x2028 || n == 0x2029 || n == 0x202f || n == 0x205f
        || n == 0x3000
}

/// `s` without its leading white space.
pub open spec fn trim_start(s: Seq<char>) -> Seq<char>
    decreases s.len(),
{
    if s.len() > 0 && is_white_space(s[0]) {
        trim_start(s.drop_first())
    } else {
        s
    }
}

/// `s` without its trailing white space.
pub open spec fn trim_end(s: Seq<char>) -> Seq<char>
    decreases s.len(),
{
    if s.len() > 0 && is_white_space(s.last()) {
        trim_end(s.drop_last())
    } else {
        s
    }
}

/// `s` without leading and trailing white space, as `str::trim` gives it.
pub open spec fn trim(s: Seq<char>) -> Seq<char> {
    trim_end(trim_start(s))
}

/// The pieces of `s` between the occurrences of `sep`, as `str::split`
/// yields them (an empty `s` is one empty piece).
pub open spec fn split_on(s: Seq<char>, sep: char) -> Seq<Seq<char>>
    decreases s.len(),
{
    if s.len() == 0 {
        seq![Seq::<char>::empty()]
    } else if s.last() == sep {
        split_on(s.drop_last(), sep).push(Seq::<char>::empty())
    } else {
        let p = split_on(s.drop_last(), sep);
        p.update(p.len() - 1, p.last().push(s.last()))
    }
}

proof fn lemma_split_nonempty(s: Seq<char>, sep: char)
    ensures
        split_on(s, sep).len() >= 1,
    decreases s.len(),
{
    if s.len() > 0 {
        lemma_split_nonempty(s.drop_last(), sep);
    }
}

/// `s` begins with `prefix`.
pub open spec fn has_prefix(s: Seq<char>, prefix: Seq<char>) -> bool {
    prefix.len() <= s.len() && s.take(prefix.len() as int) == prefix
}

/// The value of the first cookie piece that, trimmed, begins with `prefix`
/// (such as "theme="): the rest of that trimmed piece.
pub open spec fn first_value(pieces: Seq<Seq<char>>, prefix: Seq<char>) -> Option<Seq<char>>
    decreases pieces.len(),
{
    if pieces.len() == 0 {
        None
    } else if has_prefix(trim(pieces[0]), prefix) {
        Some(trim(pieces[0]).skip(prefix.len() as int))
    } else {
        first_value(pieces.drop_first(), prefix)
    }
}

/// The value that a cookie string gives the cookie named by `prefix`
/// (its name followed by '='), if any.
pub open spec fn cookie_value_of(cookies: Seq<char>, prefix: Seq<char>) -> Option<Seq<char>> {
    first_value(split_on(cookies, ';'), prefix)
}

proof fn lemma_split_without_sep(s: Seq<char>, sep: char)
    requires
        forall|i: int| 0 <= i < s.len() ==> s[i] != sep,
    ensures
        split_on(s, sep) == seq![s],
    decreases s.len(),
{
    if s.len() > 0 {
        lemma_split_without_sep(s.drop_last(), sep);
        assert(s.drop_last().push(s.last()) =~= s);
        assert(split_on(s, sep) =~= seq![s]);
    } else {
        assert(s =~= Seq::<char>::empty());
    }
}

/// A cookie string that holds just `prefix` followed by `value` (no ';',
/// no white space at either end) gives `value` for `prefix`.
pub proof fn lemma_single_cookie(prefix: Seq<char>, value: Seq<char>)
    requires
        prefix.len() > 0,
        forall|i: int| 0 <= i < (prefix + value).len() ==> (prefix + value)[i] != ';',
        !is_white_space((prefix + value)[0]),
        !is_white_space((prefix + value).last()),
    ensures
        cookie_value_of(prefix + value, prefix) == Some(value),
{
    let s = prefix + value;
    lemma_split_without_sep(s, ';');
    assert(trim_start(s) == s);
    assert(trim_end(s) == s);
    assert(s.take(prefix.len() as int) =~= prefix);
    assert(s.skip(prefix.len() as int) =~= value);
    assert(split_on(s, ';').drop_first() =~= Seq::<Seq<char>>::empty());
}

/// Splitting at a separator splits the parts on either side of it.
proof fn lemma_split_concat(a: Seq<char>, b: Seq<char>, sep: char)
    ensures
        split_on(a + seq![sep] + b, sep) == split_on(a, sep) + split_on(b, sep),
    decreases b.len(),
{
    lemma_split_nonempty(b, sep);
    if b.len() == 0 {
        assert((a + seq![sep] + b).drop_last() =~= a);
        assert(split_on(b, sep) =~= seq![Seq::<char>::empty()]);
    } else {
        let s = a + seq![sep] + b;
        assert(s.drop_last() =~= a + seq![sep] + b.drop_last());
        assert(s.last() == b.last());
        lemma_split_concat(a, b.drop_last(), sep);
        lemma_split_nonempty(b.drop_last(), sep);
        let p = split_on(a, sep);
        let q = split_on(b.drop_last(), sep);
        if b.last() == sep {
            assert(split_on(s, sep) =~= p + split_on(b, sep));
        } else {
            assert((p + q).update((p + q).len() - 1, (p + q).last().push(b.last()))
                =~= p + q.update(q.len() - 1, q.last().push(b.last())));
        }
    }
}

/// The first value for `prefix` among two runs of pieces.
proof fn lemma_first_value_concat(p: Seq<Seq<char>>, q: Seq<Seq<char>>, prefix: Seq<char>)
    ensures
        first_value(p + q, prefix) == (if first_value(p, prefix) is Some { first_value(p, prefix) } else { first_value(q, prefix) }),
    decreases p.len(),
{
    if p.len() == 0 {
        assert(p + q =~= q);
    } else {
        assert((p + q).drop_first() =~= p.drop_first() + q);
        assert((p + q)[0] == p[0]);
        lemma_first_value_concat(p.drop_first(), q, prefix);
    }
}

/// Leading white space does not change what trimming the start leaves.
proof fn lemma_trim_start_spaces(spaces: Seq<char>, s: Seq<char>)
    requires
        forall|i: int| 0 <= i < spaces.len() ==> is_white_space(#[trigger] spaces[i]),
    ensures
        trim_start(spaces + s) == trim_start(s),
    decreases spaces.len(),
{
    if spaces.len() == 0 {
        assert(spaces + s =~= s);
    } else {
        assert((spaces + s)[0] == spaces[0]);
        assert((spaces + s).drop_first() =~= spaces.drop_first() + s);
        lemma_trim_start_spaces(spaces.drop_first(), s);
    }
}

/// The pieces of a piece without separators followed by nothing or by a
/// separator and more: that piece comes first.
proof fn lemma_split_first_piece(piece: Seq<char>, tail: Seq<char>, sep: char)
    requires
        forall|i: int| 0 <= i < piece.len() ==> piece[i] != sep,
        tail.len() == 0 || tail[0] == sep,
    ensures
        split_on(piece + tail, sep).len() >= 1,
        split_on(piece + tail, sep)[0] == piece,
{
    lemma_split_without_sep(piece, sep);
    if tail.len() == 0 {
        assert(piece + tail =~= piece);
    } else {
        assert(piece + tail =~= piece + seq![sep] + tail.drop_first());
        lemma_split_concat(piece, tail.drop_first(), sep);
        lemma_split_nonempty(tail.drop_first(), sep);
    }
}

/// A cookie `prefix` followed by `value`, preceded by white space and
/// followed by nothing or by ';' and more cookies, gives `value` for
/// `prefix` when it comes first in the cookie string, and also when it
/// comes after other cookies of which none has that name.
pub proof fn lemma_cookie_among_others(others: Seq<char>, spaces: Seq<char>, prefix: Seq<char>, value: Seq<char>, tail: Seq<char>)
    requires
        cookie_value_of(others, prefix) is None,
        forall|i: int| 0 <= i < spaces.len() ==> is_white_space(#[trigger] spaces[i]),
        prefix.len() > 0,
        forall|i: int| 0 <= i < (prefix + value).len() ==> (prefix + value)[i] != ';',
        !is_white_space((prefix + value)[0]),
        !is_white_space((prefix + value).last()),
        tail.len() == 0 || tail[0] == ';',
    ensures
        cookie_value_of(spaces + (prefix + value) + tail, prefix) == Some(value),
        cookie_value_of(others + seq![';'] + spaces + (prefix + value) + tail, prefix) == Some(value),
{
    let core = prefix + value;
    let piece = spaces + core;
    assert forall|i: int| 0 <= i < piece.len() implies piece[i] != ';' by {
        if i < spaces.len() {
            assert(piece[i] == spaces[i]);
            assert(is_white_space(spaces[i]));
        } else {
            assert(piece[i] == core[i - spaces.len()]);
        }
    }
    lemma_split_first_piece(piece, tail, ';');
    lemma_trim_start_spaces(spaces, core);
    assert(trim_start(core) == core);
    assert(trim_end(core) == core);
    assert(trim(piece) == core);
    assert(core.take(prefix.len() as int) =~= prefix);
    assert(core.skip(prefix.len() as int) =~= value);
    assert(spaces + (prefix + value) + tail =~= piece + tail);
    let all = others + seq![';'] + spaces + (prefix + value) + tail;
    assert(all =~= others + seq![';'] + (piece + tail));
    lemma_split_concat(others, piece + tail, ';');
    lemma_first_value_concat(split_on(others, ';'), split_on(piece + tail, ';'), prefix);
}

/// Splits a character vector at each `sep`.
pub(crate) fn split_chars(s: &Vec<char>, sep: char) -> (r: Vec<Vec<char>>)
    ensures
        r@.len() == split_on(s@, sep).len(),
        forall|i: int| 0 <= i < r@.len() ==> (#[trigger] r@[i])@ == split_on(s@, sep)[i],
{
    let mut pieces: Vec<Vec<char>> = Vec::new();
    let mut cur: Vec<char> = Vec::new();
    let mut i: usize = 0;
    proof {
        assert(s@.take(0) =~= Seq::<char>::empty());
    }
    while i < s.len()
        invariant
            i <= s.len(),
            split_on(s@.take(i as int), sep).len() == pieces@.len() + 1,
            forall|j: int| 0 <= j < pieces@.len() ==> (#[trigger] pieces@[j])@ == split_on(s@.take(i as int), sep)[j],
            cur@ == split_on(s@.take(i as int), sep).last(),
        decreases s.len() - i,
    {
        let c = s[i];
        proof {
            assert(s@.take(i + 1).drop_last() =~= s@.take(i as int));
            assert(s@.take(i + 1).last() == c);
            lemma_split_nonempty(s@.take(i as int), sep);
        }
        if c == sep {
            let ghost before = pieces@;
            pieces.push(cur);
            cur = Vec::new();
            proof {
                assert forall|j: int| 0 <= j < pieces@.len() implies (#[trigger] pieces@[j])@ == split_on(s@.take(i + 1), sep)[j] by {
                    if j < before.len() {
                        assert(pieces@[j] == before[j]);
                    }
                }
                assert(cur@ =~= Seq::<char>::empty());
            }
        } else {
            cur.push(c);
        }
        i = i + 1;
    }
    let ghost before = pieces@;
    pieces.push(cur);
    proof {
        assert(s@.take(s.len() as int) =~= s@);
        assert forall|j: int| 0 <= j < pieces@.len() implies (#[trigger] pieces@[j])@ == split_on(s@, sep)[j] by {
            if j < before.len() {
                assert(pieces@[j] == before[j]);
            }
        }
    }
    pieces
}

/// Trims white space from both ends of a character vector.
fn trim_chars(s: &Vec<char>) -> (r: Vec<char>)
    ensures
        r@ == trim(s@),
{
    let mut i: usize = 0;
    assert(s@.skip(0) =~= s@);
    while i < s.len() && white_space(s[i])
        invariant
            i <= s.len(),
            trim_start(s@) == trim_start(s@.skip(i as int)),
        decreases s.len() - i,
    {
        assert(s@.skip(i as int).drop_first() =~= s@.skip(i + 1));
        i = i + 1;
    }
    let ghost start = s@.skip(i as int);
    assert(trim_start(start) == start);
    let mut j: usize = s.len();
    assert(s@.subrange(i as int, j as int) =~= start);
    while j > i && white_space(s[j - 1])
        invariant
            i <= j <= s.len(),
            trim_end(start) == trim_end(s@.subrange(i as int, j as int)),
        decreases j,
    {
        assert(s@.subrange(i as int, j as int).drop_last() =~= s@.subrange(i as int, j - 1));
        j = j - 1;
    }
    let mut r: Vec<char> = Vec::new();
    let mut k: usize = i;
    while k < j
        invariant
            i <= k <= j <= s.len(),
            r@ == s@.subrange(i as int, k as int),
        decreases j - k,
    {
        r.push(s[k]);
        assert(s@.subrange(i as int, k + 1) =~= s@.subrange(i as int, k as int).push(s@[k as int]));
        k = k + 1;
    }
    r
}

/// Whether `s` begins with `prefix`.
fn starts_with(s: &Vec<char>, prefix: &Vec<char>) -> (r: bool)
    ensures
        r == has_prefix(s@, prefix@),
{
    if prefix.len() > s.len() {
        return false;
    }
    let mut i: usize = 0;
    while i < prefix.len()
        invariant
            prefix.len() <= s.len(),
            i <= prefix.len(),
            s@.take(i as int) == prefix@.take(i as int),
        decreases prefix.len() - i,
    {
        if s[i] != prefix[i] {
            assert(s@.take(prefix@.len() as int)[i as int] != prefix@[i as int]);
            return false;
        }
        assert(s@.take(i + 1) =~= s@.take(i as int).push(s@[i as int]));
        assert(prefix@.take(i + 1) =~= prefix@.take(i as int).push(prefix@[i as int]));
        i = i + 1;
    }
    assert(prefix@.take(prefix@.len() as int) =~= prefix@);
    true
}

/// The value of the cookie whose name and '=' are `prefix`, as the pages
/// read it: the first piece of the cookie string that, trimmed, begins with
/// `prefix`, without that prefix.
pub fn cookie_value(cookies: &str, prefix: &str) -> (r: Option<String>)
    ensures
        r matches Some(v) ==> cookie_value_of(cookies@, prefix@) == Some(v@),
        r is None ==> cookie_value_of(cookies@, prefix@) is None,
{
    let cs = chars_of(cookies);
    let ps = chars_of(prefix);
    let pieces = split_chars(&cs, ';');
    let ghost all = split_on(cookies@, ';');
    let mut i: usize = 0;
    assert(all.skip(0) =~= all);
    while i < pieces.len()
        invariant
            i <= pieces.len(),
            ps@ == prefix@,
            all == split_on(cookies@, ';'),
            pieces@.len() == all.len(),
            forall|j: int| 0 <= j < pieces@.len() ==> (#[trigger] pieces@[j])@ == all[j],
            first_value(all, prefix@) == first_value(all.skip(i as int), prefix@),
        decreases pieces.len() - i,
    {
        let t = trim_chars(&pieces[i]);
        assert(all.skip(i as int)[0] == all[i as int]);
        if starts_with(&t, &ps) {
            let mut v: Vec<char> = Vec::new();
            let mut k: usize = ps.len();
            while k < t.len()
                invariant
                    ps.len() <= k <= t.len(),
                    v@ == t@.subrange(ps.len() as int, k as int),
                decreases t.len() - k,
            {
                v.push(t[k]);
                assert(t@.subrange(ps.len() as int, k + 1) =~= t@.subrange(ps.len() as int, k as int).push(t@[k as int]));
                k = k + 1;
            }
            assert(t@.skip(ps.len() as int) =~= v@);
            return Some(string_of(&v));
        }
        assert(all.skip(i as int).drop_first() =~= all.skip(i + 1));
        i = i + 1;
    }
    None
}

} // verus!
