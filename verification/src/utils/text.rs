//! Verified text helpers: equality, searching, splitting and trimming over
//! `&str`, specified against the character-sequence views.

use vstd::prelude::*;
use vstd::string::StrSliceExecFns;

verus! {

/// Character-wise string equality: `true` exactly when the views agree.
pub fn str_eq(a: &str, b: &str) -> (r: bool)
    ensures
        r <==> a@ == b@,
{
    let n = a.unicode_len();
    if n != b.unicode_len() {
        return false;
    }
    let mut i: usize = 0;
    while i < n
        invariant
            i <= n,
            n == a@.len(),
            n == b@.len(),
            forall|j: int| 0 <= j < i ==> a@[j] == b@[j],
        decreases n - i,
    {
        if a.get_char(i) != b.get_char(i) {
            return false;
        }
        i = i + 1;
    }
    proof {
        assert(a@ =~= b@);
    }
    true
}

/// Splitting a character sequence on a separator, defined character by
/// character: the result always has one piece more than there are
/// separators, and empty pieces are kept.
pub open spec fn spec_split(s: Seq<char>, sep: char) -> Seq<Seq<char>>
    decreases s.len(),
{
    if s.len() == 0 {
        seq![Seq::<char>::empty()]
    } else if s[0] == sep {
        seq![Seq::<char>::empty()] + spec_split(s.drop_first(), sep)
    } else {
        let rest = spec_split(s.drop_first(), sep);
        seq![seq![s[0]] + rest[0]] + rest.drop_first()
    }
}

pub proof fn lemma_split_len(s: Seq<char>, sep: char)
    ensures
        spec_split(s, sep).len() >= 1,
    decreases s.len(),
{
    if s.len() != 0 {
        lemma_split_len(s.drop_first(), sep);
    }
}

/// No piece of a split contains the separator.
pub proof fn lemma_split_free_of_sep(s: Seq<char>, sep: char)
    ensures
        forall|k: int|
            0 <= k < spec_split(s, sep).len() ==> !(#[trigger] spec_split(s, sep)[k]).contains(
                sep,
            ),
    decreases s.len(),
{
    lemma_split_len(s, sep);
    if s.len() == 0 {
        assert forall|k: int| 0 <= k < spec_split(s, sep).len() implies !(#[trigger] spec_split(
            s,
            sep,
        )[k]).contains(sep) by {
            assert(spec_split(s, sep)[k].len() == 0);
        }
    } else {
        lemma_split_free_of_sep(s.drop_first(), sep);
        lemma_split_len(s.drop_first(), sep);
        let rest = spec_split(s.drop_first(), sep);
        if s[0] == sep {
            assert forall|k: int| 0 <= k < spec_split(s, sep).len() implies !(
            #[trigger] spec_split(s, sep)[k]).contains(sep) by {
                if k == 0 {
                    assert(spec_split(s, sep)[0].len() == 0);
                } else {
                    assert(spec_split(s, sep)[k] == rest[k - 1]);
                }
            }
        } else {
            assert forall|k: int| 0 <= k < spec_split(s, sep).len() implies !(
            #[trigger] spec_split(s, sep)[k]).contains(sep) by {
                if k == 0 {
                    assert(spec_split(s, sep)[0] == seq![s[0]] + rest[0]);
                    assert(!rest[0].contains(sep));
                    assert forall|j: int| 0 <= j < spec_split(s, sep)[0].len() implies spec_split(
                        s,
                        sep,
                    )[0][j] != sep by {
                        if j > 0 {
                            assert(spec_split(s, sep)[0][j] == rest[0][j - 1]);
                        }
                    }
                } else {
                    assert(spec_split(s, sep)[k] == rest.drop_first()[k - 1]);
                    assert(rest.drop_first()[k - 1] == rest[k]);
                }
            }
        }
    }
}

/// The first piece, extended at the front by `cur`, then the remaining
/// pieces: the shape of a split whose first separator has not been seen yet.
spec fn split_with_prefix(rest: Seq<Seq<char>>, cur: Seq<char>) -> Seq<Seq<char>>
    recommends
        rest.len() >= 1,
{
    seq![cur + rest[0]] + rest.drop_first()
}

/// Splits `s` on `sep`, keeping empty pieces, exactly as [`spec_split`] says.
pub fn split_on(s: &str, sep: char) -> (r: Vec<String>)
    ensures
        r.deep_view() == spec_split(s@, sep),
        r.len() >= 1,
{
    let n = s.unicode_len();
    let mut pieces: Vec<String> = Vec::new();
    let mut start: usize = 0;
    let mut i: usize = 0;
    proof {
        lemma_split_len(s@, sep);
        assert(s@.subrange(0, n as int) =~= s@);
        assert(s@.subrange(0, 0) =~= Seq::<char>::empty());
        let r0 = spec_split(s@, sep);
        assert(Seq::<char>::empty() + r0[0] =~= r0[0]);
        assert(split_with_prefix(r0, Seq::<char>::empty()) =~= r0);
        assert(pieces.deep_view() =~= Seq::<Seq<char>>::empty());
    }
    while i < n
        invariant
            start <= i <= n,
            n == s@.len(),
            spec_split(s@.subrange(i as int, n as int), sep).len() >= 1,
            spec_split(s@, sep) =~= pieces.deep_view() + split_with_prefix(
                spec_split(s@.subrange(i as int, n as int), sep),
                s@.subrange(start as int, i as int),
            ),
        decreases n - i,
    {
        let ghost tail_i = s@.subrange(i as int, n as int);
        let ghost tail_i1 = s@.subrange(i as int + 1, n as int);
        let ghost cur = s@.subrange(start as int, i as int);
        proof {
            lemma_split_len(tail_i1, sep);
            assert(tail_i.len() > 0);
            assert(tail_i[0] == s@[i as int]);
            assert(tail_i.drop_first() =~= tail_i1);
        }
        let c = s.get_char(i);
        if c == sep {
            let piece = s.substring_char(start, i).to_owned();
            let ghost prev = pieces.deep_view();
            pieces.push(piece);
            proof {
                let rest1 = spec_split(tail_i1, sep);
                assert(spec_split(tail_i, sep) == seq![Seq::<char>::empty()] + rest1);
                assert(split_with_prefix(spec_split(tail_i, sep), cur) =~= seq![cur] + rest1);
                assert(cur + Seq::<char>::empty() =~= cur);
                assert(Seq::<char>::empty() + rest1[0] =~= rest1[0]);
                assert(seq![cur] + rest1 =~= seq![cur] + split_with_prefix(
                    rest1,
                    Seq::<char>::empty(),
                ));
                assert(pieces.deep_view() =~= prev + seq![cur]);
                assert(s@.subrange(i as int + 1, i as int + 1) =~= Seq::<char>::empty());
            }
            start = i + 1;
        } else {
            proof {
                let rest1 = spec_split(tail_i1, sep);
                assert(spec_split(tail_i, sep) == seq![seq![s@[i as int]] + rest1[0]]
                    + rest1.drop_first());
                assert(cur + (seq![s@[i as int]] + rest1[0]) =~= (cur + seq![s@[i as int]])
                    + rest1[0]);
                assert(cur + seq![s@[i as int]] =~= s@.subrange(start as int, i as int + 1));
                assert(split_with_prefix(spec_split(tail_i, sep), cur) =~= split_with_prefix(
                    rest1,
                    s@.subrange(start as int, i as int + 1),
                ));
            }
        }
        i = i + 1;
    }
    let last = s.substring_char(start, n).to_owned();
    let ghost prev = pieces.deep_view();
    pieces.push(last);
    proof {
        let cur = s@.subrange(start as int, n as int);
        let tail = s@.subrange(n as int, n as int);
        assert(tail =~= Seq::<char>::empty());
        assert(spec_split(tail, sep) == seq![Seq::<char>::empty()]);
        assert(cur + Seq::<char>::empty() =~= cur);
        assert(split_with_prefix(spec_split(tail, sep), cur) =~= seq![cur]);
        assert(pieces.deep_view() =~= prev + seq![cur]);
        lemma_split_len(s@, sep);
    }
    pieces
}

/// The position of the first occurrence of `c` in `s`, if any.
pub open spec fn spec_find(s: Seq<char>, c: char) -> Option<int>
    decreases s.len(),
{
    if s.len() == 0 {
        None
    } else if s[0] == c {
        Some(0int)
    } else {
        match spec_find(s.drop_first(), c) {
            Some(i) => Some(i + 1),
            None => None,
        }
    }
}

/// `spec_find` names the first occurrence: the character is there, and
/// nothing before it matches.
pub proof fn lemma_find_first(s: Seq<char>, c: char)
    ensures
        match spec_find(s, c) {
            Some(i) => 0 <= i < s.len() && s[i] == c && forall|j: int| 0 <= j < i ==> s[j] != c,
            None => forall|j: int| 0 <= j < s.len() ==> s[j] != c,
        },
    decreases s.len(),
{
    if s.len() > 0 && s[0] != c {
        lemma_find_first(s.drop_first(), c);
        let d = s.drop_first();
        assert(forall|j: int| 0 <= j < d.len() ==> #[trigger] d[j] == s[j + 1]);
        match spec_find(d, c) {
            Some(i) => {
                assert(s[i + 1] == d[i]);
                assert forall|j: int| 0 <= j < i + 1 implies s[j] != c by {
                    if j > 0 {
                        assert(d[j - 1] == s[j]);
                    }
                }
            },
            None => {
                assert forall|j: int| 0 <= j < s.len() implies s[j] != c by {
                    if j > 0 {
                        assert(d[j - 1] == s[j]);
                    }
                }
            },
        }
    }
}

/// Finds the first occurrence of `c`, exactly as [`spec_find`] says.
pub fn find_char(s: &str, c: char) -> (r: Option<usize>)
    ensures
        match r {
            Some(i) => spec_find(s@, c) == Some(i as int),
            None => spec_find(s@, c) is None,
        },
{
    proof {
        lemma_find_first(s@, c);
    }
    let n = s.unicode_len();
    let mut i: usize = 0;
    while i < n
        invariant
            i <= n,
            n == s@.len(),
            forall|j: int| 0 <= j < i ==> s@[j] != c,
            match spec_find(s@, c) {
                Some(k) => 0 <= k < s@.len() && s@[k] == c && forall|j: int|
                    0 <= j < k ==> s@[j] != c,
                None => forall|j: int| 0 <= j < s@.len() ==> s@[j] != c,
            },
        decreases n - i,
    {
        if s.get_char(i) == c {
            proof {
                match spec_find(s@, c) {
                    Some(k) => {
                        assert(!(k < i as int) && !(k > i as int));
                    },
                    None => {
                        assert(false);
                    },
                }
            }
            return Some(i);
        }
        i = i + 1;
    }
    None
}

/// The two sides of `s` around its first `c`, if `s` contains one.
pub open spec fn spec_split_once(s: Seq<char>, c: char) -> Option<(Seq<char>, Seq<char>)> {
    match spec_find(s, c) {
        Some(i) => Some((s.subrange(0, i), s.subrange(i + 1, s.len() as int))),
        None => None,
    }
}

/// Splits at the first occurrence of `c`, exactly as [`spec_split_once`] says.
pub fn split_once_at(s: &str, c: char) -> (r: Option<(String, String)>)
    ensures
        match r {
            Some(kv) => spec_split_once(s@, c) matches Some(p) && kv.0@ == p.0 && kv.1@ == p.1,
            None => spec_split_once(s@, c) is None,
        },
{
    proof {
        lemma_find_first(s@, c);
    }
    match find_char(s, c) {
        Some(i) => {
            let n = s.unicode_len();
            let left = s.substring_char(0, i).to_owned();
            let right = s.substring_char(i + 1, n).to_owned();
            Some((left, right))
        },
        None => None,
    }
}

/// Whether `c` has the Unicode `White_Space` property, the class `str::trim`
/// removes.
pub open spec fn spec_is_space(c: char) -> bool {
    ||| c == ' '
    ||| c == '\t'
    ||| c == '\n'
    ||| c == '\u{b}'
    ||| c == '\u{c}'
    ||| c == '\r'
    ||| c == '\u{85}'
    ||| c == '\u{a0}'
    ||| c == '\u{1680}'
    ||| c == '\u{2000}'
    ||| c == '\u{2001}'
    ||| c == '\u{2002}'
    ||| c == '\u{2003}'
    ||| c == '\u{2004}'
    ||| c == '\u{2005}'
    ||| c == '\u{2006}'
    ||| c == '\u{2007}'
    ||| c == '\u{2008}'
    ||| c == '\u{2009}'
    ||| c == '\u{200a}'
    ||| c == '\u{2028}'
    ||| c == '\u{2029}'
    ||| c == '\u{202f}'
    ||| c == '\u{205f}'
    ||| c == '\u{3000}'
}

/// Whether `c` is whitespace in the sense of [`spec_is_space`].
pub fn is_space(c: char) -> (r: bool)
    ensures
        r == spec_is_space(c),
{
    match c {
        ' ' | '\t' | '\n' | '\u{b}' | '\u{c}' | '\r' | '\u{85}' | '\u{a0}' | '\u{1680}'
        | '\u{2000}' | '\u{2001}' | '\u{2002}' | '\u{2003}' | '\u{2004}' | '\u{2005}'
        | '\u{2006}' | '\u{2007}' | '\u{2008}' | '\u{2009}' | '\u{200a}' | '\u{2028}'
        | '\u{2029}' | '\u{202f}' | '\u{205f}' | '\u{3000}' => true,
        _ => false,
    }
}

/// `s` without its leading whitespace.
pub open spec fn spec_trim_start(s: Seq<char>) -> Seq<char>
    decreases s.len(),
{
    if s.len() > 0 && spec_is_space(s[0]) {
        spec_trim_start(s.drop_first())
    } else {
        s
    }
}

/// `s` without its trailing whitespace.
pub open spec fn spec_trim_end(s: Seq<char>) -> Seq<char>
    decreases s.len(),
{
    if s.len() > 0 && spec_is_space(s.last()) {
        spec_trim_end(s.drop_last())
    } else {
        s
    }
}

/// `s` without leading and trailing whitespace, as `str::trim` yields it.
pub open spec fn spec_trim(s: Seq<char>) -> Seq<char> {
    spec_trim_end(spec_trim_start(s))
}

/// Trims leading and trailing whitespace, exactly as [`spec_trim`] says.
pub fn trim(s: &str) -> (r: String)
    ensures
        r@ == spec_trim(s@),
{
    let n = s.unicode_len();
    let mut a: usize = 0;
    proof {
        assert(s@.subrange(0, n as int) =~= s@);
    }
    while a < n && is_space(s.get_char(a))
        invariant
            a <= n,
            n == s@.len(),
            spec_trim_start(s@) == spec_trim_start(s@.subrange(a as int, n as int)),
        decreases n - a,
    {
        proof {
            assert(s@.subrange(a as int, n as int).drop_first() =~= s@.subrange(
                a as int + 1,
                n as int,
            ));
        }
        a = a + 1;
    }
    proof {
        assert(spec_trim_start(s@) == s@.subrange(a as int, n as int));
    }
    let mut b: usize = n;
    while b > a && is_space(s.get_char(b - 1))
        invariant
            a <= b <= n,
            n == s@.len(),
            spec_trim_start(s@) == s@.subrange(a as int, n as int),
            spec_trim_end(s@.subrange(a as int, n as int)) == spec_trim_end(
                s@.subrange(a as int, b as int),
            ),
        decreases b,
    {
        proof {
            assert(s@.subrange(a as int, b as int).drop_last() =~= s@.subrange(
                a as int,
                b as int - 1,
            ));
            assert(s@.subrange(a as int, b as int).last() == s@[b as int - 1]);
        }
        b = b - 1;
    }
    proof {
        assert(spec_trim_end(s@.subrange(a as int, b as int)) == s@.subrange(
            a as int,
            b as int,
        ));
    }
    s.substring_char(a, b).to_owned()
}

/// A sequence without the separator splits into itself alone.
pub proof fn lemma_split_single(s: Seq<char>, sep: char)
    requires
        !s.contains(sep),
    ensures
        spec_split(s, sep) == seq![s],
    decreases s.len(),
{
    if s.len() == 0 {
        assert(s =~= Seq::<char>::empty());
        assert(spec_split(s, sep) =~~= seq![s]);
    } else {
        assert(s[0] != sep);
        let d = s.drop_first();
        assert(!d.contains(sep)) by {
            if d.contains(sep) {
                let i = choose|i: int| 0 <= i < d.len() && d[i] == sep;
                assert(s[i + 1] == sep);
            }
        }
        lemma_split_single(d, sep);
        let rest = spec_split(d, sep);
        assert(spec_split(s, sep) == seq![seq![s[0]] + rest[0]] + rest.drop_first());
        assert(rest == seq![d]);
        assert(rest[0] == d);
        assert(seq![s[0]] + d =~= s);
        assert(rest.drop_first() =~= Seq::<Seq<char>>::empty());
        assert(seq![seq![s[0]] + rest[0]] =~= seq![s]);
        assert(spec_split(s, sep) =~= seq![s]);
    }
}

/// Splitting a concatenation at its first separator: the prefix becomes the
/// first piece, the rest splits on its own.
pub proof fn lemma_split_concat(a: Seq<char>, y: Seq<char>, sep: char)
    requires
        !a.contains(sep),
    ensures
        spec_split(a + seq![sep] + y, sep) == seq![a] + spec_split(y, sep),
    decreases a.len(),
{
    let s = a + seq![sep] + y;
    if a.len() == 0 {
        assert(s.len() == y.len() + 1);
        assert(s[0] == sep);
        assert(s.drop_first() =~= y);
        assert(a =~= Seq::<char>::empty());
        assert(spec_split(s, sep) =~~= seq![a] + spec_split(y, sep));
    } else {
        assert(s[0] == a[0]);
        assert(a[0] != sep);
        let d = a.drop_first();
        assert(!d.contains(sep)) by {
            if d.contains(sep) {
                let i = choose|i: int| 0 <= i < d.len() && d[i] == sep;
                assert(a[i + 1] == sep);
            }
        }
        lemma_split_concat(d, y, sep);
        assert(s.drop_first() =~= d + seq![sep] + y);
        let rest = spec_split(s.drop_first(), sep);
        assert(spec_split(s, sep) == seq![seq![s[0]] + rest[0]] + rest.drop_first());
        assert(rest == seq![d] + spec_split(y, sep));
        assert(rest[0] == d);
        assert(seq![a[0]] + d =~= a);
        assert(seq![s[0]] + rest[0] == a);
        assert(rest.drop_first() =~= spec_split(y, sep));
        assert(spec_split(s, sep) =~= seq![a] + spec_split(y, sep));
    }
}

/// A character absent from the whole sequence is absent from every piece of
/// its split.
pub proof fn lemma_split_keeps_free(s: Seq<char>, sep: char, x: char)
    requires
        !s.contains(x),
    ensures
        forall|k: int|
            0 <= k < spec_split(s, sep).len() ==> !(#[trigger] spec_split(s, sep)[k]).contains(x),
    decreases s.len(),
{
    lemma_split_len(s, sep);
    if s.len() == 0 {
        assert forall|k: int| 0 <= k < spec_split(s, sep).len() implies !(#[trigger] spec_split(
            s,
            sep,
        )[k]).contains(x) by {
            assert(spec_split(s, sep)[k].len() == 0);
        }
    } else {
        let d = s.drop_first();
        assert(!d.contains(x)) by {
            if d.contains(x) {
                let i = choose|i: int| 0 <= i < d.len() && d[i] == x;
                assert(s[i + 1] == x);
            }
        }
        assert(s[0] != x);
        lemma_split_keeps_free(d, sep, x);
        lemma_split_len(d, sep);
        let rest = spec_split(d, sep);
        if s[0] == sep {
            assert forall|k: int| 0 <= k < spec_split(s, sep).len() implies !(
            #[trigger] spec_split(s, sep)[k]).contains(x) by {
                if k == 0 {
                    assert(spec_split(s, sep)[0].len() == 0);
                } else {
                    assert(spec_split(s, sep)[k] == rest[k - 1]);
                }
            }
        } else {
            assert forall|k: int| 0 <= k < spec_split(s, sep).len() implies !(
            #[trigger] spec_split(s, sep)[k]).contains(x) by {
                if k == 0 {
                    assert(spec_split(s, sep)[0] == seq![s[0]] + rest[0]);
                    assert(!rest[0].contains(x));
                    assert forall|j: int| 0 <= j < spec_split(s, sep)[0].len() implies spec_split(
                        s,
                        sep,
                    )[0][j] != x by {
                        if j > 0 {
                            assert(spec_split(s, sep)[0][j] == rest[0][j - 1]);
                        }
                    }
                } else {
                    assert(spec_split(s, sep)[k] == rest.drop_first()[k - 1]);
                    assert(rest.drop_first()[k - 1] == rest[k]);
                }
            }
        }
    }
}

/// A concatenation holds a character exactly when one of its parts does.
pub proof fn lemma_concat_contains(a: Seq<char>, b: Seq<char>, x: char)
    ensures
        (a + b).contains(x) <==> a.contains(x) || b.contains(x),
{
    if a.contains(x) {
        let i = choose|i: int| 0 <= i < a.len() && a[i] == x;
        assert((a + b)[i] == x);
    }
    if b.contains(x) {
        let i = choose|i: int| 0 <= i < b.len() && b[i] == x;
        assert((a + b)[a.len() + i] == x);
    }
    if (a + b).contains(x) {
        let i = choose|i: int| 0 <= i < (a + b).len() && (a + b)[i] == x;
        if i < a.len() {
            assert(a[i] == x);
        } else {
            assert(b[i - a.len()] == x);
        }
    }
}

proof fn lemma_trim_start_keeps_free(s: Seq<char>, x: char)
    requires
        !s.contains(x),
    ensures
        !spec_trim_start(s).contains(x),
    decreases s.len(),
{
    if s.len() > 0 && spec_is_space(s[0]) {
        let d = s.drop_first();
        assert(!d.contains(x)) by {
            if d.contains(x) {
                let i = choose|i: int| 0 <= i < d.len() && d[i] == x;
                assert(s[i + 1] == x);
            }
        }
        lemma_trim_start_keeps_free(d, x);
    }
}

proof fn lemma_trim_end_keeps_free(s: Seq<char>, x: char)
    requires
        !s.contains(x),
    ensures
        !spec_trim_end(s).contains(x),
    decreases s.len(),
{
    if s.len() > 0 && spec_is_space(s.last()) {
        let d = s.drop_last();
        assert(!d.contains(x)) by {
            if d.contains(x) {
                let i = choose|i: int| 0 <= i < d.len() && d[i] == x;
                assert(s[i] == x);
            }
        }
        lemma_trim_end_keeps_free(d, x);
    }
}

/// Trimming never introduces characters.
pub proof fn lemma_trim_keeps_free(s: Seq<char>, x: char)
    requires
        !s.contains(x),
    ensures
        !spec_trim(s).contains(x),
{
    lemma_trim_start_keeps_free(s, x);
    lemma_trim_end_keeps_free(spec_trim_start(s), x);
}

proof fn lemma_trim_start_head(s: Seq<char>)
    ensures
        spec_trim_start(s).len() > 0 ==> !spec_is_space(spec_trim_start(s)[0]),
    decreases s.len(),
{
    if s.len() > 0 && spec_is_space(s[0]) {
        lemma_trim_start_head(s.drop_first());
    }
}

proof fn lemma_trim_end_last(s: Seq<char>)
    ensures
        spec_trim_end(s).len() > 0 ==> !spec_is_space(spec_trim_end(s).last()),
    decreases s.len(),
{
    if s.len() > 0 && spec_is_space(s.last()) {
        lemma_trim_end_last(s.drop_last());
    }
}

proof fn lemma_trim_end_head(s: Seq<char>)
    ensures
        spec_trim_end(s).len() > 0 ==> spec_trim_end(s)[0] == s[0],
    decreases s.len(),
{
    if s.len() > 0 && spec_is_space(s.last()) {
        lemma_trim_end_head(s.drop_last());
    }
}

/// Trimming twice trims once: the result of a trim is already trimmed.
pub proof fn lemma_trim_idempotent(s: Seq<char>)
    ensures
        spec_trim(spec_trim(s)) == spec_trim(s),
{
    let u = spec_trim_start(s);
    let t = spec_trim_end(u);
    lemma_trim_start_head(s);
    lemma_trim_end_last(u);
    lemma_trim_end_head(u);
    if t.len() > 0 {
        assert(!spec_is_space(t[0]));
        assert(spec_trim_start(t) == t);
        assert(spec_trim_end(t) == t);
    }
}

} // verus!
