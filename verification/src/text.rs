//! Character-level groundwork: ASCII character classes, lexicographic
//! order on character sequences, and splitting a tag into its
//! hyphen-delimited tokens.

use vstd::prelude::*;
use vstd::string::StrSliceExecFns;
use vstd::string::StringExecFns;

verus! {

/// An ASCII letter.
pub open spec fn char_is_alpha(c: char) -> bool {
    ('a' <= c && c <= 'z') || ('A' <= c && c <= 'Z')
}

/// An ASCII decimal digit.
pub open spec fn char_is_digit(c: char) -> bool {
    '0' <= c && c <= '9'
}

/// An ASCII letter or digit.
pub open spec fn char_is_alnum(c: char) -> bool {
    char_is_alpha(c) || char_is_digit(c)
}

/// Decides `char_is_alpha`.
pub fn is_alpha(c: char) -> (b: bool)
    ensures
        b == char_is_alpha(c),
{
    ('a' <= c && c <= 'z') || ('A' <= c && c <= 'Z')
}

/// Decides `char_is_digit`.
pub fn is_digit(c: char) -> (b: bool)
    ensures
        b == char_is_digit(c),
{
    '0' <= c && c <= '9'
}

/// Decides `char_is_alnum`.
pub fn is_alnum(c: char) -> (b: bool)
    ensures
        b == char_is_alnum(c),
{
    is_alpha(c) || is_digit(c)
}

/// Lexicographic order on character sequences: the empty sequence comes
/// first, and otherwise the first differing character decides.
pub open spec fn chars_le(a: Seq<char>, b: Seq<char>) -> bool
    decreases a.len(),
{
    if a.len() == 0 {
        true
    } else if b.len() == 0 {
        false
    } else if a[0] == b[0] {
        chars_le(a.drop_first(), b.drop_first())
    } else {
        a[0] < b[0]
    }
}

/// `chars_le` relates every pair of sequences one way or the other.
pub proof fn lemma_chars_le_total(a: Seq<char>, b: Seq<char>)
    ensures
        chars_le(a, b) || chars_le(b, a),
    decreases a.len(),
{
    if a.len() > 0 && b.len() > 0 && a[0] == b[0] {
        lemma_chars_le_total(a.drop_first(), b.drop_first());
    }
}

/// `chars_le` both ways means the sequences are equal.
pub proof fn lemma_chars_le_antisym(a: Seq<char>, b: Seq<char>)
    requires
        chars_le(a, b),
        chars_le(b, a),
    ensures
        a == b,
    decreases a.len(),
{
    if a.len() > 0 && b.len() > 0 && a[0] == b[0] {
        lemma_chars_le_antisym(a.drop_first(), b.drop_first());
        assert(a =~= seq![a[0]].add(a.drop_first()));
        assert(b =~= seq![b[0]].add(b.drop_first()));
    }
}

/// `chars_le` is transitive.
pub proof fn lemma_chars_le_trans(a: Seq<char>, b: Seq<char>, c: Seq<char>)
    requires
        chars_le(a, b),
        chars_le(b, c),
    ensures
        chars_le(a, c),
    decreases a.len(),
{
    if a.len() > 0 && b.len() > 0 && c.len() > 0 && a[0] == b[0] && b[0] == c[0] {
        lemma_chars_le_trans(a.drop_first(), b.drop_first(), c.drop_first());
    }
}

/// Equal prefixes do not affect the order of the remainders.
proof fn lemma_chars_le_skip(a: Seq<char>, b: Seq<char>, i: int)
    requires
        0 <= i <= a.len(),
        i <= b.len(),
        forall|k: int| 0 <= k < i ==> a[k] == b[k],
    ensures
        chars_le(a, b) == chars_le(a.skip(i), b.skip(i)),
    decreases i,
{
    if i > 0 {
        lemma_chars_le_skip(a.drop_first(), b.drop_first(), i - 1);
        assert(a.drop_first().skip(i - 1) =~= a.skip(i));
        assert(b.drop_first().skip(i - 1) =~= b.skip(i));
    } else {
        assert(a.skip(0) =~= a);
        assert(b.skip(0) =~= b);
    }
}

/// Decides `chars_le` on two strings.
pub fn str_le(a: &str, b: &str) -> (r: bool)
    ensures
        r == chars_le(a@, b@),
{
    let na = a.unicode_len();
    let nb = b.unicode_len();
    let mut i: usize = 0;
    loop
        invariant
            i <= na,
            i <= nb,
            na == a@.len(),
            nb == b@.len(),
            forall|k: int| 0 <= k < i ==> a@[k] == b@[k],
        decreases na - i,
    {
        if i == na || i == nb {
            proof {
                lemma_chars_le_skip(a@, b@, i as int);
            }
            return i == na;
        }
        let ca = a.get_char(i);
        let cb = b.get_char(i);
        if ca != cb {
            proof {
                lemma_chars_le_skip(a@, b@, i as int);
                assert(a@.skip(i as int)[0] == ca);
                assert(b@.skip(i as int)[0] == cb);
            }
            return ca < cb;
        }
        i = i + 1;
    }
}

/// Relies on `String::push`: appends the one character to the end of
/// the string.
#[verifier::external_body]
pub fn push_char(s: &mut String, c: char)
    ensures
        final(s)@ == old(s)@.push(c),
{
    s.push(c);
}

/// Decides equality of two strings, at the level of their views.
pub fn str_eq(a: &str, b: &str) -> (r: bool)
    ensures
        r == (a@ == b@),
{
    let na = a.unicode_len();
    let nb = b.unicode_len();
    if na != nb {
        return false;
    }
    let mut i: usize = 0;
    while i < na
        invariant
            i <= na,
            na == a@.len(),
            na == b@.len(),
            forall|k: int| 0 <= k < i ==> a@[k] == b@[k],
        decreases na - i,
    {
        if a.get_char(i) != b.get_char(i) {
            return false;
        }
        i = i + 1;
    }
    proof {
        assert(a@ =~= b@);
    }
    true
}

/// Index of the first `-` in `s`, or the length of `s` if there is none.
pub open spec fn first_dash(s: Seq<char>) -> int
    decreases s.len(),
{
    if s.len() == 0 {
        0
    } else if s[0] == '-' {
        0
    } else {
        1 + first_dash(s.drop_first())
    }
}

/// `first_dash` is in range, nothing before it is a `-`, and what it
/// points at (when in range) is a `-`.
pub proof fn lemma_first_dash_bounds(s: Seq<char>)
    ensures
        0 <= first_dash(s) <= s.len(),
        forall|k: int| 0 <= k < first_dash(s) ==> s[k] != '-',
        first_dash(s) < s.len() ==> s[first_dash(s)] == '-',
    decreases s.len(),
{
    if s.len() > 0 && s[0] != '-' {
        lemma_first_dash_bounds(s.drop_first());
        assert forall|k: int| 0 <= k < first_dash(s) implies s[k] != '-' by {
            if k > 0 {
                assert(s.drop_first()[k - 1] != '-');
            }
        }
    }
}

/// A position with no `-` before it that is either the length or holds a
/// `-` is exactly `first_dash`.
pub proof fn lemma_first_dash_is(s: Seq<char>, j: int)
    requires
        0 <= j <= s.len(),
        forall|k: int| 0 <= k < j ==> s[k] != '-',
        j < s.len() ==> s[j] == '-',
    ensures
        first_dash(s) == j,
    decreases j,
{
    if j > 0 {
        lemma_first_dash_is(s.drop_first(), j - 1);
    }
}

/// The hyphen-delimited tokens of `s`, in order. Splitting the empty
/// sequence gives one empty token, as splitting on a separator does.
pub open spec fn split_dashes(s: Seq<char>) -> Seq<Seq<char>>
    decreases s.len(),
{
    let i = first_dash(s);
    if 0 <= i < s.len() {
        seq![s.take(i)].add(split_dashes(s.skip(i + 1)))
    } else {
        seq![s]
    }
}

/// Splitting never yields an empty token list.
pub proof fn lemma_split_dashes_len(s: Seq<char>)
    ensures
        split_dashes(s).len() >= 1,
{
    let i = first_dash(s);
    if 0 <= i < s.len() {
        assert(split_dashes(s) == seq![s.take(i)].add(split_dashes(s.skip(i + 1))));
    }
}

/// Splits a tag into its hyphen-delimited tokens.
pub fn split_tag(s: &str) -> (r: Vec<String>)
    ensures
        r.deep_view() == split_dashes(s@),
        r.len() >= 1,
{
    let n = s.unicode_len();
    let mut r: Vec<String> = Vec::new();
    let mut start: usize = 0;
    let mut i: usize = 0;
    proof {
        assert(s@.skip(0) =~= s@);
        assert(r.deep_view() =~= Seq::<Seq<char>>::empty());
        assert(r.deep_view().add(split_dashes(s@)) =~= split_dashes(s@));
    }
    loop
        invariant
            start <= i <= n,
            n == s@.len(),
            forall|k: int| start <= k < i ==> s@[k] != '-',
            split_dashes(s@) == r.deep_view().add(split_dashes(s@.skip(start as int))),
        decreases n - i,
    {
        if i == n {
            let tok = String::from_str(s.substring_char(start, i));
            proof {
                lemma_first_dash_is(s@.skip(start as int), i - start);
                assert(s@.skip(start as int).take(i - start) =~= s@.subrange(
                    start as int,
                    i as int,
                ));
                assert(split_dashes(s@.skip(start as int)) =~= seq![
                    s@.subrange(start as int, i as int),
                ]);
                assert(r.deep_view().push(tok@) =~= r.deep_view().add(seq![tok@]));
            }
            r.push(tok);
            proof {
                lemma_split_dashes_len(s@);
            }
            return r;
        }
        let c = s.get_char(i);
        if c == '-' {
            let tok = String::from_str(s.substring_char(start, i));
            proof {
                let t = s@.skip(start as int);
                lemma_first_dash_is(t, i - start);
                assert(t.take(i - start) =~= s@.subrange(start as int, i as int));
                assert(t[i - start] == '-');
                assert(t.skip(i - start + 1) =~= s@.skip(i as int + 1));
                assert(split_dashes(t) == seq![s@.subrange(start as int, i as int)].add(
                    split_dashes(s@.skip(i as int + 1)),
                ));
                assert(r.deep_view().push(tok@) =~= r.deep_view().add(seq![tok@]));
                assert(r.deep_view().push(tok@).add(split_dashes(s@.skip(i as int + 1)))
                    =~= r.deep_view().add(split_dashes(s@.skip(start as int))));
            }
            r.push(tok);
            start = i + 1;
        }
        i = i + 1;
    }
}

} // verus!
