//! Shape rules for the subtag classes of RFC 5646, each as a predicate
//! on one hyphen-delimited token together with its executable decision
//! procedure.
//!
//! The language slot follows the registered grammar: two or three
//! letters, or a registered five-to-eight character subtag; a reserved
//! four-letter language subtag is not accepted.

use vstd::prelude::*;
use vstd::string::StrSliceExecFns;
use crate::text::char_is_alpha;
use crate::text::char_is_digit;
use crate::text::char_is_alnum;
use crate::text::is_alpha;
use crate::text::is_digit;
use crate::text::is_alnum;

verus! {

/// Every character of `t` is an ASCII letter.
pub open spec fn all_alpha(t: Seq<char>) -> bool {
    forall|k: int| 0 <= k < t.len() ==> char_is_alpha(#[trigger] t[k])
}

/// Every character of `t` is an ASCII digit.
pub open spec fn all_digit(t: Seq<char>) -> bool {
    forall|k: int| 0 <= k < t.len() ==> char_is_digit(#[trigger] t[k])
}

/// Every character of `t` is an ASCII letter or digit.
pub open spec fn all_alnum(t: Seq<char>) -> bool {
    forall|k: int| 0 <= k < t.len() ==> char_is_alnum(#[trigger] t[k])
}

/// Primary language subtag: two or three letters, or a registered
/// subtag of five to eight letters and digits.
pub open spec fn valid_language(t: Seq<char>) -> bool {
    (2 <= t.len() <= 3 && all_alpha(t)) || (5 <= t.len() <= 8 && all_alnum(t))
}

/// Extended language subtag: exactly three letters.
pub open spec fn valid_extlang(t: Seq<char>) -> bool {
    t.len() == 3 && all_alpha(t)
}

/// Script subtag: exactly four letters.
pub open spec fn valid_script(t: Seq<char>) -> bool {
    t.len() == 4 && all_alpha(t)
}

/// Region subtag: two letters or three digits.
pub open spec fn valid_region(t: Seq<char>) -> bool {
    (t.len() == 2 && all_alpha(t)) || (t.len() == 3 && all_digit(t))
}

/// Variant subtag: five to eight letters and digits, or exactly four
/// characters starting with a digit.
pub open spec fn valid_variant(t: Seq<char>) -> bool {
    (5 <= t.len() <= 8 && all_alnum(t)) || (t.len() == 4 && char_is_digit(t[0]))
}

/// Extension singleton: one letter or digit other than `x`.
pub open spec fn valid_singleton(t: Seq<char>) -> bool {
    t.len() == 1 && char_is_alnum(t[0]) && t[0] != 'x'
}

/// Extension part: two to eight letters and digits.
pub open spec fn valid_ext_part(t: Seq<char>) -> bool {
    2 <= t.len() <= 8 && all_alnum(t)
}

/// Private-use part: one to eight letters and digits.
pub open spec fn valid_priv_part(t: Seq<char>) -> bool {
    1 <= t.len() <= 8 && all_alnum(t)
}

/// The literal token `x` that introduces the private-use group.
pub open spec fn is_priv_marker(t: Seq<char>) -> bool {
    t =~= seq!['x']
}

/// Decides `all_alpha`.
pub fn check_all_alpha(t: &str) -> (r: bool)
    ensures
        r == all_alpha(t@),
{
    let n = t.unicode_len();
    let mut i: usize = 0;
    while i < n
        invariant
            i <= n,
            n == t@.len(),
            forall|k: int| 0 <= k < i ==> char_is_alpha(#[trigger] t@[k]),
        decreases n - i,
    {
        if !is_alpha(t.get_char(i)) {
            return false;
        }
        i = i + 1;
    }
    true
}

/// Decides `all_digit`.
pub fn check_all_digit(t: &str) -> (r: bool)
    ensures
        r == all_digit(t@),
{
    let n = t.unicode_len();
    let mut i: usize = 0;
    while i < n
        invariant
            i <= n,
            n == t@.len(),
            forall|k: int| 0 <= k < i ==> char_is_digit(#[trigger] t@[k]),
        decreases n - i,
    {
        if !is_digit(t.get_char(i)) {
            return false;
        }
        i = i + 1;
    }
    true
}

/// Decides `all_alnum`.
pub fn check_all_alnum(t: &str) -> (r: bool)
    ensures
        r == all_alnum(t@),
{
    let n = t.unicode_len();
    let mut i: usize = 0;
    while i < n
        invariant
            i <= n,
            n == t@.len(),
            forall|k: int| 0 <= k < i ==> char_is_alnum(#[trigger] t@[k]),
        decreases n - i,
    {
        if !is_alnum(t.get_char(i)) {
            return false;
        }
        i = i + 1;
    }
    true
}

/// Decides `valid_language`.
pub fn check_language(t: &str) -> (r: bool)
    ensures
        r == valid_language(t@),
{
    let n = t.unicode_len();
    (2 <= n && n <= 3 && check_all_alpha(t)) || (5 <= n && n <= 8 && check_all_alnum(t))
}

/// Decides `valid_extlang`.
pub fn check_extlang(t: &str) -> (r: bool)
    ensures
        r == valid_extlang(t@),
{
    t.unicode_len() == 3 && check_all_alpha(t)
}

/// Decides `valid_script`.
pub fn check_script(t: &str) -> (r: bool)
    ensures
        r == valid_script(t@),
{
    t.unicode_len() == 4 && check_all_alpha(t)
}

/// Decides `valid_region`.
pub fn check_region(t: &str) -> (r: bool)
    ensures
        r == valid_region(t@),
{
    let n = t.unicode_len();
    (n == 2 && check_all_alpha(t)) || (n == 3 && check_all_digit(t))
}

/// Decides `valid_variant`.
pub fn check_variant(t: &str) -> (r: bool)
    ensures
        r == valid_variant(t@),
{
    let n = t.unicode_len();
    (5 <= n && n <= 8 && check_all_alnum(t)) || (n == 4 && is_digit(t.get_char(0)))
}

/// Decides `valid_singleton`.
pub fn check_singleton(t: &str) -> (r: bool)
    ensures
        r == valid_singleton(t@),
{
    t.unicode_len() == 1 && is_alnum(t.get_char(0)) && t.get_char(0) != 'x'
}

/// Decides `valid_ext_part`.
pub fn check_ext_part(t: &str) -> (r: bool)
    ensures
        r == valid_ext_part(t@),
{
    let n = t.unicode_len();
    2 <= n && n <= 8 && check_all_alnum(t)
}

/// Decides `valid_priv_part`.
pub fn check_priv_part(t: &str) -> (r: bool)
    ensures
        r == valid_priv_part(t@),
{
    let n = t.unicode_len();
    1 <= n && n <= 8 && check_all_alnum(t)
}

/// Decides `is_priv_marker`.
pub fn check_priv_marker(t: &str) -> (r: bool)
    ensures
        r == is_priv_marker(t@),
{
    let r = t.unicode_len() == 1 && t.get_char(0) == 'x';
    proof {
        if r {
            assert(t@ =~= seq!['x']);
        }
    }
    r
}

} // verus!
