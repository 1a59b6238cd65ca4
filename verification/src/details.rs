//! A fixed total order on diagnostics, and the normalization pass that
//! sorts a diagnostic list and removes exact duplicates.
//!
//! The order compares severity first (in declaration order), then the
//! key lexicographically, then the value by variant and payload. A
//! normalized list is strictly sorted under this order, which makes it
//! the unique such list holding a given set of diagnostics.

use vstd::prelude::*;
use vstd::relations::sorted_by;
use crate::model::Coding;
use crate::model::CodingView;
use crate::model::DetailView;
use crate::model::ParseDetail;
use crate::model::Severity;
use crate::model::ValueX;
use crate::model::ValueXView;
use crate::model::opt_str_view;
use crate::text::chars_le;
use crate::text::lemma_chars_le_total;
use crate::text::lemma_chars_le_antisym;
use crate::text::lemma_chars_le_trans;
use crate::text::str_le;

verus! {

/// Position of a severity in the fixed sort order.
pub open spec fn severity_rank(s: Severity) -> int {
    match s {
        Severity::Error => 0,
        Severity::Warning => 1,
        Severity::Information => 2,
        Severity::Success => 3,
    }
}

/// Position of a value variant in the fixed sort order.
pub open spec fn value_rank(v: ValueXView) -> int {
    match v {
        ValueXView::ValueString(_) => 0,
        ValueXView::ValueDateTime(_) => 1,
        ValueXView::ValueCode(_) => 2,
        ValueXView::ValueCoding(_) => 3,
        ValueXView::ValueDecimal(_) => 4,
    }
}

/// Order on optional character sequences: absent comes first.
pub open spec fn opt_chars_le(a: Option<Seq<char>>, b: Option<Seq<char>>) -> bool {
    match a {
        Option::None => true,
        Option::Some(x) => match b {
            Option::None => false,
            Option::Some(y) => chars_le(x, y),
        },
    }
}

/// Order on coding views: system, then code, then display.
pub open spec fn coding_le(a: CodingView, b: CodingView) -> bool {
    if a.system != b.system {
        opt_chars_le(a.system, b.system)
    } else if a.code != b.code {
        opt_chars_le(a.code, b.code)
    } else {
        opt_chars_le(a.display, b.display)
    }
}

/// Order on value views: variant rank, then payload.
pub open spec fn value_le(a: ValueXView, b: ValueXView) -> bool {
    if value_rank(a) != value_rank(b) {
        value_rank(a) < value_rank(b)
    } else {
        match a {
            ValueXView::ValueString(x) => chars_le(x, b->ValueString_0),
            ValueXView::ValueDateTime(x) => chars_le(x, b->ValueDateTime_0),
            ValueXView::ValueCode(x) => chars_le(x, b->ValueCode_0),
            ValueXView::ValueCoding(x) => coding_le(x, b->ValueCoding_0),
            ValueXView::ValueDecimal(x) => chars_le(x, b->ValueDecimal_0),
        }
    }
}

/// The full structural order on diagnostics: severity, then key, then
/// value.
pub open spec fn detail_le(a: DetailView, b: DetailView) -> bool {
    if severity_rank(a.severity) != severity_rank(b.severity) {
        severity_rank(a.severity) < severity_rank(b.severity)
    } else if a.key != b.key {
        chars_le(a.key, b.key)
    } else {
        value_le(a.value, b.value)
    }
}

/// The strict form of `detail_le`.
pub open spec fn detail_lt(a: DetailView, b: DetailView) -> bool {
    detail_le(a, b) && a != b
}

/// `detail_le`, as a first-class relation.
pub open spec fn detail_le_f() -> spec_fn(DetailView, DetailView) -> bool {
    |a: DetailView, b: DetailView| detail_le(a, b)
}

/// `detail_lt`, as a first-class relation.
pub open spec fn detail_lt_f() -> spec_fn(DetailView, DetailView) -> bool {
    |a: DetailView, b: DetailView| detail_lt(a, b)
}

/// A diagnostic list in normal form: strictly sorted, hence sorted and
/// free of exact duplicates.
pub open spec fn normalized_details(s: Seq<DetailView>) -> bool {
    sorted_by(s, detail_lt_f())
}

/// `chars_le` is a total order, stated over all pairs.
proof fn lemma_chars_le_facts()
    ensures
        forall|a: Seq<char>, b: Seq<char>| #[trigger] chars_le(a, b) || chars_le(b, a),
        forall|a: Seq<char>, b: Seq<char>|
            #[trigger] chars_le(a, b) && #[trigger] chars_le(b, a) ==> a == b,
        forall|a: Seq<char>, b: Seq<char>, c: Seq<char>|
            #[trigger] chars_le(a, b) && #[trigger] chars_le(b, c) ==> chars_le(a, c),
{
    assert forall|a: Seq<char>, b: Seq<char>| #[trigger] chars_le(a, b) || chars_le(b, a) by {
        lemma_chars_le_total(a, b);
    }
    assert forall|a: Seq<char>, b: Seq<char>|
        #[trigger] chars_le(a, b) && #[trigger] chars_le(b, a) implies a == b by {
        lemma_chars_le_antisym(a, b);
    }
    assert forall|a: Seq<char>, b: Seq<char>, c: Seq<char>|
        #[trigger] chars_le(a, b) && #[trigger] chars_le(b, c) implies chars_le(a, c) by {
        lemma_chars_le_trans(a, b, c);
    }
}

/// `opt_chars_le` is a total order.
proof fn lemma_opt_chars_le_facts()
    ensures
        forall|a: Option<Seq<char>>, b: Option<Seq<char>>|
            #[trigger] opt_chars_le(a, b) || opt_chars_le(b, a),
        forall|a: Option<Seq<char>>, b: Option<Seq<char>>|
            #[trigger] opt_chars_le(a, b) && #[trigger] opt_chars_le(b, a) ==> a == b,
        forall|a: Option<Seq<char>>, b: Option<Seq<char>>, c: Option<Seq<char>>|
            #[trigger] opt_chars_le(a, b) && #[trigger] opt_chars_le(b, c) ==> opt_chars_le(a, c),
{
    lemma_chars_le_facts();
}

/// `coding_le` is a total order.
proof fn lemma_coding_le_facts()
    ensures
        forall|a: CodingView, b: CodingView| #[trigger] coding_le(a, b) || coding_le(b, a),
        forall|a: CodingView, b: CodingView|
            #[trigger] coding_le(a, b) && #[trigger] coding_le(b, a) ==> a == b,
        forall|a: CodingView, b: CodingView, c: CodingView|
            #[trigger] coding_le(a, b) && #[trigger] coding_le(b, c) ==> coding_le(a, c),
{
    lemma_opt_chars_le_facts();
    assert forall|a: CodingView, b: CodingView|
        #[trigger] coding_le(a, b) && #[trigger] coding_le(b, a) implies a == b by {
        assert(a.system == b.system && a.code == b.code && a.display == b.display);
        assert(a =~= b);
    }
    assert forall|a: CodingView, b: CodingView, c: CodingView|
        #[trigger] coding_le(a, b) && #[trigger] coding_le(b, c) implies coding_le(a, c) by {
        if a.system == b.system && b.system == c.system {
        } else {
        }
    }
}

/// `value_le` is a total order.
proof fn lemma_value_le_facts()
    ensures
        forall|a: ValueXView, b: ValueXView| #[trigger] value_le(a, b) || value_le(b, a),
        forall|a: ValueXView, b: ValueXView|
            #[trigger] value_le(a, b) && #[trigger] value_le(b, a) ==> a == b,
        forall|a: ValueXView, b: ValueXView, c: ValueXView|
            #[trigger] value_le(a, b) && #[trigger] value_le(b, c) ==> value_le(a, c),
{
    lemma_chars_le_facts();
    lemma_coding_le_facts();
    assert forall|a: ValueXView, b: ValueXView|
        #[trigger] value_le(a, b) && #[trigger] value_le(b, a) implies a == b by {
        if value_rank(a) == value_rank(b) {
            match a {
                ValueXView::ValueString(x) => {
                    assert(a =~= b);
                },
                ValueXView::ValueDateTime(x) => {
                    assert(a =~= b);
                },
                ValueXView::ValueCode(x) => {
                    assert(a =~= b);
                },
                ValueXView::ValueCoding(x) => {
                    assert(a =~= b);
                },
                ValueXView::ValueDecimal(x) => {
                    assert(a =~= b);
                },
            }
        }
    }
}

/// `detail_le` is a total order, and `detail_lt` its strict form.
pub proof fn lemma_detail_le_facts()
    ensures
        forall|a: DetailView, b: DetailView| #[trigger] detail_le(a, b) || detail_le(b, a),
        forall|a: DetailView, b: DetailView|
            #[trigger] detail_le(a, b) && #[trigger] detail_le(b, a) ==> a == b,
        forall|a: DetailView, b: DetailView, c: DetailView|
            #[trigger] detail_le(a, b) && #[trigger] detail_le(b, c) ==> detail_le(a, c),
{
    lemma_chars_le_facts();
    lemma_value_le_facts();
    assert forall|a: DetailView, b: DetailView|
        #[trigger] detail_le(a, b) && #[trigger] detail_le(b, a) implies a == b by {
        assert(severity_rank(a.severity) == severity_rank(b.severity));
        assert(a.severity == b.severity);
        assert(a.key == b.key);
        assert(a.value == b.value);
        assert(a =~= b);
    }
}

/// Decides `severity_rank`.
fn severity_rank_exec(s: &Severity) -> (r: u8)
    ensures
        r as int == severity_rank(*s),
{
    match s {
        Severity::Error => 0,
        Severity::Warning => 1,
        Severity::Information => 2,
        Severity::Success => 3,
    }
}

/// Decides `value_rank`.
fn value_rank_exec(v: &ValueX) -> (r: u8)
    ensures
        r as int == value_rank(v@),
{
    match v {
        ValueX::ValueString(_) => 0,
        ValueX::ValueDateTime(_) => 1,
        ValueX::ValueCode(_) => 2,
        ValueX::ValueCoding(_) => 3,
        ValueX::ValueDecimal(_) => 4,
    }
}

/// Decides `opt_chars_le` on optional strings.
fn opt_str_le_exec(a: &Option<String>, b: &Option<String>) -> (r: bool)
    ensures
        r == opt_chars_le(opt_str_view(*a), opt_str_view(*b)),
{
    match a {
        Option::None => true,
        Option::Some(x) => match b {
            Option::None => false,
            Option::Some(y) => str_le(x.as_str(), y.as_str()),
        },
    }
}

/// Decides equality of optional strings, at the level of their views.
fn opt_str_eq_exec(a: &Option<String>, b: &Option<String>) -> (r: bool)
    ensures
        r == (opt_str_view(*a) == opt_str_view(*b)),
{
    match a {
        Option::None => match b {
            Option::None => true,
            Option::Some(_) => false,
        },
        Option::Some(x) => match b {
            Option::None => false,
            Option::Some(y) => *x == *y,
        },
    }
}

/// Decides `coding_le`.
fn coding_le_exec(a: &Coding, b: &Coding) -> (r: bool)
    ensures
        r == coding_le(a@, b@),
{
    if !opt_str_eq_exec(&a.system, &b.system) {
        opt_str_le_exec(&a.system, &b.system)
    } else if !opt_str_eq_exec(&a.code, &b.code) {
        opt_str_le_exec(&a.code, &b.code)
    } else {
        opt_str_le_exec(&a.display, &b.display)
    }
}

/// Decides `value_le`.
fn value_le_exec(a: &ValueX, b: &ValueX) -> (r: bool)
    ensures
        r == value_le(a@, b@),
{
    let ra = value_rank_exec(a);
    let rb = value_rank_exec(b);
    if ra != rb {
        ra < rb
    } else {
        match a {
            ValueX::ValueString(x) => match b {
                ValueX::ValueString(y) => str_le(x.as_str(), y.as_str()),
                _ => false,
            },
            ValueX::ValueDateTime(x) => match b {
                ValueX::ValueDateTime(y) => str_le(x.as_str(), y.as_str()),
                _ => false,
            },
            ValueX::ValueCode(x) => match b {
                ValueX::ValueCode(y) => str_le(x.as_str(), y.as_str()),
                _ => false,
            },
            ValueX::ValueCoding(x) => match b {
                ValueX::ValueCoding(y) => coding_le_exec(x, y),
                _ => false,
            },
            ValueX::ValueDecimal(x) => match b {
                ValueX::ValueDecimal(y) => str_le(x.as_str(), y.as_str()),
                _ => false,
            },
        }
    }
}

/// Decides `detail_le`.
pub fn detail_le_exec(a: &ParseDetail, b: &ParseDetail) -> (r: bool)
    ensures
        r == detail_le(a@, b@),
{
    let ra = severity_rank_exec(&a.severity);
    let rb = severity_rank_exec(&b.severity);
    if ra != rb {
        ra < rb
    } else if !(a.key == b.key) {
        str_le(a.key.as_str(), b.key.as_str())
    } else {
        value_le_exec(&a.value, &b.value)
    }
}

/// Sorts a diagnostic list by the structural order, keeping exactly
/// the same diagnostics.
pub fn sort_details(input: Vec<ParseDetail>) -> (r: Vec<ParseDetail>)
    ensures
        sorted_by(r.deep_view(), detail_le_f()),
        r.deep_view().to_multiset() == input.deep_view().to_multiset(),
{
    broadcast use vstd::seq_lib::group_to_multiset_ensures;

    let mut v = input;
    let mut r: Vec<ParseDetail> = Vec::new();
    proof {
        assert(r.deep_view() =~= Seq::<DetailView>::empty());
        assert(r.deep_view().to_multiset().add(v.deep_view().to_multiset())
            =~= input.deep_view().to_multiset());
    }
    while v.len() > 0
        invariant
            sorted_by(r.deep_view(), detail_le_f()),
            forall|p: int, q: int|
                0 <= p < r.deep_view().len() && 0 <= q < v.deep_view().len() ==> detail_le(
                    #[trigger] r.deep_view()[p],
                    #[trigger] v.deep_view()[q],
                ),
            r.deep_view().to_multiset().add(v.deep_view().to_multiset())
                == input.deep_view().to_multiset(),
        decreases v.len(),
    {
        let mut m: usize = 0;
        let mut j: usize = 1;
        proof {
            lemma_detail_le_facts();
            assert(detail_le(v.deep_view()[0], v.deep_view()[0]));
        }
        while j < v.len()
            invariant
                0 <= m < j <= v.len(),
                forall|k: int| 0 <= k < j ==> detail_le(v.deep_view()[m as int], #[trigger] v.deep_view()[k]),
            decreases v.len() - j,
        {
            let take_it = detail_le_exec(&v[j], &v[m]);
            proof {
                lemma_detail_le_facts();
            }
            if take_it {
                m = j;
            }
            j = j + 1;
        }
        let ghost v_old = v.deep_view();
        let ghost r_old = r.deep_view();
        let ghost v_shallow = v@;
        let d = v.remove(m);
        r.push(d);
        proof {
            lemma_detail_le_facts();
            assert(v.deep_view() =~= v_old.remove(m as int));
            assert(r.deep_view() =~= r_old.push(d@));
            assert(v_old[m as int] == v_shallow[m as int].deep_view());
            assert(d@ == v_old[m as int]);
            assert forall|p: int, q: int|
                0 <= p < r.deep_view().len() && 0 <= q < v.deep_view().len() implies detail_le(
                r.deep_view()[p],
                v.deep_view()[q],
            ) by {
                let x = v.deep_view()[q];
                assert(v_old.contains(x));
                if p < r_old.len() {
                    assert(detail_le(r_old[p], x));
                } else {
                    let qo = if q < m { q } else { q + 1 };
                    assert(x == v_old[qo]);
                    assert(detail_le(d@, x));
                }
            }
            assert(sorted_by(r.deep_view(), detail_le_f())) by {
                assert forall|p: int, q: int|
                    0 <= p < q < r.deep_view().len() implies detail_le_f()(
                    r.deep_view()[p],
                    r.deep_view()[q],
                ) by {
                    if q < r_old.len() {
                        assert(detail_le_f()(r_old[p], r_old[q]));
                    } else {
                        assert(detail_le(r_old[p], v_old[m as int]));
                    }
                }
            }
            vstd::seq_lib::to_multiset_remove::<DetailView>(v_old, m as int);
            v_old.to_multiset_ensures();
            assert(v_old.contains(d@));
            assert(v_old.to_multiset().count(d@) > 0);
            assert(v.deep_view().to_multiset() == v_old.remove(m as int).to_multiset());
            assert(v_old.remove(m as int).to_multiset() == v_old.to_multiset().remove(d@));
            vstd::seq_lib::to_multiset_build::<DetailView>(r_old, d@);
            assert(r.deep_view().to_multiset() =~= r_old.to_multiset().insert(d@));
            assert(r.deep_view().to_multiset().add(v.deep_view().to_multiset())
                =~= input.deep_view().to_multiset()) by {
                assert forall|x: DetailView|
                    r.deep_view().to_multiset().add(v.deep_view().to_multiset()).count(x)
                        == input.deep_view().to_multiset().count(x) by {
                    assert(r_old.to_multiset().add(v_old.to_multiset()).count(x)
                        == input.deep_view().to_multiset().count(x));
                }
            }
        }
    }
    proof {
        assert(v.deep_view() =~= Seq::<DetailView>::empty());
        assert(r.deep_view().to_multiset().add(Seq::<DetailView>::empty().to_multiset())
            =~= r.deep_view().to_multiset());
    }
    r
}

/// Removes exact duplicates from a sorted diagnostic list, leaving a
/// normalized list with the same set of diagnostics.
#[verifier::loop_isolation(false)]
pub fn dedup_details(input: Vec<ParseDetail>) -> (r: Vec<ParseDetail>)
    requires
        sorted_by(input.deep_view(), detail_le_f()),
    ensures
        normalized_details(r.deep_view()),
        r.deep_view().to_set() == input.deep_view().to_set(),
{
    let ghost s = input.deep_view();
    let mut v = input;
    let mut r: Vec<ParseDetail> = Vec::new();
    let ghost j: int = 0;
    proof {
        assert(v.deep_view() =~= s.skip(0));
        assert(r.deep_view() =~= Seq::<DetailView>::empty());
        assert(r.deep_view().to_set() =~= s.take(0).to_set());
    }
    while v.len() > 0
        invariant
            0 <= j <= s.len(),
            v.deep_view() =~= s.skip(j),
            normalized_details(r.deep_view()),
            r.deep_view().to_set() == s.take(j).to_set(),
            j > 0 ==> r.deep_view().len() > 0 && r.deep_view().last() == s[j - 1],
            j == 0 ==> r.deep_view().len() == 0,
        decreases v.len(),
    {
        let ghost v_old = v.deep_view();
        let ghost r_old = r.deep_view();
        let ghost v_shallow = v@;
        let d = v.remove(0);
        proof {
            assert(v.deep_view() =~= v_old.remove(0));
            assert(v.deep_view() =~= s.skip(j + 1));
            assert(v_old[0] == v_shallow[0].deep_view());
            assert(d@ == s[j]);
        }
        if r.len() == 0 {
            r.push(d);
            proof {
                assert(j == 0);
                assert(r.deep_view() =~= seq![s[0]]);
                assert(s.take(1) =~= seq![s[0]]);
                assert(r.deep_view().to_set() =~= s.take(j + 1).to_set());
            }
        } else {
            let li = r.len() - 1;
            let back_le = detail_le_exec(&d, &r[li]);
            proof {
                lemma_detail_le_facts();
                assert(r_old.last() == s[j - 1]);
                assert(detail_le_f()(s[j - 1], s[j]));
                assert(detail_le(s[j - 1], s[j]));
                assert(r_old[li as int] == r@[li as int].deep_view());
            }
            if back_le {
                proof {
                    assert(d@ == r_old.last());
                    assert(s.take(j + 1) =~= s.take(j).push(s[j]));
                    assert(r.deep_view().to_set() =~= s.take(j + 1).to_set()) by {
                        assert forall|x: DetailView| s.take(j + 1).to_set().contains(x)
                            implies r_old.to_set().contains(x) by {
                            assert(s.take(j + 1).contains(x));
                            let ix = choose|ix: int| 0 <= ix < j + 1 && #[trigger] s.take(j + 1)[ix] == x;
                            if ix < j {
                                assert(s.take(j)[ix] == x);
                                assert(s.take(j).contains(x));
                                assert(s.take(j).to_set().contains(x));
                            } else {
                                assert(x == s[j]);
                                assert(r_old.contains(x));
                            }
                        }
                        assert forall|x: DetailView| r_old.to_set().contains(x)
                            implies s.take(j + 1).to_set().contains(x) by {
                            assert(s.take(j).to_set().contains(x));
                            assert(s.take(j).contains(x));
                            let ix = choose|ix: int| 0 <= ix < j && #[trigger] s.take(j)[ix] == x;
                            assert(s.take(j + 1)[ix] == x);
                            assert(s.take(j + 1).contains(x));
                        }
                    }
                }
            } else {
                proof {
                    assert(detail_lt(r_old.last(), d@));
                }
                r.push(d);
                proof {
                    lemma_detail_le_facts();
                    assert(r.deep_view() =~= r_old.push(d@));
                    assert forall|p: int, q: int|
                        0 <= p < q < r.deep_view().len() implies detail_lt_f()(
                        r.deep_view()[p],
                        r.deep_view()[q],
                    ) by {
                        if q < r_old.len() {
                            assert(detail_lt_f()(r_old[p], r_old[q]));
                        } else if p < r_old.len() {
                            if p < r_old.len() - 1 {
                                assert(detail_lt_f()(r_old[p], r_old[r_old.len() - 1]));
                            }
                            assert(detail_le(r_old[p], r_old.last()));
                            assert(detail_lt(r_old.last(), d@));
                        }
                    }
                    assert(s.take(j + 1) =~= s.take(j).push(s[j]));
                    assert(r.deep_view().to_set() =~= s.take(j + 1).to_set()) by {
                        assert forall|x: DetailView| s.take(j + 1).to_set().contains(x)
                            implies r.deep_view().to_set().contains(x) by {
                            assert(s.take(j + 1).contains(x));
                            let ix = choose|ix: int| 0 <= ix < j + 1 && #[trigger] s.take(j + 1)[ix] == x;
                            if ix < j {
                                assert(s.take(j)[ix] == x);
                                assert(s.take(j).contains(x));
                                assert(s.take(j).to_set().contains(x));
                                assert(r_old.to_set().contains(x));
                                assert(r_old.contains(x));
                                let rx = choose|rx: int| 0 <= rx < r_old.len() && #[trigger] r_old[rx] == x;
                                assert(r.deep_view()[rx] == x);
                                assert(r.deep_view().contains(x));
                            } else {
                                assert(r.deep_view().last() == x);
                                assert(r.deep_view().contains(x));
                            }
                        }
                        assert forall|x: DetailView| r.deep_view().to_set().contains(x)
                            implies s.take(j + 1).to_set().contains(x) by {
                            assert(r.deep_view().contains(x));
                            let rx = choose|rx: int|
                                0 <= rx < r.deep_view().len() && r.deep_view()[rx] == x;
                            if rx < r_old.len() {
                                assert(r_old.contains(x));
                                assert(r_old.to_set().contains(x));
                                assert(s.take(j).to_set().contains(x));
                                assert(s.take(j).contains(x));
                                let ix = choose|ix: int| 0 <= ix < j && #[trigger] s.take(j)[ix] == x;
                                assert(s.take(j + 1)[ix] == x);
                                assert(s.take(j + 1).contains(x));
                            } else {
                                assert(x == d@);
                                assert(s.take(j + 1)[j] == x);
                                assert(s.take(j + 1).contains(x));
                            }
                        }
                    }
                }
            }
        }
        proof {
            j = j + 1;
        }
    }
    proof {
        assert(s.skip(j) =~= Seq::<DetailView>::empty());
        assert(j == s.len());
        assert(s.take(j) =~= s);
    }
    r
}

/// Sorts and deduplicates a diagnostic list: the result is the unique
/// normalized list holding exactly the diagnostics of the input.
pub fn normalize_details(input: Vec<ParseDetail>) -> (r: Vec<ParseDetail>)
    ensures
        normalized_details(r.deep_view()),
        r.deep_view().to_set() == input.deep_view().to_set(),
{
    broadcast use vstd::seq_lib::group_to_multiset_ensures;

    let ghost s = input.deep_view();
    let sorted = sort_details(input);
    proof {
        assert forall|x: DetailView| sorted.deep_view().to_set().contains(x) <==> s.to_set().contains(
            x,
        ) by {
            assert(sorted.deep_view().contains(x) <==> sorted.deep_view().to_multiset().count(x)
                > 0);
            assert(s.contains(x) <==> s.to_multiset().count(x) > 0);
        }
        assert(sorted.deep_view().to_set() =~= s.to_set());
    }
    dedup_details(sorted)
}

/// Two normalized diagnostic lists holding the same set of diagnostics
/// are the same list: normalization determines the output uniquely.
pub proof fn lemma_normalized_unique(a: Seq<DetailView>, b: Seq<DetailView>)
    requires
        normalized_details(a),
        normalized_details(b),
        a.to_set() == b.to_set(),
    ensures
        a == b,
    decreases a.len(),
{
    lemma_detail_le_facts();
    assert forall|p: int, q: int| 0 <= p < q < a.len() implies detail_lt(a[p], a[q]) by {
        assert(detail_lt_f()(a[p], a[q]));
    }
    assert forall|p: int, q: int| 0 <= p < q < b.len() implies detail_lt(b[p], b[q]) by {
        assert(detail_lt_f()(b[p], b[q]));
    }
    if a.len() == 0 {
        if b.len() > 0 {
            assert(b.to_set().contains(b[0]));
            assert(a.contains(b[0]));
        }
        assert(a =~= b);
    } else if b.len() == 0 {
        assert(a.to_set().contains(a[0]));
        assert(b.contains(a[0]));
    } else {
        assert(a[0] == b[0]) by {
            if a[0] != b[0] {
                assert(b.to_set().contains(a[0]));
                assert(b.contains(a[0]));
                let ib = choose|ib: int| 0 <= ib < b.len() && b[ib] == a[0];
                if ib > 0 {
                    assert(detail_lt(b[0], b[ib]));
                }
                assert(detail_le(b[0], a[0]));
                assert(a.to_set().contains(b[0]));
                assert(a.contains(b[0]));
                let ia = choose|ia: int| 0 <= ia < a.len() && a[ia] == b[0];
                if ia > 0 {
                    assert(detail_lt(a[0], a[ia]));
                }
                assert(detail_le(a[0], b[0]));
            }
        }
        let at = a.drop_first();
        let bt = b.drop_first();
        assert(at.to_set() == bt.to_set()) by {
            assert forall|x: DetailView| at.to_set().contains(x) implies bt.to_set().contains(x) by {
                assert(at.contains(x));
                let i = choose|i: int| 0 <= i < at.len() && at[i] == x;
                assert(a[i + 1] == x);
                assert(detail_lt(a[0], x));
                assert(b.to_set().contains(x));
                assert(b.contains(x));
                let k = choose|k: int| 0 <= k < b.len() && b[k] == x;
                assert(k > 0) by {
                    if k == 0 {
                        assert(x == b[0]);
                        assert(detail_lt(a[0], a[0]));
                    }
                }
                assert(bt[k - 1] == x);
            }
            assert forall|x: DetailView| bt.to_set().contains(x) implies at.to_set().contains(x) by {
                assert(bt.contains(x));
                let i = choose|i: int| 0 <= i < bt.len() && bt[i] == x;
                assert(b[i + 1] == x);
                assert(detail_lt(b[0], x));
                assert(a.to_set().contains(x));
                assert(a.contains(x));
                let k = choose|k: int| 0 <= k < a.len() && a[k] == x;
                assert(k > 0) by {
                    if k == 0 {
                        assert(detail_lt(b[0], b[0]));
                    }
                }
                assert(at[k - 1] == x);
            }
            assert(at.to_set() =~= bt.to_set());
        }
        assert(normalized_details(at)) by {
            assert forall|p: int, q: int| 0 <= p < q < at.len() implies detail_lt_f()(
                at[p],
                at[q],
            ) by {
                assert(detail_lt(a[p + 1], a[q + 1]));
            }
        }
        assert(normalized_details(bt)) by {
            assert forall|p: int, q: int| 0 <= p < q < bt.len() implies detail_lt_f()(
                bt[p],
                bt[q],
            ) by {
                assert(detail_lt(b[p + 1], b[q + 1]));
            }
        }
        lemma_normalized_unique(at, bt);
        assert(a =~= seq![a[0]] + at);
        assert(b =~= seq![b[0]] + bt);
    }
}

} // verus!
