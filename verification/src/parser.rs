//! The tag parser: a greedy, non-backtracking pass over the
//! hyphen-delimited tokens, consuming grammar slots in their fixed
//! order (language, extended languages, script, region, variants,
//! extensions, private use).
//!
//! `spec_parse` is the mathematical definition; `parse_tag` is the
//! executable parser, proved to return exactly what `spec_parse` says.
//! A token that fails a slot's shape ends that slot and is retried
//! against the next slot; once all slots are exhausted, a leftover
//! token makes the whole tag invalid.

use vstd::prelude::*;
use vstd::string::StrSliceExecFns;
use vstd::string::StringExecFns;
use crate::grammar::valid_language;
use crate::grammar::valid_extlang;
use crate::grammar::valid_script;
use crate::grammar::valid_region;
use crate::grammar::valid_variant;
use crate::grammar::valid_singleton;
use crate::grammar::valid_ext_part;
use crate::grammar::valid_priv_part;
use crate::grammar::is_priv_marker;
use crate::grammar::check_language;
use crate::grammar::check_extlang;
use crate::grammar::check_script;
use crate::grammar::check_region;
use crate::grammar::check_variant;
use crate::grammar::check_singleton;
use crate::grammar::check_ext_part;
use crate::grammar::check_priv_part;
use crate::grammar::check_priv_marker;
use crate::model::DetailView;
use crate::model::ParseDetail;
use crate::model::Severity;
use crate::model::ValueX;
use crate::model::ValueXView;
use crate::tag::Extension;
use crate::tag::ExtensionView;
use crate::tag::LanguageTag;
use crate::tag::TagView;
use crate::text::split_dashes;
use crate::text::split_tag;

verus! {

/// End of the run of consecutive tokens satisfying `p` that starts at
/// `i`, taking at most `cap` tokens.
pub open spec fn run_end(toks: Seq<Seq<char>>, i: int, cap: nat, p: spec_fn(Seq<char>) -> bool) -> int
    decreases cap,
{
    if cap > 0 && 0 <= i < toks.len() && p(toks[i]) {
        run_end(toks, i + 1, (cap - 1) as nat, p)
    } else {
        i
    }
}

/// `run_end` is the unique position bounded by the cap and the token
/// count such that every token before it matches and the token at it
/// (if the cap leaves room) does not.
pub proof fn lemma_run_end_is(
    toks: Seq<Seq<char>>,
    start: int,
    cap: nat,
    p: spec_fn(Seq<char>) -> bool,
    j: int,
)
    requires
        0 <= start <= j <= toks.len(),
        j - start <= cap,
        forall|k: int| start <= k < j ==> p(#[trigger] toks[k]),
        j < toks.len() && j - start < cap ==> !p(toks[j]),
    ensures
        run_end(toks, start, cap, p) == j,
    decreases j - start,
{
    if j > start {
        lemma_run_end_is(toks, start + 1, (cap - 1) as nat, p, j);
    }
}

/// Bounds of `run_end`: it stays between its start, the cap and the
/// token count, and every token it ran over matches `p`.
pub proof fn lemma_run_end_bounds(
    toks: Seq<Seq<char>>,
    start: int,
    cap: nat,
    p: spec_fn(Seq<char>) -> bool,
)
    requires
        0 <= start <= toks.len(),
    ensures
        start <= run_end(toks, start, cap, p) <= toks.len(),
        run_end(toks, start, cap, p) - start <= cap,
        forall|k: int| start <= k < run_end(toks, start, cap, p) ==> p(#[trigger] toks[k]),
    decreases cap,
{
    if cap > 0 && start < toks.len() && p(toks[start]) {
        lemma_run_end_bounds(toks, start + 1, (cap - 1) as nat, p);
    }
}

/// The extended-language slot's shape, as a first-class predicate.
pub open spec fn extlang_p() -> spec_fn(Seq<char>) -> bool {
    |t: Seq<char>| valid_extlang(t)
}

/// The script slot's shape, as a first-class predicate.
pub open spec fn script_p() -> spec_fn(Seq<char>) -> bool {
    |t: Seq<char>| valid_script(t)
}

/// The region slot's shape, as a first-class predicate.
pub open spec fn region_p() -> spec_fn(Seq<char>) -> bool {
    |t: Seq<char>| valid_region(t)
}

/// The variant slot's shape, as a first-class predicate.
pub open spec fn variant_p() -> spec_fn(Seq<char>) -> bool {
    |t: Seq<char>| valid_variant(t)
}

/// The extension-part shape, as a first-class predicate.
pub open spec fn ext_part_p() -> spec_fn(Seq<char>) -> bool {
    |t: Seq<char>| valid_ext_part(t)
}

/// A fatal diagnostic: severity `Error` under the offending slot's key.
pub open spec fn fatal_detail(key: Seq<char>, msg: Seq<char>) -> DetailView {
    DetailView { severity: Severity::Error, key, value: ValueXView::ValueString(msg) }
}

/// The fatal diagnostic for a first token that fails the language shape.
pub open spec fn language_error(t: Seq<char>) -> DetailView {
    fatal_detail("language"@, "Invalid language subtag: "@ + t)
}

/// The fatal diagnostic for a singleton with no valid extension part.
pub open spec fn extension_error(t: Seq<char>) -> DetailView {
    fatal_detail("extension"@, "Invalid extension subtag: "@ + t)
}

/// The fatal diagnostic for an ill-shaped private-use part.
pub open spec fn private_use_error(t: Seq<char>) -> DetailView {
    fatal_detail("privateUse"@, "Invalid private use subtag: "@ + t)
}

/// The fatal diagnostic for a tag with leftover tokens.
pub open spec fn whole_tag_error(input: Seq<char>) -> DetailView {
    fatal_detail("language"@, "Invalid language tag: "@ + input)
}

/// Where the extension slot begins: after the language token, the
/// extended languages, the script, the region and the variants have
/// been consumed greedily.
pub open spec fn extension_slot_start(toks: Seq<Seq<char>>) -> int {
    let e1 = run_end(toks, 1, 3, extlang_p());
    let e2 = run_end(toks, e1, 1, script_p());
    let e3 = run_end(toks, e2, 1, region_p());
    run_end(toks, e3, 5, variant_p())
}

/// Outcome of the extension slot: the parsed groups and the position
/// after them, or the singleton token of a malformed group.
pub enum ExtOutcome {
    Groups(Seq<ExtensionView>, int),
    Malformed(Seq<char>),
}

/// Prepends already-parsed groups to an extension-slot outcome.
pub open spec fn ext_prepend(pre: Seq<ExtensionView>, r: ExtOutcome) -> ExtOutcome {
    match r {
        ExtOutcome::Groups(groups, j) => ExtOutcome::Groups(pre + groups, j),
        ExtOutcome::Malformed(t) => ExtOutcome::Malformed(t),
    }
}

/// Greedily parses extension groups starting at `i`: each singleton
/// token must be followed by at least one valid part; its group takes
/// every consecutive valid part after it.
pub open spec fn parse_extensions(toks: Seq<Seq<char>>, i: int) -> ExtOutcome
    decreases toks.len() - i,
{
    if 0 <= i < toks.len() && valid_singleton(toks[i]) {
        let pe = run_end(toks, i + 1, (toks.len() - i - 1) as nat, ext_part_p());
        if i + 1 < pe <= toks.len() {
            let group = ExtensionView { singleton: toks[i][0], parts: toks.subrange(i + 1, pe) };
            ext_prepend(seq![group], parse_extensions(toks, pe))
        } else {
            ExtOutcome::Malformed(toks[i])
        }
    } else {
        ExtOutcome::Groups(Seq::empty(), i)
    }
}

/// Parses every remaining token as a private-use part, or reports the
/// first token that fails the part shape.
pub open spec fn parse_private_parts(toks: Seq<Seq<char>>, i: int) -> Result<Seq<Seq<char>>, Seq<char>>
    decreases toks.len() - i,
{
    if 0 <= i < toks.len() {
        if valid_priv_part(toks[i]) {
            match parse_private_parts(toks, i + 1) {
                Result::Ok(r) => Result::Ok(seq![toks[i]] + r),
                Result::Err(t) => Result::Err(t),
            }
        } else {
            Result::Err(toks[i])
        }
    } else {
        Result::Ok(Seq::empty())
    }
}

/// The whole parser, over the character sequence of the input tag:
/// either the structured tag, or the single fatal diagnostic.
pub open spec fn spec_parse(input: Seq<char>) -> Result<TagView, DetailView> {
    let toks = split_dashes(input);
    if !valid_language(toks[0]) {
        Result::Err(language_error(toks[0]))
    } else {
        let e1 = run_end(toks, 1, 3, extlang_p());
        let e2 = run_end(toks, e1, 1, script_p());
        let e3 = run_end(toks, e2, 1, region_p());
        let e4 = run_end(toks, e3, 5, variant_p());
        match parse_extensions(toks, e4) {
            ExtOutcome::Malformed(t) => Result::Err(extension_error(t)),
            ExtOutcome::Groups(groups, e5) => {
                let base = TagView {
                    language: toks[0],
                    extlang: toks.subrange(1, e1),
                    script: if e2 > e1 { Option::Some(toks[e1]) } else { Option::None },
                    region: if e3 > e2 { Option::Some(toks[e2]) } else { Option::None },
                    variants: toks.subrange(e3, e4),
                    extensions: groups,
                    private_use: Seq::empty(),
                };
                if e5 < toks.len() && is_priv_marker(toks[e5]) {
                    match parse_private_parts(toks, e5 + 1) {
                        Result::Ok(parts) => Result::Ok(TagView { private_use: parts, ..base }),
                        Result::Err(t) => Result::Err(private_use_error(t)),
                    }
                } else if e5 < toks.len() {
                    Result::Err(whole_tag_error(input))
                } else {
                    Result::Ok(base)
                }
            },
        }
    }
}

/// Prepends already-parsed parts to a private-use outcome.
pub open spec fn priv_prepend(
    pre: Seq<Seq<char>>,
    r: Result<Seq<Seq<char>>, Seq<char>>,
) -> Result<Seq<Seq<char>>, Seq<char>> {
    match r {
        Result::Ok(s) => Result::Ok(pre + s),
        Result::Err(t) => Result::Err(t),
    }
}

/// Builds the message of a fatal diagnostic from its fixed prefix and
/// the offending text.
fn err_msg(prefix: &str, tok: &str) -> (m: String)
    ensures
        m@ == prefix@ + tok@,
{
    let mut m = String::from_str(prefix);
    m.append(tok);
    m
}

/// Builds a fatal diagnostic under the offending slot's key.
fn fatal(key: &str, msg: String) -> (d: ParseDetail)
    ensures
        d@ == fatal_detail(key@, msg@),
{
    ParseDetail {
        severity: Severity::Error,
        key: String::from_str(key),
        value: ValueX::ValueString(msg),
    }
}

/// The executable parser: splits the input on `-` and consumes the
/// grammar slots greedily, exactly as `spec_parse` describes.
#[verifier::loop_isolation(false)]
#[verifier::rlimit(80)]
pub fn parse_tag(input: &str) -> (r: Result<LanguageTag, ParseDetail>)
    ensures
        match r {
            Result::Ok(tag) => spec_parse(input@) == Result::<TagView, DetailView>::Ok(tag@),
            Result::Err(d) => spec_parse(input@) == Result::<TagView, DetailView>::Err(d@),
        },
{
    let toks = split_tag(input);
    let ghost tv = toks.deep_view();
    let n = toks.len();
    proof {
        assert(tv.len() == n as int);
    }
    if !check_language(toks[0].as_str()) {
        let m = err_msg("Invalid language subtag: ", toks[0].as_str());
        return Result::Err(fatal("language", m));
    }
    let language = toks[0].clone();

    let mut i: usize = 1;
    let mut extlang: Vec<String> = Vec::new();
    proof {
        assert(extlang.deep_view() =~= tv.subrange(1, 1));
    }
    while i < n && extlang.len() < 3 && check_extlang(toks[i].as_str())
        invariant
            1 <= i <= n,
            extlang.len() == i - 1,
            extlang.len() <= 3,
            extlang.deep_view() =~= tv.subrange(1, i as int),
            forall|k: int| 1 <= k < i ==> extlang_p()(#[trigger] tv[k]),
        decreases n - i,
    {
        extlang.push(toks[i].clone());
        i = i + 1;
        proof {
            assert(extlang.deep_view() =~= tv.subrange(1, i as int));
        }
    }
    let ghost e1 = i as int;
    proof {
        lemma_run_end_is(tv, 1, 3, extlang_p(), e1);
    }

    let mut script: Option<String> = Option::None;
    if i < n && check_script(toks[i].as_str()) {
        script = Option::Some(toks[i].clone());
        i = i + 1;
    }
    let ghost e2 = i as int;
    proof {
        assert forall|k: int| e1 <= k < e2 implies script_p()(#[trigger] tv[k]) by {}
        lemma_run_end_is(tv, e1, 1, script_p(), e2);
    }

    let mut region: Option<String> = Option::None;
    if i < n && check_region(toks[i].as_str()) {
        region = Option::Some(toks[i].clone());
        i = i + 1;
    }
    let ghost e3 = i as int;
    proof {
        assert forall|k: int| e2 <= k < e3 implies region_p()(#[trigger] tv[k]) by {}
        lemma_run_end_is(tv, e2, 1, region_p(), e3);
    }

    let mut variants: Vec<String> = Vec::new();
    proof {
        assert(variants.deep_view() =~= tv.subrange(e3, i as int));
    }
    while i < n && variants.len() < 5 && check_variant(toks[i].as_str())
        invariant
            e3 <= i <= n,
            variants.len() == i - e3,
            variants.len() <= 5,
            variants.deep_view() =~= tv.subrange(e3, i as int),
            forall|k: int| e3 <= k < i ==> variant_p()(#[trigger] tv[k]),
        decreases n - i,
    {
        variants.push(toks[i].clone());
        i = i + 1;
        proof {
            assert(variants.deep_view() =~= tv.subrange(e3, i as int));
        }
    }
    let ghost e4 = i as int;
    proof {
        lemma_run_end_is(tv, e3, 5, variant_p(), e4);
    }

    let mut extensions: Vec<Extension> = Vec::new();
    proof {
        assert(extensions.deep_view() =~= Seq::<ExtensionView>::empty());
        assert(parse_extensions(tv, e4) == ext_prepend(
            extensions.deep_view(),
            parse_extensions(tv, i as int),
        ));
    }
    while i < n && check_singleton(toks[i].as_str())
        invariant
            e4 <= i <= n,
            parse_extensions(tv, e4) == ext_prepend(
                extensions.deep_view(),
                parse_extensions(tv, i as int),
            ),
        decreases n - i,
    {
        let singleton_tok = toks[i].clone();
        let singleton = singleton_tok.as_str().get_char(0);
        let ghost si = i as int;
        i = i + 1;
        let mut parts: Vec<String> = Vec::new();
        proof {
            assert(parts.deep_view() =~= tv.subrange(si + 1, i as int));
        }
        while i < n && check_ext_part(toks[i].as_str())
            invariant
                si + 1 <= i <= n,
                parts.len() == i - si - 1,
                parts.deep_view() =~= tv.subrange(si + 1, i as int),
                forall|k: int| si + 1 <= k < i ==> ext_part_p()(#[trigger] tv[k]),
            decreases n - i,
        {
            parts.push(toks[i].clone());
            i = i + 1;
            proof {
                assert(parts.deep_view() =~= tv.subrange(si + 1, i as int));
            }
        }
        let ghost pe = i as int;
        proof {
            lemma_run_end_is(tv, si + 1, (n - si - 1) as nat, ext_part_p(), pe);
        }
        if parts.is_empty() {
            proof {
                assert(parse_extensions(tv, si) == ExtOutcome::Malformed(tv[si]));
            }
            let m = err_msg("Invalid extension subtag: ", singleton_tok.as_str());
            return Result::Err(fatal("extension", m));
        }
        let ghost group = ExtensionView { singleton: tv[si][0], parts: tv.subrange(si + 1, pe) };
        proof {
            assert(parse_extensions(tv, si) == ext_prepend(seq![group], parse_extensions(tv, pe)));
        }
        let ghost e_old = extensions.deep_view();
        extensions.push(Extension { singleton, parts });
        proof {
            assert(tv[si] == toks@[si].deep_view());
            assert(singleton_tok@ == toks@[si]@);
            assert(singleton == tv[si][0]);
            assert(parts.deep_view() == group.parts);
            assert(extensions.deep_view() =~= e_old.push(group));
            match parse_extensions(tv, pe) {
                ExtOutcome::Groups(groups, j) => {
                    assert(e_old + (seq![group] + groups) =~= e_old.push(group) + groups);
                    assert(ext_prepend(e_old, parse_extensions(tv, si)) == ExtOutcome::Groups(
                        e_old.push(group) + groups,
                        j,
                    ));
                },
                ExtOutcome::Malformed(t) => {},
            }
        }
    }
    let ghost e5 = i as int;
    proof {
        assert(parse_extensions(tv, e5) == ExtOutcome::Groups(Seq::<ExtensionView>::empty(), e5));
        assert(parse_extensions(tv, e4) == ExtOutcome::Groups(extensions.deep_view() + Seq::<
            ExtensionView,
        >::empty(), e5));
        assert(extensions.deep_view() + Seq::<ExtensionView>::empty() =~= extensions.deep_view());
    }

    let mut private_use: Vec<String> = Vec::new();
    if i < n && check_priv_marker(toks[i].as_str()) {
        let ghost ep = i as int;
        i = i + 1;
        proof {
            assert(private_use.deep_view() =~= Seq::<Seq<char>>::empty());
        }
        while i < n
            invariant
                ep + 1 <= i <= n,
                parse_private_parts(tv, ep + 1) == priv_prepend(
                    private_use.deep_view(),
                    parse_private_parts(tv, i as int),
                ),
            decreases n - i,
        {
            if check_priv_part(toks[i].as_str()) {
                let ghost before = private_use.deep_view();
                private_use.push(toks[i].clone());
                i = i + 1;
                proof {
                    assert(private_use.deep_view() =~= before.push(tv[i - 1]));
                    match parse_private_parts(tv, i as int) {
                        Result::Ok(rest) => {
                            assert(before + (seq![tv[i - 1]] + rest) =~= private_use.deep_view()
                                + rest);
                        },
                        Result::Err(t) => {},
                    }
                }
            } else {
                let m = err_msg("Invalid private use subtag: ", toks[i].as_str());
                return Result::Err(fatal("privateUse", m));
            }
        }
        proof {
            assert(parse_private_parts(tv, i as int) == Result::<Seq<Seq<char>>, Seq<char>>::Ok(
                Seq::empty(),
            ));
            assert(private_use.deep_view() + Seq::<Seq<char>>::empty() =~= private_use.deep_view());
        }
    } else if i < n {
        let m = err_msg("Invalid language tag: ", input);
        return Result::Err(fatal("language", m));
    }

    let tag = LanguageTag { language, extlang, script, region, variants, extensions, private_use };
    proof {
        let expected = spec_parse(input@)->Ok_0;
        assert(tag@.language =~= expected.language);
        assert(tag@.extlang =~= expected.extlang);
        assert(tag@.script == expected.script);
        assert(tag@.region == expected.region);
        assert(tag@.variants =~= expected.variants);
        assert(tag@.extensions =~= expected.extensions);
        assert(tag@.private_use =~= expected.private_use);
        assert(tag@ =~= expected);
    }
    Result::Ok(tag)
}

} // verus!
