//! The laws of the library, each proved once and for all: what a fully
//! resolvable tag yields, which inputs are fatal, and that the outcome
//! of a parse is determined by the input and the lookup outcomes.

use vstd::prelude::*;
use crate::concept::EntryView;
use crate::concept::checked_count;
use crate::concept::checked_in;
use crate::concept::details_of;
use crate::concept::spec_concept;
use crate::concept::spec_details_raw;
use crate::concept::spec_entries;
use crate::details::lemma_normalized_unique;
use crate::details::normalized_details;
use crate::grammar::is_priv_marker;
use crate::grammar::valid_ext_part;
use crate::grammar::valid_extlang;
use crate::grammar::valid_language;
use crate::grammar::valid_priv_part;
use crate::grammar::valid_singleton;
use crate::grammar::valid_variant;
use crate::model::ConceptView;
use crate::model::DetailView;
use crate::model::ResponseView;
use crate::model::Severity;
use crate::parser::ExtOutcome;
use crate::parser::ext_part_p;
use crate::parser::extension_error;
use crate::parser::extension_slot_start;
use crate::parser::extlang_p;
use crate::parser::lemma_run_end_bounds;
use crate::parser::lemma_run_end_is;
use crate::parser::parse_extensions;
use crate::parser::parse_private_parts;
use crate::parser::region_p;
use crate::parser::run_end;
use crate::parser::script_p;
use crate::parser::spec_parse;
use crate::parser::variant_p;
use crate::tag::ExtensionView;
use crate::tag::TagView;
use crate::tag::wf_extension;
use crate::tag::wf_tag;
use crate::text::lemma_split_dashes_len;
use crate::text::split_dashes;

verus! {

/// A validation pass whose every lookup succeeded yields no raw
/// diagnostics.
proof fn lemma_details_all_some(entries: Seq<EntryView>, outs: Seq<Option<ConceptView>>)
    requires
        checked_in(entries) <= outs.len(),
        forall|i: int| 0 <= i < outs.len() ==> (#[trigger] outs[i]) is Some,
    ensures
        details_of(entries, outs) == Seq::<DetailView>::empty(),
    decreases entries.len(),
{
    crate::concept::lemma_checked_in_nonneg(entries);
    if entries.len() > 0 {
        if entries[0].severity is Some {
            crate::concept::lemma_checked_in_nonneg(entries.drop_first());
            assert(outs.len() >= 1);
            assert(outs[0] is Some);
            lemma_details_all_some(entries.drop_first(), outs.drop_first());
            assert(Seq::<DetailView>::empty() + Seq::<DetailView>::empty() =~= Seq::<
                DetailView,
            >::empty());
        } else {
            lemma_details_all_some(entries.drop_first(), outs);
        }
    }
}

/// For a syntactically valid tag whose every lookup succeeded, the
/// normalized diagnostics are empty and the concept's code is the
/// input tag: nothing to report, full structure kept.
pub proof fn lemma_all_resolved_clean_response(
    t: TagView,
    code: Seq<char>,
    outs: Seq<Option<ConceptView>>,
    details: Seq<DetailView>,
)
    requires
        outs.len() == checked_count(t),
        forall|i: int| 0 <= i < outs.len() ==> (#[trigger] outs[i]) is Some,
        normalized_details(details),
        details.to_set() == spec_details_raw(t, outs).to_set(),
    ensures
        details == Seq::<DetailView>::empty(),
        spec_concept(t, code, outs).code == code,
{
    lemma_details_all_some(spec_entries(t), outs);
    if details.len() > 0 {
        assert(details.contains(details[0]));
        assert(details.to_set().contains(details[0]));
        assert(Seq::<DetailView>::empty().contains(details[0]));
    }
    assert(details =~= Seq::<DetailView>::empty());
}

/// An input whose first hyphen-delimited token fails the language
/// shape parses to the single fatal diagnostic under the `language`
/// key, and to no tag.
pub proof fn lemma_invalid_language_fatal(input: Seq<char>)
    requires
        !valid_language(split_dashes(input)[0]),
    ensures
        spec_parse(input) is Err,
        spec_parse(input)->Err_0.severity == Severity::Error,
        spec_parse(input)->Err_0.key == "language"@,
{
}

/// An extension slot that opens with a singleton followed by no valid
/// extension part makes the whole parse fail with the single fatal
/// diagnostic under the `extension` key.
pub proof fn lemma_malformed_extension_fatal(input: Seq<char>)
    requires
        valid_language(split_dashes(input)[0]),
        ({
            let toks = split_dashes(input);
            let e4 = extension_slot_start(toks);
            &&& e4 < toks.len()
            &&& valid_singleton(toks[e4])
            &&& (e4 + 1 < toks.len() ==> !valid_ext_part(toks[e4 + 1]))
        }),
    ensures
        ({
            let toks = split_dashes(input);
            let e4 = extension_slot_start(toks);
            spec_parse(input) == Result::<TagView, DetailView>::Err(extension_error(toks[e4]))
        }),
        spec_parse(input) is Err,
        spec_parse(input)->Err_0.severity == Severity::Error,
        spec_parse(input)->Err_0.key == "extension"@,
{
    let toks = split_dashes(input);
    lemma_split_dashes_len(input);
    let e1 = run_end(toks, 1, 3, extlang_p());
    lemma_run_end_bounds(toks, 1, 3, extlang_p());
    let e2 = run_end(toks, e1, 1, script_p());
    lemma_run_end_bounds(toks, e1, 1, script_p());
    let e3 = run_end(toks, e2, 1, region_p());
    lemma_run_end_bounds(toks, e2, 1, region_p());
    let e4 = run_end(toks, e3, 5, variant_p());
    lemma_run_end_bounds(toks, e3, 5, variant_p());
    assert(e4 == extension_slot_start(toks));
    assert(0 <= e4 < toks.len());
    lemma_run_end_is(toks, e4 + 1, (toks.len() - e4 - 1) as nat, ext_part_p(), e4 + 1);
    assert(parse_extensions(toks, e4) == ExtOutcome::Malformed(toks[e4]));
}

/// Every extension group the extension slot accepts is well formed:
/// its singleton comes from a singleton token and each group holds at
/// least one valid part.
proof fn lemma_extensions_well_formed(toks: Seq<Seq<char>>, i: int)
    requires
        0 <= i <= toks.len(),
    ensures
        parse_extensions(toks, i) matches ExtOutcome::Groups(gs, j) ==> {
            &&& i <= j <= toks.len()
            &&& forall|k: int| 0 <= k < gs.len() ==> wf_extension(#[trigger] gs[k])
        },
    decreases toks.len() - i,
{
    if i < toks.len() && valid_singleton(toks[i]) {
        let pe = run_end(toks, i + 1, (toks.len() - i - 1) as nat, ext_part_p());
        lemma_run_end_bounds(toks, i + 1, (toks.len() - i - 1) as nat, ext_part_p());
        if i + 1 < pe <= toks.len() {
            lemma_extensions_well_formed(toks, pe);
            let group = ExtensionView { singleton: toks[i][0], parts: toks.subrange(i + 1, pe) };
            assert(wf_extension(group)) by {
                assert(forall|k: int|
                    0 <= k < group.parts.len() ==> valid_ext_part(#[trigger] group.parts[k]));
            }
            match parse_extensions(toks, pe) {
                ExtOutcome::Groups(rest, j) => {
                    assert forall|k: int|
                        0 <= k < (seq![group] + rest).len() implies wf_extension(
                        #[trigger] (seq![group] + rest)[k],
                    ) by {
                        if k > 0 {
                            assert(wf_extension(rest[k - 1]));
                        }
                    }
                },
                ExtOutcome::Malformed(_) => {},
            }
        }
    }
}

/// Every part the private-use slot accepts is a valid private-use
/// part.
proof fn lemma_private_parts_valid(toks: Seq<Seq<char>>, i: int)
    requires
        0 <= i <= toks.len(),
    ensures
        parse_private_parts(toks, i) matches Result::Ok(ps) ==> forall|k: int|
            0 <= k < ps.len() ==> valid_priv_part(#[trigger] ps[k]),
    decreases toks.len() - i,
{
    if i < toks.len() && valid_priv_part(toks[i]) {
        lemma_private_parts_valid(toks, i + 1);
        match parse_private_parts(toks, i + 1) {
            Result::Ok(rest) => {
                assert forall|k: int|
                    0 <= k < (seq![toks[i]] + rest).len() implies valid_priv_part(
                    #[trigger] (seq![toks[i]] + rest)[k],
                ) by {
                    if k > 0 {
                        assert(valid_priv_part(rest[k - 1]));
                    }
                }
            },
            Result::Err(_) => {},
        }
    }
}

/// A tag the parser accepts satisfies the grammar invariant: the
/// language is a valid language subtag (hence non-empty), and every
/// field holds subtags of its class, within its cardinality.
pub proof fn lemma_parsed_tag_well_formed(input: Seq<char>)
    requires
        spec_parse(input) is Ok,
    ensures
        wf_tag(spec_parse(input)->Ok_0),
{
    let toks = split_dashes(input);
    lemma_split_dashes_len(input);
    let t = spec_parse(input)->Ok_0;
    let e1 = run_end(toks, 1, 3, extlang_p());
    lemma_run_end_bounds(toks, 1, 3, extlang_p());
    let e2 = run_end(toks, e1, 1, script_p());
    lemma_run_end_bounds(toks, e1, 1, script_p());
    let e3 = run_end(toks, e2, 1, region_p());
    lemma_run_end_bounds(toks, e2, 1, region_p());
    let e4 = run_end(toks, e3, 5, variant_p());
    lemma_run_end_bounds(toks, e3, 5, variant_p());
    lemma_extensions_well_formed(toks, e4);
    match parse_extensions(toks, e4) {
        ExtOutcome::Groups(groups, e5) => {
            if e5 < toks.len() && is_priv_marker(toks[e5]) {
                lemma_private_parts_valid(toks, e5 + 1);
            }
            assert(forall|k: int|
                0 <= k < t.extlang.len() ==> valid_extlang(#[trigger] t.extlang[k]));
            assert(forall|k: int|
                0 <= k < t.variants.len() ==> valid_variant(#[trigger] t.variants[k]));
        },
        ExtOutcome::Malformed(_) => {},
    }
}

/// The outcome of a parse is a function of the input and of what the
/// lookups returned: two responses to the same input, both built from
/// the same lookup outcomes as the parse contract states, are
/// structurally identical.
pub proof fn lemma_parse_deterministic(
    code: Seq<char>,
    outs: Seq<Option<ConceptView>>,
    r1: ResponseView,
    r2: ResponseView,
)
    requires
        spec_parse(code) is Ok,
        r1.concept == Option::Some(spec_concept(spec_parse(code)->Ok_0, code, outs)),
        r2.concept == Option::Some(spec_concept(spec_parse(code)->Ok_0, code, outs)),
        normalized_details(r1.details),
        normalized_details(r2.details),
        r1.details.to_set() == spec_details_raw(spec_parse(code)->Ok_0, outs).to_set(),
        r2.details.to_set() == spec_details_raw(spec_parse(code)->Ok_0, outs).to_set(),
    ensures
        r1 == r2,
{
    lemma_normalized_unique(r1.details, r2.details);
    assert(r1 =~= r2);
}

} // verus!
