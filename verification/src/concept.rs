//! The subtag validator and concept builder: walks the subtags of a
//! parsed tag in grammar order, resolves each subtag that carries a
//! validation severity against the lookup outcomes, and assembles the
//! concept's property list, its display string and the diagnostics.
//!
//! The language subtag validates at severity `Error`; extended
//! language, script, region and variant subtags validate at `Warning`;
//! extension and private-use subtags are never looked up, their content
//! being opaque.

use vstd::prelude::*;
use vstd::string::StrSliceExecFns;
use vstd::string::StringExecFns;
use crate::model::Concept;
use crate::model::ConceptView;
use crate::model::DetailView;
use crate::model::ParseDetail;
use crate::model::Property;
use crate::model::PropertyView;
use crate::model::Severity;
use crate::model::opt_str_view;
use crate::model::ValueX;
use crate::model::ValueXView;
use crate::tag::ExtensionView;
use crate::tag::LanguageTag;
use crate::tag::TagView;
use crate::text::push_char;
use crate::text::str_eq;

verus! {

/// One subtag to validate or report: its code, its class name, and the
/// severity a failed lookup carries, if the class validates at all.
#[verifier::ext_equal]
pub struct EntryView {
    pub code: Seq<char>,
    pub class: Seq<char>,
    pub severity: Option<Severity>,
}

/// Joins a sequence of character sequences with a separator.
pub open spec fn join_sep(parts: Seq<Seq<char>>, sep: Seq<char>) -> Seq<char>
    decreases parts.len(),
{
    if parts.len() == 0 {
        Seq::empty()
    } else if parts.len() == 1 {
        parts[0]
    } else {
        parts[0] + sep + join_sep(parts.drop_first(), sep)
    }
}

/// An extension group rendered as one subtag code:
/// `singleton-part1-part2-...`.
pub open spec fn ext_rendered(e: ExtensionView) -> Seq<char> {
    seq![e.singleton] + "-"@ + join_sep(e.parts, "-"@)
}

/// How many subtags a tag presents for validation and property
/// emission.
pub open spec fn entries_len(t: TagView) -> int {
    1 + t.extlang.len() + (if t.script is Some {
        1int
    } else {
        0int
    }) + (if t.region is Some {
        1int
    } else {
        0int
    }) + t.variants.len() + t.extensions.len() + t.private_use.len()
}

/// The subtag at position `k` of the grammar-ordered walk: language,
/// extended languages, script, region, variants, extensions, private
/// use.
pub open spec fn entry_at(t: TagView, k: int) -> EntryView {
    let el = t.extlang.len() as int;
    let sl: int = if t.script is Some {
        1
    } else {
        0
    };
    let rl: int = if t.region is Some {
        1
    } else {
        0
    };
    let vl = t.variants.len() as int;
    let xl = t.extensions.len() as int;
    if k < 1 {
        EntryView { code: t.language, class: "language"@, severity: Option::Some(Severity::Error) }
    } else if k < 1 + el {
        EntryView {
            code: t.extlang[k - 1],
            class: "extLang"@,
            severity: Option::Some(Severity::Warning),
        }
    } else if k < 1 + el + sl {
        EntryView {
            code: t.script->Some_0,
            class: "script"@,
            severity: Option::Some(Severity::Warning),
        }
    } else if k < 1 + el + sl + rl {
        EntryView {
            code: t.region->Some_0,
            class: "region"@,
            severity: Option::Some(Severity::Warning),
        }
    } else if k < 1 + el + sl + rl + vl {
        EntryView {
            code: t.variants[k - (1 + el + sl + rl)],
            class: "variant"@,
            severity: Option::Some(Severity::Warning),
        }
    } else if k < 1 + el + sl + rl + vl + xl {
        EntryView {
            code: ext_rendered(t.extensions[k - (1 + el + sl + rl + vl)]),
            class: "extension"@,
            severity: Option::None,
        }
    } else {
        EntryView {
            code: t.private_use[k - (1 + el + sl + rl + vl + xl)],
            class: "privateUse"@,
            severity: Option::None,
        }
    }
}

/// The subtags of a tag in grammar order, with class names and
/// validation severities.
pub open spec fn spec_entries(t: TagView) -> Seq<EntryView> {
    Seq::new(entries_len(t) as nat, |k: int| entry_at(t, k))
}

/// How many subtags of a tag carry a validation severity, hence how
/// many lookups a validation pass performs.
pub open spec fn checked_in(entries: Seq<EntryView>) -> int
    decreases entries.len(),
{
    if entries.len() == 0 {
        0
    } else {
        (if entries[0].severity is Some {
            1int
        } else {
            0int
        }) + checked_in(entries.drop_first())
    }
}

/// Number of lookups a validation pass over `t` performs.
pub open spec fn checked_count(t: TagView) -> int {
    checked_in(spec_entries(t))
}

/// The display a resolved subtag contributes: the found concept's
/// display text if it has one, else the subtag's own code.
pub open spec fn resolved_value(e: EntryView, o: Option<ConceptView>) -> Seq<char> {
    match o {
        Option::Some(c) => match c.display {
            Option::Some(d) => d,
            Option::None => e.code,
        },
        Option::None => e.code,
    }
}

/// The property list: one property per subtag, in grammar order. A
/// validated subtag carries its resolved display; an unvalidated one
/// carries its code as written.
pub open spec fn props_of(entries: Seq<EntryView>, outs: Seq<Option<ConceptView>>) -> Seq<
    PropertyView,
>
    decreases entries.len(),
{
    if entries.len() == 0 {
        Seq::empty()
    } else {
        let e = entries[0];
        if e.severity is Some {
            seq![
                PropertyView {
                    code: e.class,
                    value: ValueXView::ValueString(resolved_value(e, outs[0])),
                },
            ] + props_of(entries.drop_first(), outs.drop_first())
        } else {
            seq![PropertyView { code: e.class, value: ValueXView::ValueString(e.code) }] + props_of(
                entries.drop_first(),
                outs,
            )
        }
    }
}

/// The diagnostic a failed lookup yields for one subtag.
pub open spec fn invalid_subtag_detail(e: EntryView) -> DetailView {
    DetailView {
        severity: e.severity->Some_0,
        key: e.class,
        value: ValueXView::ValueString("Invalid "@ + e.class + " subtag: "@ + e.code),
    }
}

/// The raw diagnostics of a validation pass, in grammar order: one per
/// validated subtag whose lookup failed.
pub open spec fn details_of(entries: Seq<EntryView>, outs: Seq<Option<ConceptView>>) -> Seq<
    DetailView,
>
    decreases entries.len(),
{
    if entries.len() == 0 {
        Seq::empty()
    } else {
        let e = entries[0];
        if e.severity is Some {
            (if outs[0] is None {
                seq![invalid_subtag_detail(e)]
            } else {
                Seq::empty()
            }) + details_of(entries.drop_first(), outs.drop_first())
        } else {
            details_of(entries.drop_first(), outs)
        }
    }
}

/// The resolved display of the first validated subtag of the given
/// class whose lookup succeeded, if any.
pub open spec fn found_display(
    entries: Seq<EntryView>,
    outs: Seq<Option<ConceptView>>,
    class: Seq<char>,
) -> Option<Seq<char>>
    decreases entries.len(),
{
    if entries.len() == 0 {
        Option::None
    } else {
        let e = entries[0];
        if e.severity is Some {
            if e.class == class && outs[0] is Some {
                Option::Some(resolved_value(e, outs[0]))
            } else {
                found_display(entries.drop_first(), outs.drop_first(), class)
            }
        } else {
            found_display(entries.drop_first(), outs, class)
        }
    }
}

/// The parenthesized components of the display string, in order:
/// region, script, then the variants as one joined component.
pub open spec fn part_list_from(
    t: TagView,
    reg: Option<Seq<char>>,
    scr: Option<Seq<char>>,
) -> Seq<Seq<char>> {
    (match reg {
        Option::Some(d) => seq!["Region: "@ + d],
        Option::None => Seq::empty(),
    }) + (match scr {
        Option::Some(d) => seq!["Script: "@ + d],
        Option::None => Seq::empty(),
    }) + (if t.variants.len() > 0 {
        seq!["Variant: "@ + join_sep(t.variants, ", "@)]
    } else {
        Seq::<Seq<char>>::empty()
    })
}

/// The synthesized display string, from the resolved displays of the
/// language, region and script subtags: the language display with a
/// parenthesized suffix of the non-empty components, or a plain
/// rendering of the raw tag when the language did not resolve.
pub open spec fn display_from(
    t: TagView,
    code: Seq<char>,
    lang: Option<Seq<char>>,
    reg: Option<Seq<char>>,
    scr: Option<Seq<char>>,
) -> Seq<char> {
    match lang {
        Option::None => "Language tag: "@ + code,
        Option::Some(l) => {
            let pl = part_list_from(t, reg, scr);
            if pl.len() == 0 {
                "Language: "@ + l
            } else {
                "Language: "@ + l + " ("@ + join_sep(pl, ", "@) + ")"@
            }
        },
    }
}

/// The synthesized display string of a validation pass.
pub open spec fn display_of(t: TagView, code: Seq<char>, outs: Seq<Option<ConceptView>>) -> Seq<
    char,
> {
    let entries = spec_entries(t);
    display_from(
        t,
        code,
        found_display(entries, outs, "language"@),
        found_display(entries, outs, "region"@),
        found_display(entries, outs, "script"@),
    )
}

/// The concept a validation pass builds: the raw tag as its code, the
/// synthesized display, and one property per subtag.
pub open spec fn spec_concept(t: TagView, code: Seq<char>, outs: Seq<Option<ConceptView>>) -> ConceptView {
    ConceptView {
        code: code,
        display: Option::Some(display_of(t, code, outs)),
        properties: props_of(spec_entries(t), outs),
    }
}

/// The raw diagnostics a validation pass over `t` yields.
pub open spec fn spec_details_raw(t: TagView, outs: Seq<Option<ConceptView>>) -> Seq<DetailView> {
    details_of(spec_entries(t), outs)
}

/// A display already found takes precedence over what the rest of the
/// walk would find.
pub open spec fn fd_join(
    cur: Option<Seq<char>>,
    entries: Seq<EntryView>,
    outs: Seq<Option<ConceptView>>,
    class: Seq<char>,
) -> Option<Seq<char>> {
    match cur {
        Option::Some(d) => Option::Some(d),
        Option::None => found_display(entries, outs, class),
    }
}

/// A walk performs a non-negative number of lookups.
pub proof fn lemma_checked_in_nonneg(entries: Seq<EntryView>)
    ensures
        checked_in(entries) >= 0,
    decreases entries.len(),
{
    if entries.len() > 0 {
        lemma_checked_in_nonneg(entries.drop_first());
    }
}

/// The seven subtag class names are pairwise distinct.
proof fn lemma_class_names_distinct()
    ensures
        "language"@ != "extLang"@,
        "language"@ != "script"@,
        "language"@ != "region"@,
        "language"@ != "variant"@,
        "language"@ != "extension"@,
        "language"@ != "privateUse"@,
        "extLang"@ != "script"@,
        "extLang"@ != "region"@,
        "extLang"@ != "variant"@,
        "extLang"@ != "extension"@,
        "extLang"@ != "privateUse"@,
        "script"@ != "region"@,
        "script"@ != "variant"@,
        "script"@ != "extension"@,
        "script"@ != "privateUse"@,
        "region"@ != "variant"@,
        "region"@ != "extension"@,
        "region"@ != "privateUse"@,
        "variant"@ != "extension"@,
        "variant"@ != "privateUse"@,
        "extension"@ != "privateUse"@,
{
    reveal_strlit("language");
    reveal_strlit("extLang");
    reveal_strlit("script");
    reveal_strlit("region");
    reveal_strlit("variant");
    reveal_strlit("extension");
    reveal_strlit("privateUse");
    assert("language"@.len() == 8);
    assert("extLang"@.len() == 7);
    assert("script"@.len() == 6);
    assert("region"@.len() == 6);
    assert("variant"@.len() == 7);
    assert("extension"@.len() == 9);
    assert("privateUse"@.len() == 10);
    assert("script"@[0] == 's');
    assert("region"@[0] == 'r');
    assert("extLang"@[0] == 'e');
    assert("variant"@[0] == 'v');
}

/// Appending one more part extends a join by the separator and the
/// part.
proof fn lemma_join_push(parts: Seq<Seq<char>>, sep: Seq<char>, x: Seq<char>)
    ensures
        join_sep(parts.push(x), sep) == if parts.len() == 0 {
            x
        } else {
            join_sep(parts, sep) + sep + x
        },
    decreases parts.len(),
{
    if parts.len() > 0 {
        lemma_join_push(parts.drop_first(), sep, x);
        assert(parts.push(x).drop_first() =~= parts.drop_first().push(x));
        assert(parts.push(x)[0] == parts[0]);
        if parts.len() == 1 {
            assert(join_sep(parts.push(x), sep) == parts[0] + sep + x);
            assert(join_sep(parts, sep) == parts[0]);
        } else {
            assert(join_sep(parts.push(x), sep) == parts[0] + sep + (join_sep(
                parts.drop_first(),
                sep,
            ) + sep + x));
            assert(parts[0] + sep + (join_sep(parts.drop_first(), sep) + sep + x) =~= (parts[0]
                + sep + join_sep(parts.drop_first(), sep)) + sep + x);
        }
    } else {
        assert(parts.push(x) =~= seq![x]);
    }
}

/// Joins the parts with the separator.
pub fn join_with(parts: &Vec<String>, sep: &str) -> (r: String)
    ensures
        r@ == join_sep(parts.deep_view(), sep@),
{
    let mut r = String::new();
    let mut i: usize = 0;
    proof {
        assert(parts.deep_view().take(0) =~= Seq::<Seq<char>>::empty());
    }
    while i < parts.len()
        invariant
            i <= parts.len(),
            r@ == join_sep(parts.deep_view().take(i as int), sep@),
        decreases parts.len() - i,
    {
        if i > 0 {
            r.append(sep);
        }
        r.append(parts[i].as_str());
        proof {
            lemma_join_push(parts.deep_view().take(i as int), sep@, parts.deep_view()[i as int]);
            assert(parts.deep_view().take(i as int).push(parts.deep_view()[i as int])
                =~= parts.deep_view().take(i as int + 1));
            assert(parts.deep_view()[i as int] == parts@[i as int]@);
        }
        i = i + 1;
    }
    proof {
        assert(parts.deep_view().take(parts.len() as int) =~= parts.deep_view());
    }
    r
}

impl LanguageTag {
    /// The subtags of the tag in grammar order, each with its class
    /// name and the severity its validation carries, if any: the
    /// entries a validation pass walks.
    #[verifier::loop_isolation(false)]
    pub fn properties(&self) -> (r: Vec<(String, &'static str, Option<Severity>)>)
        ensures
            r@.len() == spec_entries(self@).len(),
            forall|k: int|
                0 <= k < r@.len() ==> {
                    &&& (#[trigger] r@[k]).0@ == spec_entries(self@)[k].code
                    &&& r@[k].1@ == spec_entries(self@)[k].class
                    &&& r@[k].2 == spec_entries(self@)[k].severity
                },
    {
        let ghost es = spec_entries(self@);
        let mut r: Vec<(String, &'static str, Option<Severity>)> = Vec::new();
        r.push((self.language.clone(), "language", Option::Some(Severity::Error)));
        proof {
            assert(es[0] == EntryView {
                code: self@.language,
                class: "language"@,
                severity: Option::Some(Severity::Error),
            });
        }
        let mut i: usize = 0;
        while i < self.extlang.len()
            invariant
                i <= self.extlang.len(),
                r@.len() == 1 + i,
                forall|k: int|
                    0 <= k < r@.len() ==> {
                        &&& (#[trigger] r@[k]).0@ == es[k].code
                        &&& r@[k].1@ == es[k].class
                        &&& r@[k].2 == es[k].severity
                    },
            decreases self.extlang.len() - i,
        {
            r.push((self.extlang[i].clone(), "extLang", Option::Some(Severity::Warning)));
            proof {
                assert(es[1 + i] == EntryView {
                    code: self@.extlang[i as int],
                    class: "extLang"@,
                    severity: Option::Some(Severity::Warning),
                });
                assert(self@.extlang[i as int] == self.extlang@[i as int]@);
            }
            i = i + 1;
        }
        match &self.script {
            Option::Some(s) => {
                r.push((s.clone(), "script", Option::Some(Severity::Warning)));
                proof {
                    assert(es[r@.len() - 1] == EntryView {
                        code: s@,
                        class: "script"@,
                        severity: Option::Some(Severity::Warning),
                    });
                }
            },
            Option::None => {},
        }
        match &self.region {
            Option::Some(s) => {
                r.push((s.clone(), "region", Option::Some(Severity::Warning)));
                proof {
                    assert(es[r@.len() - 1] == EntryView {
                        code: s@,
                        class: "region"@,
                        severity: Option::Some(Severity::Warning),
                    });
                }
            },
            Option::None => {},
        }
        let ghost base = r@.len() as int;
        let mut i: usize = 0;
        while i < self.variants.len()
            invariant
                i <= self.variants.len(),
                r@.len() == base + i,
                forall|k: int|
                    0 <= k < r@.len() ==> {
                        &&& (#[trigger] r@[k]).0@ == es[k].code
                        &&& r@[k].1@ == es[k].class
                        &&& r@[k].2 == es[k].severity
                    },
            decreases self.variants.len() - i,
        {
            r.push((self.variants[i].clone(), "variant", Option::Some(Severity::Warning)));
            proof {
                assert(es[base + i] == EntryView {
                    code: self@.variants[i as int],
                    class: "variant"@,
                    severity: Option::Some(Severity::Warning),
                });
                assert(self@.variants[i as int] == self.variants@[i as int]@);
            }
            i = i + 1;
        }
        let ghost base2 = r@.len() as int;
        let mut i: usize = 0;
        while i < self.extensions.len()
            invariant
                i <= self.extensions.len(),
                r@.len() == base2 + i,
                forall|k: int|
                    0 <= k < r@.len() ==> {
                        &&& (#[trigger] r@[k]).0@ == es[k].code
                        &&& r@[k].1@ == es[k].class
                        &&& r@[k].2 == es[k].severity
                    },
            decreases self.extensions.len() - i,
        {
            let ext = &self.extensions[i];
            let mut s = String::new();
            push_char(&mut s, ext.singleton);
            s.append("-");
            let joined = join_with(&ext.parts, "-");
            s.append(joined.as_str());
            proof {
                assert(s@ =~= seq![ext@.singleton] + "-"@ + join_sep(ext@.parts, "-"@));
                assert(es[base2 + i] == EntryView {
                    code: ext_rendered(self@.extensions[i as int]),
                    class: "extension"@,
                    severity: Option::None,
                });
                assert(self@.extensions[i as int] == self.extensions@[i as int]@);
            }
            r.push((s, "extension", Option::None));
            i = i + 1;
        }
        let ghost base3 = r@.len() as int;
        let mut i: usize = 0;
        while i < self.private_use.len()
            invariant
                i <= self.private_use.len(),
                r@.len() == base3 + i,
                forall|k: int|
                    0 <= k < r@.len() ==> {
                        &&& (#[trigger] r@[k]).0@ == es[k].code
                        &&& r@[k].1@ == es[k].class
                        &&& r@[k].2 == es[k].severity
                    },
            decreases self.private_use.len() - i,
        {
            r.push((self.private_use[i].clone(), "privateUse", Option::None));
            proof {
                assert(es[base3 + i] == EntryView {
                    code: self@.private_use[i as int],
                    class: "privateUse"@,
                    severity: Option::None,
                });
                assert(self@.private_use[i as int] == self.private_use@[i as int]@);
            }
            i = i + 1;
        }
        proof {
            assert(r@.len() == es.len());
        }
        r
    }

    /// Synthesizes the display string from the resolved displays of
    /// the language, region and script subtags.
    fn render_display(
        &self,
        code: &str,
        language_display: &Option<String>,
        region_display: &Option<String>,
        script_display: &Option<String>,
    ) -> (d: String)
        ensures
            d@ == display_from(
                self@,
                code@,
                opt_str_view(*language_display),
                opt_str_view(*region_display),
                opt_str_view(*script_display),
            ),
    {
        let ghost t = self@;
        let mut plist: Vec<String> = Vec::new();
        proof {
            assert(plist.deep_view() =~= Seq::<Seq<char>>::empty());
        }
        match region_display {
            Option::Some(rd) => {
                let mut p = String::from_str("Region: ");
                p.append(rd.as_str());
                plist.push(p);
            },
            Option::None => {},
        }
        match script_display {
            Option::Some(sd) => {
                let mut p = String::from_str("Script: ");
                p.append(sd.as_str());
                plist.push(p);
            },
            Option::None => {},
        }
        if self.variants.len() > 0 {
            let mut p = String::from_str("Variant: ");
            let joined = join_with(&self.variants, ", ");
            p.append(joined.as_str());
            plist.push(p);
        }
        proof {
            assert(self.variants.deep_view() == t.variants);
            assert(plist.deep_view() =~= part_list_from(
                t,
                opt_str_view(*region_display),
                opt_str_view(*script_display),
            ));
        }
        match language_display {
            Option::Some(l) => {
                let mut d = String::from_str("Language: ");
                d.append(l.as_str());
                if plist.len() > 0 {
                    d.append(" (");
                    let joined = join_with(&plist, ", ");
                    d.append(joined.as_str());
                    d.append(")");
                }
                d
            },
            Option::None => {
                let mut d = String::from_str("Language tag: ");
                d.append(code);
                d
            },
        }
    }

    /// Builds the concept and the diagnostics of a validation pass from
    /// the given lookup outcomes, one per validated subtag in grammar
    /// order; the diagnostics come back sorted and free of duplicates.
    #[verifier::loop_isolation(false)]
    #[verifier::rlimit(100)]
    pub fn build_concept(&self, code: &str, outcomes: &Vec<Option<Concept>>) -> (res: (
        Concept,
        Vec<ParseDetail>,
    ))
        requires
            outcomes.deep_view().len() == checked_count(self@),
        ensures
            res.0@ == spec_concept(self@, code@, outcomes.deep_view()),
            crate::details::normalized_details(res.1.deep_view()),
            res.1.deep_view().to_set() == spec_details_raw(self@, outcomes.deep_view()).to_set(),
    {
        let ghost t = self@;
        let ghost es = spec_entries(t);
        let ghost os = outcomes.deep_view();
        let entries = self.properties();
        let n_out = outcomes.len();
        let mut properties: Vec<Property> = Vec::new();
        let mut raw: Vec<ParseDetail> = Vec::new();
        let mut language_display: Option<String> = Option::None;
        let mut region_display: Option<String> = Option::None;
        let mut script_display: Option<String> = Option::None;
        let mut oi: usize = 0;
        let mut k: usize = 0;
        proof {
            lemma_class_names_distinct();
            assert(es.skip(0) =~= es);
            assert(os.skip(0) =~= os);
            assert(properties.deep_view() =~= Seq::<PropertyView>::empty());
            assert(raw.deep_view() =~= Seq::<DetailView>::empty());
            assert(Seq::<PropertyView>::empty() + props_of(es, os) =~= props_of(es, os));
            assert(Seq::<DetailView>::empty() + details_of(es, os) =~= details_of(es, os));
            lemma_checked_in_nonneg(es);
        }
        while k < entries.len()
            invariant
                k <= entries.len(),
                oi <= os.len(),
                checked_in(es) == oi + checked_in(es.skip(k as int)),
                props_of(es, os) == properties.deep_view() + props_of(
                    es.skip(k as int),
                    os.skip(oi as int),
                ),
                details_of(es, os) == raw.deep_view() + details_of(
                    es.skip(k as int),
                    os.skip(oi as int),
                ),
                found_display(es, os, "language"@) == fd_join(
                    opt_str_view(language_display),
                    es.skip(k as int),
                    os.skip(oi as int),
                    "language"@,
                ),
                found_display(es, os, "region"@) == fd_join(
                    opt_str_view(region_display),
                    es.skip(k as int),
                    os.skip(oi as int),
                    "region"@,
                ),
                found_display(es, os, "script"@) == fd_join(
                    opt_str_view(script_display),
                    es.skip(k as int),
                    os.skip(oi as int),
                    "script"@,
                ),
            decreases entries.len() - k,
        {
            let e = &entries[k];
            let ghost props_old = properties.deep_view();
            let ghost raw_old = raw.deep_view();
            proof {
                assert(e.0@ == es[k as int].code);
                assert(e.1@ == es[k as int].class);
                assert(e.2 == es[k as int].severity);
                assert(es.skip(k as int)[0] == es[k as int]);
                assert(es.skip(k as int).drop_first() =~= es.skip(k as int + 1));
                lemma_checked_in_nonneg(es.skip(k as int + 1));
            }
            match e.2 {
                Option::Some(severity) => {
                    proof {
                        assert(checked_in(es.skip(k as int)) == 1 + checked_in(
                            es.skip(k as int + 1),
                        ));
                        assert(oi < os.len());
                        assert(os.skip(oi as int)[0] == os[oi as int]);
                        assert(os.skip(oi as int).drop_first() =~= os.skip(oi as int + 1));
                        assert(os[oi as int] == outcomes@[oi as int].deep_view());
                    }
                    let out = &outcomes[oi];
                    match out {
                        Option::Some(cpt) => {
                            let display = match &cpt.display {
                                Option::Some(d) => d.clone(),
                                Option::None => e.0.clone(),
                            };
                            proof {
                                assert(os[oi as int] matches Option::Some(cv) && cv == cpt@);
                                assert(display@ == resolved_value(es[k as int], os[oi as int]));
                            }
                            properties.push(
                                Property {
                                    code: String::from_str(e.1),
                                    value: ValueX::ValueString(display.clone()),
                                },
                            );
                            proof {
                                let head = PropertyView {
                                    code: es[k as int].class,
                                    value: ValueXView::ValueString(
                                        resolved_value(es[k as int], os[oi as int]),
                                    ),
                                };
                                assert(properties.deep_view() =~= props_old.push(head));
                                assert(props_of(es.skip(k as int), os.skip(oi as int)) == seq![head]
                                    + props_of(es.skip(k as int + 1), os.skip(oi as int + 1)));
                                assert(props_old + (seq![head] + props_of(
                                    es.skip(k as int + 1),
                                    os.skip(oi as int + 1),
                                )) =~= props_old.push(head) + props_of(
                                    es.skip(k as int + 1),
                                    os.skip(oi as int + 1),
                                ));
                                assert(details_of(es.skip(k as int), os.skip(oi as int))
                                    == Seq::<DetailView>::empty() + details_of(
                                    es.skip(k as int + 1),
                                    os.skip(oi as int + 1),
                                ));
                                assert(Seq::<DetailView>::empty() + details_of(
                                    es.skip(k as int + 1),
                                    os.skip(oi as int + 1),
                                ) =~= details_of(es.skip(k as int + 1), os.skip(oi as int + 1)));
                            }
                            if str_eq(e.1, "language") {
                                if language_display.is_none() {
                                    language_display = Option::Some(display);
                                }
                            } else if str_eq(e.1, "region") {
                                if region_display.is_none() {
                                    region_display = Option::Some(display);
                                }
                            } else if str_eq(e.1, "script") {
                                if script_display.is_none() {
                                    script_display = Option::Some(display);
                                }
                            }
                        },
                        Option::None => {
                            properties.push(
                                Property {
                                    code: String::from_str(e.1),
                                    value: ValueX::ValueString(e.0.clone()),
                                },
                            );
                            let mut msg = String::from_str("Invalid ");
                            msg.append(e.1);
                            msg.append(" subtag: ");
                            msg.append(e.0.as_str());
                            raw.push(
                                ParseDetail {
                                    severity,
                                    key: String::from_str(e.1),
                                    value: ValueX::ValueString(msg),
                                },
                            );
                            proof {
                                let head = PropertyView {
                                    code: es[k as int].class,
                                    value: ValueXView::ValueString(
                                        resolved_value(es[k as int], os[oi as int]),
                                    ),
                                };
                                assert(properties.deep_view() =~= props_old.push(head));
                                assert(props_old + (seq![head] + props_of(
                                    es.skip(k as int + 1),
                                    os.skip(oi as int + 1),
                                )) =~= props_old.push(head) + props_of(
                                    es.skip(k as int + 1),
                                    os.skip(oi as int + 1),
                                ));
                                let dhead = invalid_subtag_detail(es[k as int]);
                                assert(raw.deep_view() =~= raw_old.push(dhead));
                                assert(details_of(es.skip(k as int), os.skip(oi as int))
                                    == seq![dhead] + details_of(
                                    es.skip(k as int + 1),
                                    os.skip(oi as int + 1),
                                ));
                                assert(raw_old + (seq![dhead] + details_of(
                                    es.skip(k as int + 1),
                                    os.skip(oi as int + 1),
                                )) =~= raw_old.push(dhead) + details_of(
                                    es.skip(k as int + 1),
                                    os.skip(oi as int + 1),
                                ));
                            }
                        },
                    }
                    oi = oi + 1;
                },
                Option::None => {
                    properties.push(
                        Property {
                            code: String::from_str(e.1),
                            value: ValueX::ValueString(e.0.clone()),
                        },
                    );
                    proof {
                        let head = PropertyView {
                            code: es[k as int].class,
                            value: ValueXView::ValueString(es[k as int].code),
                        };
                        assert(properties.deep_view() =~= props_old.push(head));
                        assert(props_of(es.skip(k as int), os.skip(oi as int)) == seq![head]
                            + props_of(es.skip(k as int + 1), os.skip(oi as int)));
                        assert(props_old + (seq![head] + props_of(
                            es.skip(k as int + 1),
                            os.skip(oi as int),
                        )) =~= props_old.push(head) + props_of(
                            es.skip(k as int + 1),
                            os.skip(oi as int),
                        ));
                    }
                },
            }
            k = k + 1;
        }
        proof {
            assert(es.skip(es.len() as int) =~= Seq::<EntryView>::empty());
            assert(props_of(es, os) == properties.deep_view());
            assert(details_of(es, os) == raw.deep_view());
            assert(found_display(es, os, "language"@) == opt_str_view(language_display));
            assert(found_display(es, os, "region"@) == opt_str_view(region_display));
            assert(found_display(es, os, "script"@) == opt_str_view(script_display));
        }
        let display = self.render_display(code, &language_display, &region_display, &script_display);
        proof {
            assert(display@ == display_of(t, code@, os));
        }
        let concept = Concept {
            code: String::from_str(code),
            display: Option::Some(display),
            properties,
        };
        let details = crate::details::normalize_details(raw);
        proof {
            assert(concept@ =~= spec_concept(t, code@, os));
        }
        (concept, details)
    }
}

} // verus!
