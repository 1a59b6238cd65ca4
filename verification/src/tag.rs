//! The structured form of a parsed language tag.

use vstd::prelude::*;
use crate::grammar::valid_language;
use crate::grammar::valid_extlang;
use crate::grammar::valid_script;
use crate::grammar::valid_region;
use crate::grammar::valid_variant;
use crate::grammar::valid_ext_part;
use crate::grammar::valid_priv_part;
use crate::text::char_is_alnum;

verus! {

/// One extension group: a singleton character and its parts.
#[derive(Debug, Clone, PartialEq, Eq)]
pub struct Extension {
    pub singleton: char,
    pub parts: Vec<String>,
}

/// A language tag decomposed into its typed subtag groups, in grammar
/// order. An empty `private_use` sequence stands for an absent
/// private-use group.
#[derive(Debug, Clone, PartialEq, Eq)]
pub struct LanguageTag {
    pub language: String,
    pub extlang: Vec<String>,
    pub script: Option<String>,
    pub region: Option<String>,
    pub variants: Vec<String>,
    pub extensions: Vec<Extension>,
    pub private_use: Vec<String>,
}

/// Mathematical view of an `Extension`.
#[verifier::ext_equal]
pub struct ExtensionView {
    pub singleton: char,
    pub parts: Seq<Seq<char>>,
}

/// Mathematical view of a `LanguageTag`.
#[verifier::ext_equal]
pub struct TagView {
    pub language: Seq<char>,
    pub extlang: Seq<Seq<char>>,
    pub script: Option<Seq<char>>,
    pub region: Option<Seq<char>>,
    pub variants: Seq<Seq<char>>,
    pub extensions: Seq<ExtensionView>,
    pub private_use: Seq<Seq<char>>,
}

impl View for Extension {
    type V = ExtensionView;

    open spec fn view(&self) -> ExtensionView {
        ExtensionView { singleton: self.singleton, parts: self.parts.deep_view() }
    }
}

impl DeepView for Extension {
    type V = ExtensionView;

    open spec fn deep_view(&self) -> ExtensionView {
        self.view()
    }
}

impl View for LanguageTag {
    type V = TagView;

    open spec fn view(&self) -> TagView {
        TagView {
            language: self.language@,
            extlang: self.extlang.deep_view(),
            script: crate::model::opt_str_view(self.script),
            region: crate::model::opt_str_view(self.region),
            variants: self.variants.deep_view(),
            extensions: self.extensions.deep_view(),
            private_use: self.private_use.deep_view(),
        }
    }
}

impl DeepView for LanguageTag {
    type V = TagView;

    open spec fn deep_view(&self) -> TagView {
        self.view()
    }
}

/// A well-formed extension group: a singleton other than `x` and at
/// least one part, each part two to eight letters and digits.
pub open spec fn wf_extension(e: ExtensionView) -> bool {
    &&& char_is_alnum(e.singleton)
    &&& e.singleton != 'x'
    &&& e.parts.len() >= 1
    &&& forall|k: int| 0 <= k < e.parts.len() ==> valid_ext_part(#[trigger] e.parts[k])
}

/// The grammar invariant a successfully parsed tag satisfies: each
/// field holds subtags of its class, within its cardinality.
pub open spec fn wf_tag(t: TagView) -> bool {
    &&& valid_language(t.language)
    &&& t.extlang.len() <= 3
    &&& forall|k: int| 0 <= k < t.extlang.len() ==> valid_extlang(#[trigger] t.extlang[k])
    &&& t.script matches Option::Some(s) ==> valid_script(t.script->Some_0)
    &&& t.region matches Option::Some(s) ==> valid_region(t.region->Some_0)
    &&& t.variants.len() <= 5
    &&& forall|k: int| 0 <= k < t.variants.len() ==> valid_variant(#[trigger] t.variants[k])
    &&& forall|k: int| 0 <= k < t.extensions.len() ==> wf_extension(#[trigger] t.extensions[k])
    &&& forall|k: int| 0 <= k < t.private_use.len() ==> valid_priv_part(#[trigger] t.private_use[k])
}

} // verus!
