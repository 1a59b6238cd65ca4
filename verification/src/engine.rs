//! The terminology engine: the parser, the validator and the concept
//! builder tied together behind the engine interface, bound to a
//! terminology database.

use vstd::prelude::*;
use vstd::string::StringExecFns;
use crate::codesystem::CODE_SYSTEM;
use crate::concept::checked_count;
use crate::concept::checked_in;
use crate::concept::spec_concept;
use crate::concept::spec_details_raw;
use crate::concept::spec_entries;
use crate::details::normalized_details;
use crate::model::Concept;
use crate::model::ConceptView;
use crate::model::DetailView;
use crate::model::LookupRequest;
use crate::model::ParseDetail;
use crate::model::ParseRequest;
use crate::model::ParseResponse;
use crate::model::SubsumesRequest;
use crate::model::SubsumesResponse;
use crate::parser::parse_tag;
use crate::parser::spec_parse;
use crate::tag::LanguageTag;
use crate::tag::TagView;
use crate::terminology::TerminologyDb;
use crate::terminology::TerminologyEngine;

verus! {

/// The engine: a tag parser and validator bound to a terminology
/// database.
pub struct Guest<T: TerminologyDb> {
    pub(crate) db: T,
}

impl<T: TerminologyDb> Guest<T> {
    /// Creates an engine over the given database.
    pub fn new(host: T) -> Guest<T> {
        Guest { db: host }
    }

    /// Parses a tag into its structured form, or reports the single
    /// fatal diagnostic.
    pub fn parse_language_tag(&self, input: &str) -> (r: Result<LanguageTag, ParseDetail>)
        ensures
            match r {
                Result::Ok(tag) => spec_parse(input@) == Result::<TagView, DetailView>::Ok(tag@),
                Result::Err(d) => spec_parse(input@) == Result::<TagView, DetailView>::Err(d@),
            },
    {
        parse_tag(input)
    }
}

impl LanguageTag {
    /// Resolves every subtag that carries a validation severity
    /// against the database, one lookup per subtag in grammar order
    /// under the key `class-code`, and assembles the concept and the
    /// normalized diagnostics. Lookup failures degrade trust through
    /// diagnostics; the concept is always produced.
    #[verifier::loop_isolation(false)]
    pub fn into_concept<T: TerminologyDb>(&self, code: &str, db: &T) -> (res: (
        Option<Concept>,
        Vec<ParseDetail>,
    ))
        ensures
            res.0 is Some,
            normalized_details(res.1.deep_view()),
            exists|outs: Seq<Option<ConceptView>>|
                {
                    &&& outs.len() == checked_count(self@)
                    &&& res.0 matches Option::Some(c) && c@ == spec_concept(self@, code@, outs)
                    &&& res.1.deep_view().to_set() == spec_details_raw(self@, outs).to_set()
                },
    {
        let ghost es = spec_entries(self@);
        let entries = self.properties();
        let mut outcomes: Vec<Option<Concept>> = Vec::new();
        let mut k: usize = 0;
        proof {
            assert(es.skip(0) =~= es);
            assert(outcomes.deep_view() =~= Seq::<Option<ConceptView>>::empty());
        }
        while k < entries.len()
            invariant
                k <= entries.len(),
                checked_in(es) == outcomes.deep_view().len() + checked_in(es.skip(k as int)),
            decreases entries.len() - k,
        {
            let e = &entries[k];
            let ghost outs_old = outcomes.deep_view();
            proof {
                assert(e.2 == es[k as int].severity);
                assert(es.skip(k as int)[0] == es[k as int]);
                assert(es.skip(k as int).drop_first() =~= es.skip(k as int + 1));
            }
            match e.2 {
                Option::Some(_severity) => {
                    let mut key = String::from_str(e.1);
                    key.append("-");
                    key.append(e.0.as_str());
                    let resp = db.db_lookup(LookupRequest { code: key, properties: Option::None });
                    outcomes.push(resp.concept);
                    proof {
                        assert(outcomes.deep_view() =~= outs_old.push(
                            outcomes@[outs_old.len() as int].deep_view(),
                        ));
                    }
                },
                Option::None => {},
            }
            k = k + 1;
        }
        proof {
            assert(es.skip(es.len() as int) =~= Seq::<crate::concept::EntryView>::empty());
            assert(outcomes.deep_view().len() == checked_count(self@));
        }
        let (concept, details) = self.build_concept(code, &outcomes);
        proof {
            let outs = outcomes.deep_view();
            assert(outs.len() == checked_count(self@));
            assert(concept@ == spec_concept(self@, code@, outs));
            assert(details.deep_view().to_set() == spec_details_raw(self@, outs).to_set());
        }
        (Option::Some(concept), details)
    }
}

impl<T: TerminologyDb> TerminologyEngine<T> for Guest<T> {
    /// Returns the static code-system description document.
    fn metadata(&self) -> (r: String)
        ensures
            r@ == CODE_SYSTEM@,
    {
        String::from_str(CODE_SYSTEM)
    }

    /// Parses and validates a tag. A syntactically invalid tag yields
    /// exactly its one fatal diagnostic and no concept; a valid tag
    /// always yields a concept, assembled from one lookup per
    /// validated subtag, with normalized diagnostics for the subtags
    /// that did not resolve.
    fn parse(&self, req: ParseRequest) -> (r: ParseResponse)
        ensures
            normalized_details(r.details.deep_view()),
            (r.concept is Some) == (spec_parse(req.code@) is Ok),
            spec_parse(req.code@) matches Result::Err(d) ==> r.details.deep_view() == seq![d],
            spec_parse(req.code@) matches Result::Ok(tv) ==> exists|
                outs: Seq<Option<ConceptView>>,
            |
                {
                    &&& outs.len() == checked_count(tv)
                    &&& r.concept matches Option::Some(c) && c@ == spec_concept(tv, req.code@, outs)
                    &&& r.details.deep_view().to_set() == spec_details_raw(tv, outs).to_set()
                },
    {
        match self.parse_language_tag(req.code.as_str()) {
            Result::Ok(tag) => {
                let (concept, details) = tag.into_concept(req.code.as_str(), &self.db);
                ParseResponse { concept, details }
            },
            Result::Err(detail) => {
                let ghost dv = detail@;
                let mut details: Vec<ParseDetail> = Vec::new();
                details.push(detail);
                proof {
                    assert(details.deep_view() =~= seq![dv]);
                }
                ParseResponse { concept: Option::None, details }
            },
        }
    }

    /// Reserved for future hierarchy checks: this engine does not
    /// implement subsumption and answers `None`.
    fn subsumes(&self, _req: SubsumesRequest) -> (r: Option<SubsumesResponse>)
        ensures
            r is None,
    {
        Option::None
    }
}

} // verus!
