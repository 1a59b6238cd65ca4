//! The collaborator and engine interfaces: the read-only terminology
//! database a validation pass consults, and the engine contract this
//! library implements.

use vstd::prelude::*;
use vstd::string::StringExecFns;
use crate::model::ConceptView;
use crate::model::LookupRequest;
use crate::model::LookupResponse;
use crate::model::ParseRequest;
use crate::model::ParseResponse;
use crate::model::PropertyView;
use crate::model::SubsumesRequest;
use crate::model::SubsumesResponse;
use crate::model::ValueX;
use crate::model::ValueXView;
use crate::text::str_eq;

verus! {

/// The first string-valued property coded `display` in a property
/// list, if any.
pub open spec fn first_display_prop(props: Seq<PropertyView>) -> Option<Seq<char>>
    decreases props.len(),
{
    if props.len() == 0 {
        Option::None
    } else if props[0].code == "display"@ && props[0].value is ValueString {
        Option::Some(props[0].value->ValueString_0)
    } else {
        first_display_prop(props.drop_first())
    }
}

/// What resolving a code to a display text yields for a given lookup
/// outcome: the found concept's first display property, else the code
/// itself.
pub open spec fn spec_lookup_display(code: Seq<char>, out: Option<ConceptView>) -> Seq<char> {
    match out {
        Option::Some(c) => match first_display_prop(c.properties) {
            Option::Some(d) => d,
            Option::None => code,
        },
        Option::None => code,
    }
}

/// A read-only terminology database: resolves codes to registered
/// concepts. The embedding caller supplies the implementation; the
/// validator only requires that each call returns some answer.
pub trait TerminologyDb {
    /// Returns the concept registered under the request's code, if
    /// any, restricted to the requested properties when those are
    /// given.
    fn db_lookup(&self, req: LookupRequest) -> LookupResponse;

    /// Decides whether the ancestor code subsumes the descendant code.
    fn db_subsumes(&self, req: SubsumesRequest) -> SubsumesResponse;

    /// Resolves a code to a display text: the first string-valued
    /// `display` property of the concept the database returns for the
    /// code, else the code itself.
    fn lookup_display(&self, code: &str) -> (r: String)
        default_ensures
            exists|out: Option<ConceptView>| r@ == spec_lookup_display(code@, out),
    {
        let resp = self.db_lookup(
            LookupRequest { code: String::from_str(code), properties: Option::None },
        );
        match resp.concept {
            Option::Some(c) => {
                let ghost cv = c@;
                let mut i: usize = 0;
                proof {
                    assert(cv.properties.skip(0) =~= cv.properties);
                }
                while i < c.properties.len()
                    invariant
                        i <= c.properties.len(),
                        cv == c@,
                        first_display_prop(cv.properties) == first_display_prop(
                            cv.properties.skip(i as int),
                        ),
                    decreases c.properties.len() - i,
                {
                    let p = &c.properties[i];
                    proof {
                        assert(cv.properties[i as int] == c.properties@[i as int]@);
                        assert(cv.properties.skip(i as int)[0] == cv.properties[i as int]);
                        assert(cv.properties.skip(i as int).drop_first() =~= cv.properties.skip(
                            i as int + 1,
                        ));
                    }
                    if str_eq(p.code.as_str(), "display") {
                        match &p.value {
                            ValueX::ValueString(s) => {
                                let r = s.clone();
                                proof {
                                    assert(r@ == spec_lookup_display(code@, Option::Some(cv)));
                                }
                                return r;
                            },
                            _ => {},
                        }
                    }
                    i = i + 1;
                }
                let r = String::from_str(code);
                proof {
                    assert(cv.properties.skip(c.properties.len() as int)
                        =~= Seq::<PropertyView>::empty());
                    assert(r@ == spec_lookup_display(code@, Option::Some(cv)));
                }
                r
            },
            Option::None => {
                let r = String::from_str(code);
                proof {
                    assert(r@ == spec_lookup_display(code@, Option::None));
                }
                r
            },
        }
    }
}

/// The engine interface a terminology code system presents: a static
/// description document, tag parsing, and subsumption testing.
pub trait TerminologyEngine<T: TerminologyDb> {
    /// A static description document of the code system.
    fn metadata(&self) -> String;

    /// Parses and validates a tag, returning diagnostics and, when the
    /// syntactic parse succeeded, the structured concept.
    fn parse(&self, req: ParseRequest) -> ParseResponse;

    /// Decides whether one code subsumes another; an engine that does
    /// not support hierarchy checks returns `None`.
    fn subsumes(&self, req: SubsumesRequest) -> Option<SubsumesResponse>;
}

/// Access to the terminology database a component carries.
pub trait WithDb {
    /// The database type the component is bound to.
    type Db: TerminologyDb;

    /// The database the component consults.
    fn db(&self) -> &Self::Db;
}

/// Handle for the terminology database the embedding host provides;
/// the host binding itself lives with the embedding application.
#[derive(Debug, Clone, Copy)]
pub struct HostReal {}

impl HostReal {
    /// Creates the handle.
    pub fn new() -> (h: HostReal) {
        HostReal {  }
    }
}

} // verus!
