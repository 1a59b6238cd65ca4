//! The static description document of this code system: the legacy
//! IETF language-tag code system, as a JSON text.

use vstd::prelude::*;

verus! {

/// The code-system description document the engine's metadata call
/// returns.
pub const CODE_SYSTEM: &'static str = "{
  \"resourceType\" : \"CodeSystem\",
  \"url\" : \"urn:ietf:bcp:47\",
  \"identifier\" : [{
    \"system\" : \"urn:ietf:rfc:3986\",
    \"value\" : \"urn:oid:2.16.840.1.113883.6.121\"
  }],
  \"version\" : \"2.0.1\",
  \"name\" : \"Ietf3066\",
  \"title\" : \"Tags for the Identification of Languages\",
  \"status\" : \"active\",
  \"experimental\" : false,
  \"date\" : \"2019-03-20T00:00:00-04:00\",
  \"publisher\" : \"TBD - External Body\",
  \"contact\" : [{
    \"name\" : \"The Internet Engineering Task Force (IETF)\"
  }],
  \"description\" : \"Older value from OID registry.  Superceded; see recommendations in BCP-47.\",
  \"caseSensitive\" : true,
  \"content\" : \"not-present\"
}";

} // verus!
