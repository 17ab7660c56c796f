//! Short-link citations: the compact representation of a canonical URL that
//! keeps published text within a network's length budget while preserving
//! provenance.

use vstd::prelude::*;

verus! {

/// A permashort citation, derived from the URL shortener. It has two
/// renderings: a human-readable `domain path` form used when the citation is
/// appended in brackets, and a full URI used in the quoted-excerpt form.
#[derive(Debug, Clone)]
pub struct PermashortCitation {
    pub protocol: String,
    pub domain: String,
    pub short_path: String,
}

/// The human-readable rendering: `domain short_path`.
pub open spec fn citation_display(pc: PermashortCitation) -> Seq<char> {
    pc.domain@ + seq![' '] + pc.short_path@
}

/// The full URI rendering: `protocol://domain/short_path`.
pub open spec fn citation_uri(pc: PermashortCitation) -> Seq<char> {
    pc.protocol@ + seq![':', '/', '/'] + pc.domain@ + seq!['/'] + pc.short_path@
}

impl PermashortCitation {
    pub fn new(protocol: String, domain: String, short_path: String) -> (r: Self)
        ensures
            r.protocol@ == protocol@,
            r.domain@ == domain@,
            r.short_path@ == short_path@,
    {
        PermashortCitation { protocol, domain, short_path }
    }

    /// Builds the citation for a short code as the URL shortener hands it
    /// out: the stored path is `s/<code>`.
    pub fn from_short_code(protocol: &String, domain: &String, code: &String) -> (r: Self)
        ensures
            r.protocol@ == protocol@,
            r.domain@ == domain@,
            r.short_path@ == "s/"@ + code@,
    {
        let mut short_path = String::from_str("s/");
        short_path.append(code.as_str());
        PermashortCitation {
            protocol: protocol.clone(),
            domain: domain.clone(),
            short_path,
        }
    }

    /// The full URI form of the citation.
    pub fn to_uri(&self) -> (r: String)
        ensures
            r@ == citation_uri(*self),
    {
        let mut r = self.protocol.clone();
        r.append("://");
        r.append(self.domain.as_str());
        r.append("/");
        r.append(self.short_path.as_str());
        proof {
            reveal_strlit("://");
            reveal_strlit("/");
            assert("://"@ =~= seq![':', '/', '/']);
            assert("/"@ =~= seq!['/']);
            assert(r@ =~= citation_uri(*self));
        }
        r
    }

    /// The human-readable `domain path` form of the citation.
    pub fn to_string(&self) -> (r: String)
        ensures
            r@ == citation_display(*self),
    {
        let mut r = self.domain.clone();
        r.append(" ");
        r.append(self.short_path.as_str());
        proof {
            reveal_strlit(" ");
            assert(" "@ =~= seq![' ']);
            assert(r@ =~= citation_display(*self));
        }
        r
    }
}

} // verus!
