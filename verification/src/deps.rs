//! The canonical dependency model and the normalizer that builds it out of
//! externally supplied declarations.

use vstd::prelude::*;

use crate::versions::{canon_req, spec_req_canon, spec_req_ok};

verus! {

/// Where a declared dependency resolves from.
#[derive(Clone, Copy, PartialEq, Eq, Structural, Debug)]
pub enum SourceKind {
    Registry,
    LocalPath,
    Other,
}

/// An externally supplied version-requirement declaration: no constraint at
/// all, a locked dependency's fallback requirement, or an explicit
/// requirement expression.
pub enum ReqDecl {
    Any,
    Locked(String),
    Explicit(String),
}

/// Mathematical model of a `ReqDecl`.
pub enum ReqDeclView {
    Any,
    Locked(Seq<char>),
    Explicit(Seq<char>),
}

impl View for ReqDecl {
    type V = ReqDeclView;

    open spec fn view(&self) -> ReqDeclView {
        match self {
            ReqDecl::Any => ReqDeclView::Any,
            ReqDecl::Locked(s) => ReqDeclView::Locked(s@),
            ReqDecl::Explicit(s) => ReqDeclView::Explicit(s@),
        }
    }
}

/// One declared dependency, with its requirement held in canonical form.
pub struct Dependency {
    pub name: String,
    pub version_req: String,
    pub source_kind: SourceKind,
}

/// Mathematical model of a `Dependency`.
#[verifier::ext_equal]
pub struct DepView {
    pub name: Seq<char>,
    pub version_req: Seq<char>,
    pub source_kind: SourceKind,
}

impl View for Dependency {
    type V = DepView;

    open spec fn view(&self) -> DepView {
        DepView {
            name: self.name@,
            version_req: self.version_req@,
            source_kind: self.source_kind,
        }
    }
}

/// The canonical requirement a declaration normalizes to: the wildcard for
/// an unconstrained declaration, otherwise the canonical rendering of the
/// declared expression; `None` when the expression does not parse.
pub open spec fn spec_normalize(d: ReqDeclView) -> Option<Seq<char>> {
    match d {
        ReqDeclView::Any => Some("*"@),
        ReqDeclView::Locked(s) => if spec_req_ok(s) {
            Some(spec_req_canon(s))
        } else {
            None
        },
        ReqDeclView::Explicit(s) => if spec_req_ok(s) {
            Some(spec_req_canon(s))
        } else {
            None
        },
    }
}

/// Normalizes one declaration to its canonical requirement expression.
///
/// The wildcard case cannot fail: it is a fixed literal, no parse is
/// involved. A `None` means the declared expression itself was malformed,
/// which a well-formed manifest provider never hands in.
pub fn normalize_declaration(decl: &ReqDecl) -> (r: Option<String>)
    ensures
        r.is_some() == spec_normalize(decl@).is_some(),
        r matches Some(s) ==> spec_normalize(decl@) == Some(s@),
{
    match decl {
        ReqDecl::Any => Some(String::from_str("*")),
        ReqDecl::Locked(s) => canon_req(s.as_str()),
        ReqDecl::Explicit(s) => canon_req(s.as_str()),
    }
}

impl Dependency {
    /// Builds the canonical dependency for one declaration.
    pub fn new(name: String, decl: &ReqDecl, source_kind: SourceKind) -> (r: Option<Dependency>)
        ensures
            r.is_some() == spec_normalize(decl@).is_some(),
            r matches Some(d) ==> d@ == (DepView {
                name: name@,
                version_req: spec_normalize(decl@).unwrap(),
                source_kind: source_kind,
            }),
    {
        match normalize_declaration(decl) {
            Some(req) => Some(Dependency { name, version_req: req, source_kind }),
            None => None,
        }
    }
}

/// Whether the sequence holds the dependency, by full identity.
pub open spec fn spec_contains_dep(s: Seq<DepView>, d: DepView) -> bool {
    exists|i: int| 0 <= i < s.len() && s[i] == d
}

/// Whether two dependencies agree on name, requirement and source kind.
pub fn dep_eq(a: &Dependency, b: &Dependency) -> (r: bool)
    ensures
        r == (a@ == b@),
{
    let r = a.name == b.name && a.version_req == b.version_req && a.source_kind
        == b.source_kind;
    proof {
        if r {
            assert(a@ =~= b@);
        }
    }
    r
}

/// Appends the dependency unless an identical one is already present, so
/// that a package's dependency list behaves as a set.
pub fn add_dependency(deps: &mut Vec<Dependency>, d: Dependency)
    ensures
        final(deps)@.map_values(|x: Dependency| x@) == if spec_contains_dep(
            old(deps)@.map_values(|x: Dependency| x@),
            d@,
        ) {
            old(deps)@.map_values(|x: Dependency| x@)
        } else {
            old(deps)@.map_values(|x: Dependency| x@).push(d@)
        },
{
    let ghost dvs = deps@.map_values(|x: Dependency| x@);
    let n = deps.len();
    let mut i: usize = 0;
    while i < n
        invariant
            i <= n,
            n == deps.len(),
            dvs == deps@.map_values(|x: Dependency| x@),
            forall|j: int| 0 <= j < i ==> dvs[j] != d@,
        decreases n - i,
    {
        if dep_eq(&deps[i], &d) {
            assert(dvs[i as int] == d@);
            return ;
        }
        i += 1;
    }
    assert(!spec_contains_dep(dvs, d@));
    deps.push(d);
    assert(deps@.map_values(|x: Dependency| x@) =~= dvs.push(d@));
}

} // verus!
