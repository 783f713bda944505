//! The scan over all packages and their dependencies: local-path filtering,
//! freshness evaluation against the fetched registry responses, and
//! adjacent-duplicate collapsing.

use vstd::prelude::*;

use crate::deps::{DepView, Dependency, SourceKind};
use crate::registry::{
    select_latest, spec_all_parse, spec_select, view_records, VersionRecord, VersionRecordView,
};
use crate::versions::{is_up_to_date, spec_req_matches, spec_req_ok, spec_version_ok};

verus! {

/// One workspace member: its name and its declared dependencies.
pub struct PackageDeps {
    pub name: String,
    pub deps: Vec<Dependency>,
}

/// Mathematical model of a `PackageDeps`.
#[verifier::ext_equal]
pub struct PackageDepsView {
    pub name: Seq<char>,
    pub deps: Seq<DepView>,
}

impl View for PackageDeps {
    type V = PackageDepsView;

    open spec fn view(&self) -> PackageDepsView {
        PackageDepsView { name: self.name@, deps: self.deps@.map_values(|d: Dependency| d@) }
    }
}

impl PackageDeps {
    /// A member with no dependencies recorded yet.
    pub fn new(name: String) -> (r: PackageDeps)
        ensures
            r@.name == name@,
            r@.deps == Seq::<DepView>::empty(),
    {
        let r = PackageDeps { name, deps: Vec::new() };
        proof {
            assert(r@.deps =~= Seq::<DepView>::empty());
        }
        r
    }

    /// Records one declared dependency; an identical one is recorded only
    /// once, so the member's list behaves as a set.
    pub fn add(&mut self, d: Dependency)
        ensures
            final(self)@.name == old(self)@.name,
            final(self)@.deps == if crate::deps::spec_contains_dep(old(self)@.deps, d@) {
                old(self)@.deps
            } else {
                old(self)@.deps.push(d@)
            },
    {
        crate::deps::add_dependency(&mut self.deps, d);
    }
}

/// What the registry answered for one dependency name: its decoded version
/// records, or `None` when the fetch or the decoding failed.
pub struct RegistryResponse {
    pub name: String,
    pub records: Option<Vec<VersionRecord>>,
}

/// Mathematical model of a `RegistryResponse`.
#[verifier::ext_equal]
pub struct RegistryResponseView {
    pub name: Seq<char>,
    pub records: Option<Seq<VersionRecordView>>,
}

impl View for RegistryResponse {
    type V = RegistryResponseView;

    open spec fn view(&self) -> RegistryResponseView {
        RegistryResponseView {
            name: self.name@,
            records: match self.records {
                None => None,
                Some(v) => Some(view_records(v@)),
            },
        }
    }
}

/// One detected case of a dependency whose latest available version does
/// not satisfy its declared requirement.
pub struct OutdatedFinding {
    pub owning_package: String,
    pub dependency_name: String,
    pub version_in_toml: String,
    pub latest_version: String,
}

/// Mathematical model of an `OutdatedFinding`.
#[verifier::ext_equal]
pub struct OutdatedFindingView {
    pub owning_package: Seq<char>,
    pub dependency_name: Seq<char>,
    pub version_in_toml: Seq<char>,
    pub latest_version: Seq<char>,
}

impl View for OutdatedFinding {
    type V = OutdatedFindingView;

    open spec fn view(&self) -> OutdatedFindingView {
        OutdatedFindingView {
            owning_package: self.owning_package@,
            dependency_name: self.dependency_name@,
            version_in_toml: self.version_in_toml@,
            latest_version: self.latest_version@,
        }
    }
}

/// Views of a response vector.
pub open spec fn view_resps(s: Seq<RegistryResponse>) -> Seq<RegistryResponseView> {
    s.map_values(|r: RegistryResponse| r@)
}

/// Views of a finding vector.
pub open spec fn view_findings(s: Seq<OutdatedFinding>) -> Seq<OutdatedFindingView> {
    s.map_values(|f: OutdatedFinding| f@)
}

/// Views of a package vector.
pub open spec fn view_pkgs(s: Seq<PackageDeps>) -> Seq<PackageDepsView> {
    s.map_values(|p: PackageDeps| p@)
}

/// Whether two findings agree on every field.
pub fn finding_eq(a: &OutdatedFinding, b: &OutdatedFinding) -> (r: bool)
    ensures
        r == (a@ == b@),
{
    let r = a.owning_package == b.owning_package && a.dependency_name == b.dependency_name
        && a.version_in_toml == b.version_in_toml && a.latest_version == b.latest_version;
    proof {
        if r {
            assert(a@ =~= b@);
        }
    }
    r
}

/// A field-for-field copy of a finding.
pub fn clone_finding(f: &OutdatedFinding) -> (r: OutdatedFinding)
    ensures
        r@ == f@,
{
    let r = OutdatedFinding {
        owning_package: f.owning_package.clone(),
        dependency_name: f.dependency_name.clone(),
        version_in_toml: f.version_in_toml.clone(),
        latest_version: f.latest_version.clone(),
    };
    proof {
        assert(r@ =~= f@);
    }
    r
}

/// The first response recorded under the name, when any is.
pub open spec fn spec_lookup(resps: Seq<RegistryResponseView>, name: Seq<char>) -> Option<
    RegistryResponseView,
>
    decreases resps.len(),
{
    if resps.len() == 0 {
        None
    } else if resps[0].name == name {
        Some(resps[0])
    } else {
        spec_lookup(resps.drop_first(), name)
    }
}

/// Finds the response recorded for a dependency name.
pub fn lookup_response<'a>(resps: &'a Vec<RegistryResponse>, name: &String) -> (r: Option<
    &'a RegistryResponse,
>)
    ensures
        match r {
            Some(resp) => spec_lookup(view_resps(resps@), name@) == Some(resp@),
            None => spec_lookup(view_resps(resps@), name@) is None,
        },
{
    let ghost whole = view_resps(resps@);
    proof {
        assert(whole.subrange(0, resps.len() as int) =~= whole);
    }
    let n = resps.len();
    let mut i: usize = 0;
    while i < n
        invariant
            i <= n,
            n == resps.len(),
            whole == view_resps(resps@),
            whole.len() == n,
            spec_lookup(whole, name@) == spec_lookup(
                whole.subrange(i as int, n as int),
                name@,
            ),
        decreases n - i,
    {
        let ghost cur = whole.subrange(i as int, n as int);
        proof {
            assert(cur.drop_first() =~= whole.subrange(i as int + 1, n as int));
            assert(cur[0] == whole[i as int]);
            assert(whole[i as int] == resps@[i as int]@);
        }
        if resps[i].name == *name {
            proof {
                assert(cur[0].name == name@);
                assert(spec_lookup(cur, name@) == Some(cur[0]));
            }
            return Some(&resps[i]);
        }
        i += 1;
    }
    proof {
        assert(whole.subrange(n as int, n as int).len() == 0);
    }
    None
}

/// The decision for one dependency of one package: `None` when the
/// dependency is local, was not answered, failed to decode, or is already
/// up to date; otherwise the finding that reports it.
pub open spec fn spec_eval_one(
    pkg: Seq<char>,
    d: DepView,
    resps: Seq<RegistryResponseView>,
) -> Option<OutdatedFindingView> {
    if d.source_kind is LocalPath {
        None
    } else {
        match spec_lookup(resps, d.name) {
            None => None,
            Some(resp) => match resp.records {
                None => None,
                Some(rs) => if !spec_all_parse(rs) {
                    None
                } else {
                    if !(spec_req_ok(d.version_req) && spec_version_ok(
                        spec_select(rs).latest_version,
                    )) {
                        None
                    } else if spec_req_matches(d.version_req, spec_select(rs).latest_version) {
                        None
                    } else {
                        Some(
                            OutdatedFindingView {
                                owning_package: pkg,
                                dependency_name: d.name,
                                version_in_toml: d.version_req,
                                latest_version: spec_select(rs).latest_version,
                            },
                        )
                    }
                },
            },
        }
    }
}

/// Evaluates one dependency against the fetched responses.
///
/// A local-path dependency is never evaluated; a missing or undecodable
/// response drops the dependency silently; otherwise the dependency is
/// reported exactly when the latest selected version does not satisfy the
/// declared requirement.
pub fn evaluate_dependency(
    pkg_name: &String,
    dep: &Dependency,
    resps: &Vec<RegistryResponse>,
) -> (r: Option<OutdatedFinding>)
    ensures
        match r {
            Some(f) => spec_eval_one(pkg_name@, dep@, view_resps(resps@)) == Some(f@),
            None => spec_eval_one(pkg_name@, dep@, view_resps(resps@)) is None,
        },
{
    if dep.source_kind == SourceKind::LocalPath {
        return None;
    }
    let resp = match lookup_response(resps, &dep.name) {
        Some(r) => r,
        None => {
            return None;
        },
    };
    let records = match &resp.records {
        Some(rr) => rr,
        None => {
            return None;
        },
    };
    let info = match select_latest(records) {
        Ok(i) => i,
        Err(_) => {
            return None;
        },
    };
    match is_up_to_date(dep.version_req.as_str(), info.latest_version.as_str()) {
        None => None,
        Some(true) => None,
        Some(false) => {
            let f = OutdatedFinding {
                owning_package: pkg_name.clone(),
                dependency_name: dep.name.clone(),
                version_in_toml: dep.version_req.clone(),
                latest_version: info.latest_version,
            };
            proof {
                let sv = spec_eval_one(pkg_name@, dep@, view_resps(resps@));
                assert(sv matches Some(g) && g =~= f@);
            }
            Some(f)
        },
    }
}

/// Collapses adjacent equal findings, keeping the rest in order.
pub open spec fn spec_dedup(s: Seq<OutdatedFindingView>) -> Seq<OutdatedFindingView>
    decreases s.len(),
{
    if s.len() == 0 {
        Seq::empty()
    } else if s.len() == 1 {
        s
    } else if s[s.len() - 1] == s[s.len() - 2] {
        spec_dedup(s.drop_last())
    } else {
        spec_dedup(s.drop_last()).push(s.last())
    }
}

/// Collapses adjacent duplicates in one package's finding list.
pub fn dedup_findings(v: &Vec<OutdatedFinding>) -> (r: Vec<OutdatedFinding>)
    ensures
        view_findings(r@) == spec_dedup(view_findings(v@)),
{
    let ghost fv = view_findings(v@);
    let mut out: Vec<OutdatedFinding> = Vec::new();
    let n = v.len();
    let mut i: usize = 0;
    while i < n
        invariant
            i <= n,
            n == v.len(),
            fv == view_findings(v@),
            fv.len() == n,
            view_findings(out@) == spec_dedup(fv.take(i as int)),
        decreases n - i,
    {
        let ghost s = fv.take(i as int + 1);
        proof {
            assert(s.drop_last() =~= fv.take(i as int));
            assert(s.len() == i + 1);
            assert(s.last() == fv[i as int]);
            assert(fv[i as int] == v@[i as int]@);
            if i >= 1 {
                assert(s[i as int - 1] == fv[i as int - 1]);
                assert(fv[i as int - 1] == v@[i as int - 1]@);
            }
        }
        if i == 0 {
            out.push(clone_finding(&v[i]));
            proof {
                assert(spec_dedup(s) == s);
                assert(view_findings(out@) =~= s);
            }
        } else if finding_eq(&v[i], &v[i - 1]) {
            proof {
                assert(s[s.len() - 1] == s[s.len() - 2]);
                assert(spec_dedup(s) == spec_dedup(fv.take(i as int)));
            }
        } else {
            out.push(clone_finding(&v[i]));
            proof {
                assert(s[s.len() - 1] != s[s.len() - 2]);
                assert(spec_dedup(s) == spec_dedup(fv.take(i as int)).push(s.last()));
                assert(view_findings(out@) =~= spec_dedup(fv.take(i as int)).push(s.last()));
            }
        }
        i += 1;
    }
    proof {
        assert(fv.take(n as int) =~= fv);
    }
    out
}

/// The findings of one package's dependency list, in declaration order,
/// before duplicate collapsing.
pub open spec fn spec_eval_list(
    name: Seq<char>,
    deps: Seq<DepView>,
    resps: Seq<RegistryResponseView>,
) -> Seq<OutdatedFindingView>
    decreases deps.len(),
{
    if deps.len() == 0 {
        Seq::empty()
    } else {
        match spec_eval_one(name, deps.last(), resps) {
            None => spec_eval_list(name, deps.drop_last(), resps),
            Some(f) => spec_eval_list(name, deps.drop_last(), resps).push(f),
        }
    }
}

/// One package's reported findings: its dependency list evaluated in
/// order, with adjacent duplicates collapsed.
pub open spec fn spec_pkg_findings(
    pkg: PackageDepsView,
    resps: Seq<RegistryResponseView>,
) -> Seq<OutdatedFindingView> {
    spec_dedup(spec_eval_list(pkg.name, pkg.deps, resps))
}

/// Scans one package's dependencies against the responses.
pub fn scan_package(pkg: &PackageDeps, resps: &Vec<RegistryResponse>) -> (r: Vec<OutdatedFinding>)
    ensures
        view_findings(r@) == spec_pkg_findings(pkg@, view_resps(resps@)),
{
    let ghost dvs = pkg@.deps;
    let mut raw: Vec<OutdatedFinding> = Vec::new();
    let n = pkg.deps.len();
    let mut i: usize = 0;
    while i < n
        invariant
            i <= n,
            n == pkg.deps.len(),
            dvs == pkg@.deps,
            dvs.len() == n,
            view_findings(raw@) == spec_eval_list(pkg@.name, dvs.take(i as int), view_resps(resps@)),
        decreases n - i,
    {
        proof {
            assert(dvs.take(i as int + 1).drop_last() =~= dvs.take(i as int));
            assert(dvs.take(i as int + 1).last() == dvs[i as int]);
        }
        match evaluate_dependency(&pkg.name, &pkg.deps[i], resps) {
            Some(f) => {
                raw.push(f);
                assert(view_findings(raw@) =~= spec_eval_list(
                    pkg@.name,
                    dvs.take(i as int + 1),
                    view_resps(resps@),
                ));
            },
            None => {},
        }
        i += 1;
    }
    proof {
        assert(dvs.take(n as int) =~= dvs);
    }
    dedup_findings(&raw)
}

/// Every package's findings, in package order.
pub open spec fn spec_scan(
    pkgs: Seq<PackageDepsView>,
    resps: Seq<RegistryResponseView>,
) -> Seq<OutdatedFindingView>
    decreases pkgs.len(),
{
    if pkgs.len() == 0 {
        Seq::empty()
    } else {
        spec_scan(pkgs.drop_last(), resps) + spec_pkg_findings(pkgs.last(), resps)
    }
}

/// Scans every package of the workspace against the fetched responses.
///
/// The result is a pure function of the packages and the response set, so
/// repeating the scan over unchanged inputs repeats the result exactly.
pub fn scan_all(pkgs: &Vec<PackageDeps>, resps: &Vec<RegistryResponse>) -> (r: Vec<
    OutdatedFinding,
>)
    ensures
        view_findings(r@) == spec_scan(view_pkgs(pkgs@), view_resps(resps@)),
{
    let ghost pvs = view_pkgs(pkgs@);
    let mut out: Vec<OutdatedFinding> = Vec::new();
    let n = pkgs.len();
    let mut p: usize = 0;
    while p < n
        invariant
            p <= n,
            n == pkgs.len(),
            pvs == view_pkgs(pkgs@),
            pvs.len() == n,
            view_findings(out@) == spec_scan(pvs.take(p as int), view_resps(resps@)),
        decreases n - p,
    {
        proof {
            assert(pvs.take(p as int + 1).drop_last() =~= pvs.take(p as int));
            assert(pvs.take(p as int + 1).last() == pvs[p as int]);
        }
        let mut part = scan_package(&pkgs[p], resps);
        out.append(&mut part);
        proof {
            assert(view_findings(out@) =~= spec_scan(pvs.take(p as int + 1), view_resps(resps@)));
        }
        p += 1;
    }
    proof {
        assert(pvs.take(n as int) =~= pvs);
    }
    out
}

proof fn lemma_dedup_member(s: Seq<OutdatedFindingView>, k: int)
    requires
        0 <= k < spec_dedup(s).len(),
    ensures
        exists|j: int| 0 <= j < s.len() && spec_dedup(s)[k] == s[j],
    decreases s.len(),
{
    if s.len() == 0 {
    } else if s.len() == 1 {
        assert(spec_dedup(s)[k] == s[0]);
    } else if s[s.len() - 1] == s[s.len() - 2] {
        lemma_dedup_member(s.drop_last(), k);
        let j = choose|j: int|
            0 <= j < s.drop_last().len() && spec_dedup(s.drop_last())[k] == s.drop_last()[j];
        assert(s.drop_last()[j] == s[j]);
        assert(spec_dedup(s)[k] == s[j]);
    } else {
        let d = spec_dedup(s.drop_last());
        if k < d.len() {
            lemma_dedup_member(s.drop_last(), k);
            let j = choose|j: int|
                0 <= j < s.drop_last().len() && spec_dedup(s.drop_last())[k] == s.drop_last()[j];
            assert(s.drop_last()[j] == s[j]);
            assert(spec_dedup(s)[k] == s[j]);
        } else {
            assert(spec_dedup(s)[k] == s[s.len() - 1]);
        }
    }
}

proof fn lemma_eval_list_member(
    name: Seq<char>,
    deps: Seq<DepView>,
    resps: Seq<RegistryResponseView>,
    k: int,
)
    requires
        0 <= k < spec_eval_list(name, deps, resps).len(),
    ensures
        exists|j: int|
            0 <= j < deps.len() && spec_eval_one(name, deps[j], resps) == Some(
                spec_eval_list(name, deps, resps)[k],
            ),
    decreases deps.len(),
{
    if deps.len() == 0 {
    } else {
        let rest = spec_eval_list(name, deps.drop_last(), resps);
        match spec_eval_one(name, deps.last(), resps) {
            None => {
                lemma_eval_list_member(name, deps.drop_last(), resps, k);
                let j = choose|j: int|
                    0 <= j < deps.drop_last().len() && spec_eval_one(
                        name,
                        deps.drop_last()[j],
                        resps,
                    ) == Some(rest[k]);
                assert(deps.drop_last()[j] == deps[j]);
                assert(spec_eval_one(name, deps[j], resps) == Some(
                    spec_eval_list(name, deps, resps)[k],
                ));
            },
            Some(f) => {
                if k < rest.len() {
                    lemma_eval_list_member(name, deps.drop_last(), resps, k);
                    let j = choose|j: int|
                        0 <= j < deps.drop_last().len() && spec_eval_one(
                            name,
                            deps.drop_last()[j],
                            resps,
                        ) == Some(rest[k]);
                    assert(deps.drop_last()[j] == deps[j]);
                    assert(spec_eval_list(name, deps, resps)[k] == rest[k]);
                    assert(spec_eval_one(name, deps[j], resps) == Some(
                        spec_eval_list(name, deps, resps)[k],
                    ));
                } else {
                    assert(spec_eval_list(name, deps, resps)[k] == f);
                    assert(deps.last() == deps[deps.len() - 1]);
                    assert(spec_eval_one(name, deps[deps.len() - 1], resps) == Some(
                        spec_eval_list(name, deps, resps)[k],
                    ));
                }
            },
        }
    }
}

proof fn lemma_eval_one_fields(
    pkg: Seq<char>,
    d: DepView,
    resps: Seq<RegistryResponseView>,
    f: OutdatedFindingView,
)
    requires
        spec_eval_one(pkg, d, resps) == Some(f),
    ensures
        d.source_kind != SourceKind::LocalPath,
        f.owning_package == pkg,
        f.dependency_name == d.name,
        f.version_in_toml == d.version_req,
{
}

/// A local-path dependency never appears in any finding: every finding the
/// scan yields names a declared dependency of its owning package whose
/// source kind is not local, whatever requirement that dependency declares.
pub proof fn lemma_local_path_never_reported(
    pkgs: Seq<PackageDepsView>,
    resps: Seq<RegistryResponseView>,
    k: int,
)
    requires
        0 <= k < spec_scan(pkgs, resps).len(),
    ensures
        exists|p: int, j: int|
            #![auto]
            {
                &&& 0 <= p < pkgs.len()
                &&& 0 <= j < pkgs[p].deps.len()
                &&& pkgs[p].deps[j].source_kind != SourceKind::LocalPath
                &&& spec_scan(pkgs, resps)[k].owning_package == pkgs[p].name
                &&& spec_scan(pkgs, resps)[k].dependency_name == pkgs[p].deps[j].name
                &&& spec_scan(pkgs, resps)[k].version_in_toml == pkgs[p].deps[j].version_req
            },
    decreases pkgs.len(),
{
    if pkgs.len() == 0 {
    } else {
        let front = spec_scan(pkgs.drop_last(), resps);
        if k < front.len() {
            lemma_local_path_never_reported(pkgs.drop_last(), resps, k);
            let (p, j) = choose|p: int, j: int|
                #![auto]
                {
                    &&& 0 <= p < pkgs.drop_last().len()
                    &&& 0 <= j < pkgs.drop_last()[p].deps.len()
                    &&& pkgs.drop_last()[p].deps[j].source_kind != SourceKind::LocalPath
                    &&& front[k].owning_package == pkgs.drop_last()[p].name
                    &&& front[k].dependency_name == pkgs.drop_last()[p].deps[j].name
                    &&& front[k].version_in_toml == pkgs.drop_last()[p].deps[j].version_req
                };
            assert(pkgs.drop_last()[p] == pkgs[p]);
            assert(spec_scan(pkgs, resps)[k] == front[k]);
        } else {
            let pkg = pkgs.last();
            let listed = spec_eval_list(pkg.name, pkg.deps, resps);
            let kk = k - front.len();
            assert(spec_scan(pkgs, resps)[k] == spec_pkg_findings(pkg, resps)[kk]);
            lemma_dedup_member(listed, kk);
            let j0 = choose|j0: int|
                0 <= j0 < listed.len() && spec_dedup(listed)[kk] == listed[j0];
            lemma_eval_list_member(pkg.name, pkg.deps, resps, j0);
            let j = choose|j: int|
                0 <= j < pkg.deps.len() && spec_eval_one(pkg.name, pkg.deps[j], resps) == Some(
                    listed[j0],
                );
            lemma_eval_one_fields(pkg.name, pkg.deps[j], resps, listed[j0]);
            assert(pkgs[pkgs.len() - 1] == pkg);
            assert({
                &&& 0 <= pkgs.len() - 1 < pkgs.len()
                &&& 0 <= j < pkgs[pkgs.len() - 1].deps.len()
                &&& pkgs[pkgs.len() - 1].deps[j].source_kind != SourceKind::LocalPath
                &&& spec_scan(pkgs, resps)[k].owning_package == pkgs[pkgs.len() - 1].name
                &&& spec_scan(pkgs, resps)[k].dependency_name == pkgs[pkgs.len() - 1].deps[j].name
                &&& spec_scan(pkgs, resps)[k].version_in_toml == pkgs[pkgs.len()
                    - 1].deps[j].version_req
            });
        }
    }
}

/// Scanning twice against an unchanged registry response set yields
/// identical findings: the scan is a pure function of the packages and the
/// responses, and `scan_all` returns exactly that function's value.
pub proof fn lemma_scan_idempotent(
    pkgs: Seq<PackageDepsView>,
    resps: Seq<RegistryResponseView>,
    r1: Seq<OutdatedFindingView>,
    r2: Seq<OutdatedFindingView>,
)
    requires
        r1 == spec_scan(pkgs, resps),
        r2 == spec_scan(pkgs, resps),
    ensures
        r1 == r2,
{
}

} // verus!
