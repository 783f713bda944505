//! Grouping findings by owning package and rendering the tree-style text
//! report.

use vstd::prelude::*;

use crate::scan::{
    clone_finding, scan_all, spec_scan, view_findings, view_pkgs, view_resps, OutdatedFinding,
    OutdatedFindingView, PackageDeps, RegistryResponse,
};

verus! {

/// One package's entry in the report: the package name and its findings in
/// merge order.
pub struct PackageFindings {
    pub name: String,
    pub findings: Vec<OutdatedFinding>,
}

/// Mathematical model of a `PackageFindings`.
#[verifier::ext_equal]
pub struct PackageFindingsView {
    pub name: Seq<char>,
    pub findings: Seq<OutdatedFindingView>,
}

impl View for PackageFindings {
    type V = PackageFindingsView;

    open spec fn view(&self) -> PackageFindingsView {
        PackageFindingsView {
            name: self.name@,
            findings: view_findings(self.findings@),
        }
    }
}

/// The whole report: one entry per package that has findings, in the order
/// packages were first seen while merging.
pub struct OutdatedReport {
    pub entries: Vec<PackageFindings>,
}

/// Views of an entry vector.
pub open spec fn view_entries(s: Seq<PackageFindings>) -> Seq<PackageFindingsView> {
    s.map_values(|e: PackageFindings| e@)
}

impl View for OutdatedReport {
    type V = Seq<PackageFindingsView>;

    open spec fn view(&self) -> Seq<PackageFindingsView> {
        view_entries(self.entries@)
    }
}

impl OutdatedReport {
    /// The empty report.
    pub fn new() -> (r: OutdatedReport)
        ensures
            r@ == Seq::<PackageFindingsView>::empty(),
    {
        let r = OutdatedReport { entries: Vec::new() };
        proof {
            assert(r@ =~= Seq::<PackageFindingsView>::empty());
        }
        r
    }
}

/// The position of the entry recorded under the name, when any is.
pub open spec fn spec_find_entry(es: Seq<PackageFindingsView>, name: Seq<char>) -> Option<int>
    decreases es.len(),
{
    if es.len() == 0 {
        None
    } else if es[0].name == name {
        Some(0int)
    } else {
        match spec_find_entry(es.drop_first(), name) {
            None => None,
            Some(i) => Some(i + 1),
        }
    }
}

proof fn lemma_find_entry_at(es: Seq<PackageFindingsView>, name: Seq<char>, i: int)
    requires
        0 <= i <= es.len(),
        forall|j: int| 0 <= j < i ==> es[j].name != name,
        i == es.len() || es[i].name == name,
    ensures
        spec_find_entry(es, name) == if i == es.len() {
            None::<int>
        } else {
            Some(i)
        },
    decreases i,
{
    if es.len() == 0 {
    } else if es[0].name == name {
    } else {
        lemma_find_entry_at(es.drop_first(), name, i - 1);
    }
}

/// One merge step: the finding joins its package's entry, or opens a new
/// entry at the end.
pub open spec fn spec_group_insert(
    es: Seq<PackageFindingsView>,
    f: OutdatedFindingView,
) -> Seq<PackageFindingsView> {
    match spec_find_entry(es, f.owning_package) {
        None => es.push(PackageFindingsView { name: f.owning_package, findings: seq![f] }),
        Some(i) => es.update(
            i,
            PackageFindingsView { name: es[i].name, findings: es[i].findings.push(f) },
        ),
    }
}

/// The findings merged into entries, in the order they arrive.
pub open spec fn spec_group(fs: Seq<OutdatedFindingView>) -> Seq<PackageFindingsView>
    decreases fs.len(),
{
    if fs.len() == 0 {
        Seq::empty()
    } else {
        spec_group_insert(spec_group(fs.drop_last()), fs.last())
    }
}

/// Finds the entry recorded under the name.
fn find_entry(entries: &Vec<PackageFindings>, name: &String) -> (r: Option<usize>)
    ensures
        match r {
            Some(j) => j < entries.len() && spec_find_entry(view_entries(entries@), name@)
                == Some(j as int),
            None => spec_find_entry(view_entries(entries@), name@) is None,
        },
{
    let ghost evs = view_entries(entries@);
    let n = entries.len();
    let mut i: usize = 0;
    while i < n
        invariant
            i <= n,
            n == entries.len(),
            evs == view_entries(entries@),
            evs.len() == n,
            forall|j: int| 0 <= j < i ==> evs[j].name != name@,
        decreases n - i,
    {
        proof {
            assert(evs[i as int] == entries@[i as int]@);
        }
        if entries[i].name == *name {
            proof {
                lemma_find_entry_at(evs, name@, i as int);
            }
            return Some(i);
        }
        i += 1;
    }
    proof {
        lemma_find_entry_at(evs, name@, n as int);
    }
    None
}

/// Merges the findings into a report grouped by owning package.
///
/// An entry is opened when a package's first finding arrives and keeps its
/// findings in arrival order; entry order is the order packages were first
/// seen.
pub fn group_findings(findings: &Vec<OutdatedFinding>) -> (r: OutdatedReport)
    ensures
        r@ == spec_group(view_findings(findings@)),
{
    let ghost fvs = view_findings(findings@);
    let mut entries: Vec<PackageFindings> = Vec::new();
    let n = findings.len();
    let mut i: usize = 0;
    proof {
        assert(view_entries(entries@) =~= Seq::<PackageFindingsView>::empty());
    }
    while i < n
        invariant
            i <= n,
            n == findings.len(),
            fvs == view_findings(findings@),
            fvs.len() == n,
            view_entries(entries@) == spec_group(fvs.take(i as int)),
        decreases n - i,
    {
        proof {
            assert(fvs.take(i as int + 1).drop_last() =~= fvs.take(i as int));
            assert(fvs.take(i as int + 1).last() == fvs[i as int]);
            assert(fvs[i as int] == findings@[i as int]@);
        }
        let ghost before = view_entries(entries@);
        let f = &findings[i];
        match find_entry(&entries, &f.owning_package) {
            None => {
                let mut fresh: Vec<OutdatedFinding> = Vec::new();
                fresh.push(clone_finding(f));
                entries.push(PackageFindings { name: f.owning_package.clone(), findings: fresh });
                proof {
                    assert(view_findings(entries@.last().findings@) =~= seq![fvs[i as int]]);
                    assert(entries@.last()@ =~= (PackageFindingsView {
                        name: fvs[i as int].owning_package,
                        findings: seq![fvs[i as int]],
                    }));
                    assert(view_entries(entries@) =~= spec_group_insert(before, fvs[i as int]));
                }
            },
            Some(j) => {
                let mut entry = entries.remove(j);
                entry.findings.push(clone_finding(f));
                entries.insert(j, entry);
                proof {
                    assert(entries@[j as int]@ =~= (PackageFindingsView {
                        name: before[j as int].name,
                        findings: before[j as int].findings.push(fvs[i as int]),
                    }));
                    assert(view_entries(entries@) =~= spec_group_insert(before, fvs[i as int]));
                }
            },
        }
        i += 1;
    }
    proof {
        assert(fvs.take(n as int) =~= fvs);
    }
    OutdatedReport { entries }
}

/// One rendered finding line: a tab, the tee branch for every line but the
/// package's last and the corner branch for the last, then
/// `name: declared -> latest`.
pub open spec fn spec_render_line(f: OutdatedFindingView, last: bool) -> Seq<char> {
    (if last {
        "\t└── "@
    } else {
        "\t├── "@
    }) + f.dependency_name + ": "@ + f.version_in_toml + " -> "@ + f.latest_version + "\n"@
}

/// The rendered lines of every finding in the sequence, none of them the
/// package's last.
pub open spec fn spec_render_init(fs: Seq<OutdatedFindingView>) -> Seq<char>
    decreases fs.len(),
{
    if fs.len() == 0 {
        Seq::empty()
    } else {
        spec_render_init(fs.drop_last()) + spec_render_line(fs.last(), false)
    }
}

/// The rendered lines of one package's findings: every line but the last
/// with the tee branch, the last with the corner branch.
pub open spec fn spec_render_lines(fs: Seq<OutdatedFindingView>) -> Seq<char> {
    if fs.len() == 0 {
        Seq::empty()
    } else {
        spec_render_init(fs.drop_last()) + spec_render_line(fs.last(), true)
    }
}

/// One package's rendered block: its name on a line of its own, then its
/// finding lines.
pub open spec fn spec_render_entry(e: PackageFindingsView) -> Seq<char> {
    e.name + "\n"@ + spec_render_lines(e.findings)
}

/// The rendered blocks of every entry, in report order.
pub open spec fn spec_render_entries(es: Seq<PackageFindingsView>) -> Seq<char>
    decreases es.len(),
{
    if es.len() == 0 {
        Seq::empty()
    } else {
        spec_render_entries(es.drop_last()) + spec_render_entry(es.last())
    }
}

/// The whole report's rendering: the fixed up-to-date message when there is
/// no entry at all, the tree otherwise.
pub open spec fn spec_render(es: Seq<PackageFindingsView>) -> Seq<char> {
    if es.len() == 0 {
        "All dependencies are up-to-date!"@
    } else {
        spec_render_entries(es)
    }
}

/// A report with no entries renders as exactly the fixed up-to-date
/// message, never as a tree.
pub proof fn lemma_empty_report_message()
    ensures
        spec_render(Seq::<PackageFindingsView>::empty()) == "All dependencies are up-to-date!"@,
{
}

/// Renders one finding line.
fn render_line(f: &OutdatedFinding, last: bool) -> (r: String)
    ensures
        r@ == spec_render_line(f@, last),
{
    let mut s = if last {
        String::from_str("\t└── ")
    } else {
        String::from_str("\t├── ")
    };
    s.append(f.dependency_name.as_str());
    s.append(": ");
    s.append(f.version_in_toml.as_str());
    s.append(" -> ");
    s.append(f.latest_version.as_str());
    s.append("\n");
    proof {
        assert(s@ =~= spec_render_line(f@, last));
    }
    s
}

impl OutdatedReport {
    /// Renders the report: the fixed message when it is empty, otherwise
    /// one block per package.
    pub fn render(&self) -> (r: String)
        ensures
            r@ == spec_render(self@),
    {
        let ghost evs = self@;
        if self.entries.len() == 0 {
            return String::from_str("All dependencies are up-to-date!");
        }
        let mut s = String::new();
        let n = self.entries.len();
        let mut p: usize = 0;
        proof {
            assert(s@ =~= spec_render_entries(evs.take(0)));
        }
        while p < n
            invariant
                p <= n,
                n == self.entries.len(),
                evs == self@,
                evs.len() == n,
                s@ == spec_render_entries(evs.take(p as int)),
            decreases n - p,
        {
            proof {
                assert(evs.take(p as int + 1).drop_last() =~= evs.take(p as int));
                assert(evs.take(p as int + 1).last() == evs[p as int]);
                assert(evs[p as int] == self.entries@[p as int]@);
            }
            let ghost base = s@;
            let e = &self.entries[p];
            s.append(e.name.as_str());
            s.append("\n");
            let ghost lv = view_findings(e.findings@);
            let m = e.findings.len();
            let mut k: usize = 0;
            while k + 1 < m
                invariant
                    m == e.findings.len(),
                    lv == view_findings(e.findings@),
                    lv.len() == m,
                    m > 0 ==> k < m,
                    m == 0 ==> k == 0,
                    s@ == base + e@.name + "\n"@ + spec_render_init(lv.take(k as int)),
                decreases m - k,
            {
                proof {
                    assert(lv.take(k as int + 1).drop_last() =~= lv.take(k as int));
                    assert(lv.take(k as int + 1).last() == lv[k as int]);
                    assert(lv[k as int] == e.findings@[k as int]@);
                }
                let line = render_line(&e.findings[k], false);
                s.append(line.as_str());
                proof {
                    assert(s@ =~= base + e@.name + "\n"@ + spec_render_init(
                        lv.take(k as int + 1),
                    ));
                }
                k += 1;
            }
            if m > 0 {
                proof {
                    assert(lv.take(m as int - 1) =~= lv.drop_last());
                    assert(lv[m as int - 1] == e.findings@[m as int - 1]@);
                    assert(lv.last() == lv[m as int - 1]);
                }
                let line = render_line(&e.findings[m - 1], true);
                s.append(line.as_str());
            }
            proof {
                assert(s@ =~= base + spec_render_entry(evs[p as int]));
                assert(s@ =~= spec_render_entries(evs.take(p as int + 1)));
            }
            p += 1;
        }
        proof {
            assert(evs.take(n as int) =~= evs);
        }
        s
    }
}

/// The whole run's rendered output as a function of the packages and the
/// registry responses: scan, group, render.
pub open spec fn spec_report(
    pkgs: Seq<crate::scan::PackageDepsView>,
    resps: Seq<crate::scan::RegistryResponseView>,
) -> Seq<char> {
    spec_render(spec_group(spec_scan(pkgs, resps)))
}

/// Scans every package, groups the findings and renders the report.
pub fn run_report(pkgs: &Vec<PackageDeps>, resps: &Vec<RegistryResponse>) -> (r: String)
    ensures
        r@ == spec_report(view_pkgs(pkgs@), view_resps(resps@)),
{
    let findings = scan_all(pkgs, resps);
    let report = group_findings(&findings);
    report.render()
}

/// Rendering the same packages against an unchanged registry response set
/// twice yields the identical text: the whole run is a pure function of its
/// inputs, and `run_report` returns exactly that function's value.
pub proof fn lemma_report_idempotent(
    pkgs: Seq<crate::scan::PackageDepsView>,
    resps: Seq<crate::scan::RegistryResponseView>,
    r1: Seq<char>,
    r2: Seq<char>,
)
    requires
        r1 == spec_report(pkgs, resps),
        r2 == spec_report(pkgs, resps),
    ensures
        r1 == r2,
{
}

} // verus!
