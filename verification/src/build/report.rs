//! The compatibility-gates report and the dry-run probe texts.

use vstd::prelude::*;

use crate::build::gates::{
    Finding, GateError, ManifestSource, PinOccurrence, PinView, Severity, Version3, asks_tags,
    chain_text, compiler_version_finding, extract_pins, extract_pins_spec, findings_view,
    freshness_findings, gate_compiler_version, gate_freshness, gate_pin_agreement,
    gate_pin_agreement_spec, listed, package_version, package_version_from, pins_view,
    policy_min_compiler, policy_min_compiler_spec, sources_view, version3_display, version3_text,
};
use crate::build::recipes::strings_view;
use crate::build::{PinDrift, drift_view};
use crate::config::Manifest;
use crate::text::{decimal, join_path, owned, path_join, str_eq, to_chars, u64_to_string};
use crate::toml_tree::{TomlValue, parse_toml, table_get, toml_document, toml_get};

verus! {

// ---------------------------------------------------------------------------
// Reports
// ---------------------------------------------------------------------------

/// How many findings are errors; only errors decide the exit code.
pub open spec fn error_count(findings: Seq<(Severity, Seq<char>)>) -> nat
    decreases findings.len(),
{
    if findings.len() == 0 {
        0
    } else {
        error_count(findings.drop_last()) + if findings.last().0 == Severity::Error {
            1nat
        } else {
            0nat
        }
    }
}

/// How many findings are warnings.
pub open spec fn warning_count(findings: Seq<(Severity, Seq<char>)>) -> nat
    decreases findings.len(),
{
    if findings.len() == 0 {
        0
    } else {
        warning_count(findings.drop_last()) + if findings.last().0 == Severity::Warn {
            1nat
        } else {
            0nat
        }
    }
}

/// The report tag of a severity, padded to the report's column.
pub open spec fn severity_tag(s: Severity) -> Seq<char> {
    match s {
        Severity::Pass => "[OK]   "@,
        Severity::Info => "[INFO] "@,
        Severity::Warn => "[WARN] "@,
        Severity::Error => "[ERROR]"@,
    }
}

/// One finding's report lines: the first message line after its tag, the
/// others indented under it.
pub open spec fn finding_lines(f: (Severity, Seq<char>)) -> Seq<Seq<char>> {
    let ls = crate::text::lines(f.1);
    if ls.len() == 0 {
        seq![]
    } else {
        seq![severity_tag(f.0) + " "@ + ls[0]] + ls.drop_first().map_values(
            |l: Seq<char>| "        "@ + l,
        )
    }
}

/// The report lines of the first `n` findings.
pub open spec fn findings_lines(findings: Seq<(Severity, Seq<char>)>, n: int) -> Seq<Seq<char>>
    decreases n,
{
    if n <= 0 {
        seq![]
    } else {
        findings_lines(findings, n - 1) + finding_lines(findings[n - 1])
    }
}

/// `s` unless `n` is one.
pub open spec fn plural(n: nat) -> Seq<char> {
    if n == 1 {
        ""@
    } else {
        "s"@
    }
}

/// The compatibility-gates report: a header naming the set, each finding, and a summary
/// line counting errors and warnings.
pub open spec fn gate_report(set_name: Seq<char>, findings: Seq<(Severity, Seq<char>)>) -> Seq<Seq<char>> {
    let errors = error_count(findings);
    let warnings = warning_count(findings);
    seq!["compatibility gates: build set "@ + set_name, ""@] + findings_lines(
        findings,
        findings.len() as int,
    ) + seq![
        ""@,
        if errors > 0 {
            "Gates failed with "@ + decimal(errors) + " error"@ + plural(errors) + " and "@ + decimal(
                warnings,
            ) + " warning"@ + plural(warnings) + "."@
        } else {
            "Gates passed with "@ + decimal(warnings) + " warning"@ + plural(warnings) + "."@
        },
    ]
}

/// The report tag of a severity.
fn tag_of(s: Severity) -> (r: &'static str)
    ensures
        r@ == severity_tag(s),
{
    match s {
        Severity::Pass => "[OK]   ",
        Severity::Info => "[INFO] ",
        Severity::Warn => "[WARN] ",
        Severity::Error => "[ERROR]",
    }
}

/// The lines of the compatibility-gates report, and the error count.
pub fn gate_report_lines(set_name: &str, findings: &[Finding]) -> (r: (Vec<String>, usize))
    ensures
        strings_view(r.0@) == gate_report(set_name@, findings_view(findings@)),
        r.1 == error_count(findings_view(findings@)),
{
    let ghost fv = findings_view(findings@);
    let mut head = owned("compatibility gates: build set ");
    head.append(set_name);
    let blank_line = String::new();
    let ghost h = head@;
    let ghost b = blank_line@;
    let mut out: Vec<String> = vec![head, blank_line];
    let ghost top = strings_view(out@);
    assert(top =~= seq![h, b]);
    proof {
        reveal_strlit("");
        reveal_strlit("compatibility gates: build set ");
        assert(""@ =~= Seq::<char>::empty());
        assert(h =~= "compatibility gates: build set "@ + set_name@);
    }
    assert(top =~= seq!["compatibility gates: build set "@ + set_name@, ""@]);
    let mut errors: usize = 0;
    let mut warnings: usize = 0;
    let mut i: usize = 0;
    while i < findings.len()
        invariant
            i <= findings.len(),
            fv == findings_view(findings@),
            strings_view(out@) == top + findings_lines(fv, i as int),
            errors == error_count(fv.take(i as int)),
            warnings == warning_count(fv.take(i as int)),
            errors <= i,
            warnings <= i,
        decreases findings.len() - i,
    {
        let f = &findings[i];
        assert(fv[i as int] == f@);
        assert(fv.take(i + 1).drop_last() =~= fv.take(i as int));
        match f.severity {
            Severity::Error => {
                errors = errors + 1;
            },
            Severity::Warn => {
                warnings = warnings + 1;
            },
            _ => {},
        }
        let ls = crate::text::str_lines(f.message.as_str());
        let ghost lv = ls@.map_values(|l: &str| l@);
        let ghost before = strings_view(out@);
        if ls.len() > 0 {
            let mut first = owned(tag_of(f.severity));
            first.append(" ");
            first.append(ls[0]);
            out.push(first);
            let mut k: usize = 1;
            while k < ls.len()
                invariant
                    1 <= k <= ls.len(),
                    lv == ls@.map_values(|l: &str| l@),
                    strings_view(out@) == before + finding_lines(f@).take(k as int),
                    finding_lines(f@) == seq![severity_tag(f.severity) + " "@ + lv[0]] + lv.drop_first().map_values(
                        |l: Seq<char>| "        "@ + l,
                    ),
                decreases ls.len() - k,
            {
                let ghost b2 = strings_view(out@);
                let mut line = owned("        ");
                line.append(ls[k]);
                out.push(line);
                assert(strings_view(out@) =~= b2.push(line@));
                assert(finding_lines(f@).take(k + 1) =~= finding_lines(f@).take(k as int).push(
                    finding_lines(f@)[k as int],
                ));
                k = k + 1;
            }
            assert(finding_lines(f@).take(ls.len() as int) =~= finding_lines(f@));
        }
        assert(strings_view(out@) =~= top + findings_lines(fv, i + 1));
        i = i + 1;
    }
    assert(fv.take(findings.len() as int) =~= fv);
    out.push(String::new());
    let mut last: String;
    if errors > 0 {
        last = owned("Gates failed with ");
        let e = u64_to_string(errors as u64);
        last.append(e.as_str());
        last.append(" error");
        last.append(if errors == 1 { "" } else { "s" });
        last.append(" and ");
        let w = u64_to_string(warnings as u64);
        last.append(w.as_str());
        last.append(" warning");
        last.append(if warnings == 1 { "" } else { "s" });
        last.append(".");
    } else {
        last = owned("Gates passed with ");
        let w = u64_to_string(warnings as u64);
        last.append(w.as_str());
        last.append(" warning");
        last.append(if warnings == 1 { "" } else { "s" });
        last.append(".");
    }
    out.push(last);
    proof {
        reveal_strlit("");
    }
    assert(strings_view(out@) =~= gate_report(set_name@, fv));
    (out, errors)
}

/// Prints the compatibility-gates report through `say` unless `quiet`, and returns the
/// error count, which decides the exit code.
pub fn print_findings<G: Fn(&str)>(quiet: bool, set_name: &str, findings: &[Finding], say: &G) -> (r:
    usize)
    requires
        forall|t: &str| call_requires(*say, (t,)),
    ensures
        r == error_count(findings_view(findings@)),
{
    let (lines, errors) = gate_report_lines(set_name, findings);
    if !quiet {
        let mut i: usize = 0;
        while i < lines.len()
            invariant
                i <= lines.len(),
                forall|t: &str| call_requires(*say, (t,)),
            decreases lines.len() - i,
        {
            say(lines[i].as_str());
            i = i + 1;
        }
    }
    errors
}

/// The `docker` tier's prerequisite probe result for the dry-run report.
pub fn docker_probe(docker_on_path: bool) -> (r: String)
    ensures
        r@ == if docker_on_path {
            "prerequisites present"@
        } else {
            "missing: docker"@
        },
{
    if docker_on_path {
        owned("prerequisites present")
    } else {
        owned("missing: docker")
    }
}

/// The `netns` tier's prerequisite probe result for the dry-run report: the
/// missing prerequisites in order, or that all are present.
pub open spec fn netns_probe_text(linux: bool, sudo: bool, valkey: bool, python3: bool) -> Seq<char> {
    let missing = (if !linux { seq!["linux"@] } else { seq![] }) + (if !sudo {
        seq!["passwordless sudo"@]
    } else {
        seq![]
    }) + (if !valkey { seq!["valkey-server"@] } else { seq![] }) + (if !python3 {
        seq!["python3"@]
    } else {
        seq![]
    });
    if missing.len() == 0 {
        "prerequisites present"@
    } else {
        "missing: "@ + crate::text::join(missing, ", "@)
    }
}

/// The `netns` tier's prerequisite probe result for the dry-run report.
pub fn netns_probe(linux: bool, sudo: bool, valkey: bool, python3: bool) -> (r: String)
    ensures
        r@ == netns_probe_text(linux, sudo, valkey, python3),
{
    let mut missing: Vec<String> = Vec::new();
    if !linux {
        missing.push(owned("linux"));
    }
    if !sudo {
        missing.push(owned("passwordless sudo"));
    }
    if !valkey {
        missing.push(owned("valkey-server"));
    }
    if !python3 {
        missing.push(owned("python3"));
    }
    assert(strings_view(missing@) =~= (if !linux { seq!["linux"@] } else { seq![] }) + (if !sudo {
        seq!["passwordless sudo"@]
    } else {
        seq![]
    }) + (if !valkey { seq!["valkey-server"@] } else { seq![] }) + (if !python3 {
        seq!["python3"@]
    } else {
        seq![]
    }));
    if missing.len() == 0 {
        return owned("prerequisites present");
    }
    let mut r = owned("missing: ");
    let joined = crate::text::join_strings(&missing, ", ");
    r.append(joined.as_str());
    r
}


} // verus!
