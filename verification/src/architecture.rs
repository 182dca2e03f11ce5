//! Architecture rules over the call graph: which calls and dependencies break
//! the layering, the violations they give, and the summary of a report.
//!
//! The graph queries run in the application; each row they return is handed
//! here as plain values.
use vstd::prelude::*;

use crate::config::Config;
use crate::config::layer_violation;
use crate::config::layer_index;
use crate::table::NameTable;
use crate::table::key_index;
use crate::table::lemma_key_index;
use crate::text::str_eq;

verus! {

#[derive(Debug, Clone)]
pub struct ArchitectureViolation {
    pub kind: String,
    pub from: String,
    pub to: String,
    pub from_layer: String,
    pub to_layer: String,
    pub from_crate: String,
    pub to_crate: String,
    pub file: String,
    pub line: usize,
    pub severity: ViolationSeverity,
    pub message: String,
}

#[derive(Debug, Clone, Copy, PartialEq, Eq, Structural)]
pub enum ViolationSeverity {
    Error,
    Warning,
    Info,
}

#[derive(Debug)]
pub struct ArchitectureReport {
    pub violations: Vec<ArchitectureViolation>,
    pub summary: ArchitectureSummary,
}

#[derive(Debug)]
pub struct ArchitectureSummary {
    pub total_violations: usize,
    pub error_count: usize,
    pub warning_count: usize,
    pub info_count: usize,
    /// "from_layer -> to_layer" -> number of violations
    pub violations_by_layer: NameTable<usize>,
    pub most_problematic_crates: Vec<String>,
}

/// The severity that a stored severity name denotes; unknown names are `Info`.
pub open spec fn severity_named(s: Seq<char>) -> ViolationSeverity {
    if s == "Error"@ {
        ViolationSeverity::Error
    } else if s == "Warning"@ {
        ViolationSeverity::Warning
    } else {
        ViolationSeverity::Info
    }
}

/// The name under which a severity is stored.
pub open spec fn severity_label(s: ViolationSeverity) -> Seq<char> {
    match s {
        ViolationSeverity::Error => "Error"@,
        ViolationSeverity::Warning => "Warning"@,
        ViolationSeverity::Info => "Info"@,
    }
}

/// Reads a stored severity name.
pub fn severity_from_name(s: &str) -> (r: ViolationSeverity)
    ensures
        r == severity_named(s@),
{
    if str_eq(s, "Error") {
        ViolationSeverity::Error
    } else if str_eq(s, "Warning") {
        ViolationSeverity::Warning
    } else {
        ViolationSeverity::Info
    }
}

/// The name under which a severity is stored in the graph.
pub fn severity_name(s: ViolationSeverity) -> (r: String)
    ensures
        r@ == severity_label(s),
{
    match s {
        ViolationSeverity::Error => String::from_str("Error"),
        ViolationSeverity::Warning => String::from_str("Warning"),
        ViolationSeverity::Info => String::from_str("Info"),
    }
}

/// Reading a severity back from its stored name gives the severity.
pub proof fn lemma_severity_round_trip(s: ViolationSeverity)
    ensures
        severity_named(severity_label(s)) == s,
{
    reveal_strlit("Error");
    reveal_strlit("Warning");
    reveal_strlit("Info");
    assert("Warning"@[0] != "Error"@[0]);
    assert("Info"@[0] != "Error"@[0]);
    assert("Info"@[0] != "Warning"@[0]);
}

/// A cross-crate call found in the graph, with the layers of both crates.
pub struct LayerCallRow {
    pub from_layer: String,
    pub to_layer: String,
    pub from_crate: String,
    pub to_crate: String,
    pub caller_name: String,
    pub callee_name: String,
    pub file: String,
    pub line: i64,
}

/// Whether a row of the layer query is a violation: the layers' own names are
/// looked up among the crates of the configured layers, and the caller's comes
/// first.
pub open spec fn row_violates(config: Config, row: LayerCallRow) -> bool {
    match (
        layer_index(config.architecture.layers@, row.from_layer@),
        layer_index(config.architecture.layers@, row.to_layer@),
    ) {
        (Some(a), Some(b)) => a < b,
        _ => false,
    }
}

/// The message of a layer violation.
pub open spec fn layer_message(row: LayerCallRow) -> Seq<char> {
    "Layer violation: "@ + row.from_layer@ + " layer '"@ + row.from_crate@
        + "' should not call "@ + row.to_layer@ + " layer '"@ + row.to_crate@ + "'. Function '"@
        + row.caller_name@ + "' calls '"@ + row.callee_name@ + "'"@
}

/// The violation that a row of the layer query gives, if it is one.
pub fn process_layer_violation_row(config: &Config, row: &LayerCallRow) -> (r: Option<
    ArchitectureViolation,
>)
    ensures
        r is Some <==> row_violates(*config, *row),
        r matches Some(v) ==> {
            &&& v.kind@ == "layer_violation"@
            &&& v.from == row.caller_name
            &&& v.to == row.callee_name
            &&& v.from_layer == row.from_layer
            &&& v.to_layer == row.to_layer
            &&& v.from_crate == row.from_crate
            &&& v.to_crate == row.to_crate
            &&& v.file == row.file
            &&& v.line == row.line as usize
            &&& v.severity == ViolationSeverity::Error
            &&& v.message@ == layer_message(*row)
        },
{
    let from_idx = config.get_layer_index(row.from_layer.as_str());
    let to_idx = config.get_layer_index(row.to_layer.as_str());
    match (from_idx, to_idx) {
        (Some(a), Some(b)) => {
            if a < b {
                let message = String::from_str("Layer violation: ").concat(
                    row.from_layer.as_str(),
                ).concat(" layer '").concat(row.from_crate.as_str()).concat(
                    "' should not call ",
                ).concat(row.to_layer.as_str()).concat(" layer '").concat(
                    row.to_crate.as_str(),
                ).concat("'. Function '").concat(row.caller_name.as_str()).concat(
                    "' calls '",
                ).concat(row.callee_name.as_str()).concat("'");
                Some(
                    ArchitectureViolation {
                        kind: String::from_str("layer_violation"),
                        from: row.caller_name.clone(),
                        to: row.callee_name.clone(),
                        from_layer: row.from_layer.clone(),
                        to_layer: row.to_layer.clone(),
                        from_crate: row.from_crate.clone(),
                        to_crate: row.to_crate.clone(),
                        file: row.file.clone(),
                        line: row.line as usize,
                        severity: ViolationSeverity::Error,
                        message,
                    },
                )
            } else {
                None
            }
        },
        _ => None,
    }
}

/// The violation for two crates found on a dependency cycle.
pub fn circular_dependency_violation(crate1: &str, crate2: &str) -> (v: ArchitectureViolation)
    ensures
        v.kind@ == "circular_dependency"@,
        v.from@ == crate1@,
        v.to@ == crate2@,
        v.from_layer@ == "unknown"@,
        v.to_layer@ == "unknown"@,
        v.from_crate@ == crate1@,
        v.to_crate@ == crate2@,
        v.file@.len() == 0,
        v.line == 0,
        v.severity == ViolationSeverity::Error,
        v.message@ == "Circular dependency detected between crates '"@ + crate1@ + "' and '"@
            + crate2@ + "'"@,
{
    ArchitectureViolation {
        kind: String::from_str("circular_dependency"),
        from: String::from_str(crate1),
        to: String::from_str(crate2),
        from_layer: String::from_str("unknown"),
        to_layer: String::from_str("unknown"),
        from_crate: String::from_str(crate1),
        to_crate: String::from_str(crate2),
        file: String::new(),
        line: 0,
        severity: ViolationSeverity::Error,
        message: String::from_str("Circular dependency detected between crates '").concat(
            crate1,
        ).concat("' and '").concat(crate2).concat("'"),
    }
}

/// The violation for a crate of a lower layer that depends on one of a higher
/// layer, if the configured layering makes it one.
pub fn reverse_dependency_violation(
    config: &Config,
    lower_layer: &str,
    higher_layer: &str,
    lower_crate: &str,
    higher_crate: &str,
) -> (r: Option<ArchitectureViolation>)
    ensures
        r is Some <==> layer_violation(config.architecture.layers@, lower_crate@, higher_crate@),
        r matches Some(v) ==> {
            &&& v.kind@ == "reverse_dependency"@
            &&& v.from@ == lower_crate@
            &&& v.to@ == higher_crate@
            &&& v.from_layer@ == lower_layer@
            &&& v.to_layer@ == higher_layer@
            &&& v.from_crate@ == lower_crate@
            &&& v.to_crate@ == higher_crate@
            &&& v.file@ == "Cargo.toml"@
            &&& v.line == 0
            &&& v.severity == ViolationSeverity::Error
            &&& v.message@ == "Reverse dependency: Lower layer '"@ + lower_layer@ + "' ("@
                + lower_crate@ + ") should not depend on higher layer '"@ + higher_layer@
                + "' ("@ + higher_crate@ + ")"@
        },
{
    if !config.is_layer_violation(lower_crate, higher_crate) {
        return None;
    }
    Some(
        ArchitectureViolation {
            kind: String::from_str("reverse_dependency"),
            from: String::from_str(lower_crate),
            to: String::from_str(higher_crate),
            from_layer: String::from_str(lower_layer),
            to_layer: String::from_str(higher_layer),
            from_crate: String::from_str(lower_crate),
            to_crate: String::from_str(higher_crate),
            file: String::from_str("Cargo.toml"),
            line: 0,
            severity: ViolationSeverity::Error,
            message: String::from_str("Reverse dependency: Lower layer '").concat(
                lower_layer,
            ).concat("' (").concat(lower_crate).concat(
                ") should not depend on higher layer '",
            ).concat(higher_layer).concat("' (").concat(higher_crate).concat(")"),
        },
    )
}

/// The violation for a cross-crate call of a function that is not public.
pub fn private_api_violation(
    caller: &str,
    caller_crate: &str,
    callee: &str,
    callee_crate: &str,
    file: &str,
    line: i64,
) -> (v: ArchitectureViolation)
    ensures
        v.kind@ == "private_api_access"@,
        v.from@ == caller@,
        v.to@ == callee@,
        v.from_layer@ == "unknown"@,
        v.to_layer@ == "unknown"@,
        v.from_crate@ == caller_crate@,
        v.to_crate@ == callee_crate@,
        v.file@ == file@,
        v.line == line as usize,
        v.severity == ViolationSeverity::Warning,
        v.message@ == "Private API access: '"@ + caller@ + "' in crate '"@ + caller_crate@
            + "' calls private function '"@ + callee@ + "' in crate '"@ + callee_crate@ + "'"@,
{
    ArchitectureViolation {
        kind: String::from_str("private_api_access"),
        from: String::from_str(caller),
        to: String::from_str(callee),
        from_layer: String::from_str("unknown"),
        to_layer: String::from_str("unknown"),
        from_crate: String::from_str(caller_crate),
        to_crate: String::from_str(callee_crate),
        file: String::from_str(file),
        line: line as usize,
        severity: ViolationSeverity::Warning,
        message: String::from_str("Private API access: '").concat(caller).concat(
            "' in crate '",
        ).concat(caller_crate).concat("' calls private function '").concat(callee).concat(
            "' in crate '",
        ).concat(callee_crate).concat("'"),
    }
}

/// A call marked in the graph as violating the architecture.
pub struct MarkedCallRow {
    pub caller: String,
    pub callee: String,
    pub caller_crate: String,
    pub callee_crate: String,
    pub file: String,
    pub line: i64,
    pub kind: String,
    pub severity: String,
}

/// The violation that a marked call of the graph stands for.
pub fn violation_from_marked_row(row: &MarkedCallRow) -> (v: ArchitectureViolation)
    ensures
        v.kind == row.kind,
        v.from == row.caller,
        v.to == row.callee,
        v.from_layer@ == "unknown"@,
        v.to_layer@ == "unknown"@,
        v.from_crate == row.caller_crate,
        v.to_crate == row.callee_crate,
        v.file == row.file,
        v.line == row.line as usize,
        v.severity == severity_named(row.severity@),
        v.message@ == "Function '"@ + row.caller@ + "' violates architecture by calling '"@
            + row.callee@ + "'"@,
{
    ArchitectureViolation {
        kind: row.kind.clone(),
        from: row.caller.clone(),
        to: row.callee.clone(),
        from_layer: String::from_str("unknown"),
        to_layer: String::from_str("unknown"),
        from_crate: row.caller_crate.clone(),
        to_crate: row.callee_crate.clone(),
        file: row.file.clone(),
        line: row.line as usize,
        severity: severity_from_name(row.severity.as_str()),
        message: String::from_str("Function '").concat(row.caller.as_str()).concat(
            "' violates architecture by calling '",
        ).concat(row.callee.as_str()).concat("'"),
    }
}

/// Only layer violations are marked on the call edges of the graph.
pub fn marks_call_edge(v: &ArchitectureViolation) -> (b: bool)
    ensures
        b == (v.kind@ == "layer_violation"@),
{
    str_eq(v.kind.as_str(), "layer_violation")
}

/// The health of a layer with `violations` violating calls: its score is
/// 100 / (1 + violations / 10); at least 90 is `healthy`, at least 70 `warning`,
/// below that `critical`.
pub open spec fn layer_status(violations: nat) -> Seq<char> {
    if 1000 >= 90 * (10 + violations) {
        "healthy"@
    } else if 1000 >= 70 * (10 + violations) {
        "warning"@
    } else {
        "critical"@
    }
}

/// The health status of a layer with `violation_count` violating calls.
pub fn layer_health_status(violation_count: usize) -> (s: String)
    ensures
        s@ == layer_status(violation_count as nat),
{
    if violation_count <= 1 {
        String::from_str("healthy")
    } else if violation_count <= 4 {
        String::from_str("warning")
    } else {
        String::from_str("critical")
    }
}

/// How many of the keys `ks` equal `k`.
pub open spec fn key_count(ks: Seq<Seq<char>>, k: Seq<char>) -> int
    decreases ks.len(),
{
    if ks.len() == 0 {
        0
    } else {
        key_count(ks.drop_last(), k) + if ks.last() == k {
            1int
        } else {
            0int
        }
    }
}

pub proof fn lemma_key_count(ks: Seq<Seq<char>>, k: Seq<char>)
    ensures
        0 <= key_count(ks, k) <= ks.len(),
        key_count(ks, k) > 0 <==> ks.contains(k),
    decreases ks.len(),
{
    if ks.len() > 0 {
        lemma_key_count(ks.drop_last(), k);
        if ks.drop_last().contains(k) {
            let j = choose|j: int| 0 <= j < ks.drop_last().len() && ks.drop_last()[j] == k;
            assert(ks[j] == k);
        }
        if ks.contains(k) && ks.last() != k {
            let j = choose|j: int| 0 <= j < ks.len() && ks[j] == k;
            assert(ks.drop_last()[j] == k);
        }
    }
}

/// A table of how often each key occurs in `keys`; the keys are in order of
/// first occurrence.
pub fn count_keys(keys: &Vec<String>) -> (t: NameTable<usize>)
    ensures
        forall|k: Seq<char>| #[trigger]
            t@.contains_key(k) <==> keys@.map_values(|s: String| s@).contains(k),
        forall|k: Seq<char>| #[trigger]
            t@.contains_key(k) ==> t@[k] == key_count(keys@.map_values(|s: String| s@), k),
{
    let ghost ks = keys@.map_values(|s: String| s@);
    let mut t: NameTable<usize> = NameTable::new();
    let mut i: usize = 0;
    while i < keys.len()
        invariant
            i <= keys@.len(),
            ks == keys@.map_values(|s: String| s@),
            forall|k: Seq<char>| #[trigger] t@.contains_key(k) <==> ks.take(i as int).contains(k),
            forall|k: Seq<char>| #[trigger]
                t@.contains_key(k) ==> t@[k] == key_count(ks.take(i as int), k),
        decreases keys@.len() - i,
    {
        let key = &keys[i];
        let ghost tk = ks.take(i + 1);
        proof {
            assert(tk.drop_last() =~= ks.take(i as int));
            assert(tk.last() == key@);
            lemma_key_count(ks.take(i as int), key@);
        }
        let current = match t.get(key.as_str()) {
            Some(c) => *c,
            None => 0,
        };
        proof {
            if t@.contains_key(key@) {
                assert(current == key_count(ks.take(i as int), key@));
            } else {
                assert(!ks.take(i as int).contains(key@));
                lemma_key_count(ks.take(i as int), key@);
            }
        }
        t.insert(key.clone(), current + 1);
        proof {
            assert forall|k: Seq<char>| #[trigger] t@.contains_key(k) <==> tk.contains(k) by {
                if tk.contains(k) && k != key@ {
                    let j = choose|j: int| 0 <= j < tk.len() && tk[j] == k;
                    assert(ks.take(i as int)[j] == k);
                }
                if ks.take(i as int).contains(k) {
                    let j = choose|j: int| 0 <= j < i && ks.take(i as int)[j] == k;
                    assert(tk[j] == k);
                }
                assert(tk[i as int] == key@);
            }
        }
        i = i + 1;
    }
    assert(ks.take(keys@.len() as int) =~= ks);
    t
}

/// The `limit` keys of `counts` with the highest counts: they are distinct keys
/// of the table in order of non-increasing count, fewer than `limit` only when
/// every key is among them, and no key left out has a higher count than the
/// last one taken.
pub open spec fn is_top_selection(counts: Map<Seq<char>, usize>, r: Seq<Seq<char>>, limit: int) -> bool {
    &&& r.len() <= limit
    &&& forall|a: int| 0 <= a < r.len() ==> counts.contains_key(#[trigger] r[a])
    &&& forall|a: int, b: int| 0 <= a < b < r.len() ==> r[a] != r[b]
    &&& forall|a: int, b: int|
        0 <= a < b < r.len() ==> counts[#[trigger] r[a]] >= counts[#[trigger] r[b]]
    &&& r.len() < limit ==> forall|k: Seq<char>| #[trigger] counts.contains_key(k) ==> r.contains(k)
    &&& r.len() > 0 ==> forall|k: Seq<char>|
        #[trigger] counts.contains_key(k) && !r.contains(k) ==> counts[k] <= counts[r.last()]
}

/// The keys of `counts` with the highest counts, at most `limit` of them.
pub fn top_keys(counts: &NameTable<usize>, limit: usize) -> (r: Vec<String>)
    ensures
        is_top_selection(counts@, r@.map_values(|s: String| s@), limit as int),
{
    counts.check_wf();
    let n = counts.len();
    let ghost e = counts.spec_entries();
    let mut taken: Vec<bool> = Vec::new();
    let mut j: usize = 0;
    while j < n
        invariant
            j <= n,
            taken@.len() == j,
            forall|x: int| 0 <= x < j ==> !taken@[x],
        decreases n - j,
    {
        taken.push(false);
        j = j + 1;
    }
    let mut r: Vec<String> = Vec::new();
    let ghost mut idx: Seq<int> = Seq::empty();
    let mut done = false;
    while r.len() < limit && !done
        invariant
            n == e.len(),
            e == counts.spec_entries(),
            counts.wf(),
            taken@.len() == n,
            r@.len() == idx.len(),
            r@.len() <= limit,
            forall|a: int| 0 <= a < idx.len() ==> 0 <= #[trigger] idx[a] < n && taken@[idx[a]],
            forall|a: int| 0 <= a < idx.len() ==> (#[trigger] r@[a])@ == e[idx[a]].0,
            forall|x: int| 0 <= x < n && #[trigger] taken@[x] ==> exists|a: int|
                0 <= a < idx.len() && idx[a] == x,
            forall|a: int, b: int| 0 <= a < b < idx.len() ==> idx[a] != idx[b],
            forall|a: int, b: int|
                0 <= a < b < idx.len() ==> e[#[trigger] idx[a]].1 >= e[#[trigger] idx[b]].1,
            idx.len() > 0 ==> forall|x: int|
                0 <= x < n && !#[trigger] taken@[x] ==> e[x].1 <= e[idx.last()].1,
            done ==> forall|x: int| 0 <= x < n ==> #[trigger] taken@[x],
        decreases limit - r@.len() + if done { 0int } else { 1int },
    {
        let mut best: Option<usize> = None;
        let mut x: usize = 0;
        while x < n
            invariant
                n == e.len(),
                e == counts.spec_entries(),
                taken@.len() == n,
                x <= n,
                best is None ==> forall|y: int| 0 <= y < x ==> #[trigger] taken@[y],
                best matches Some(b) ==> b < x && !taken@[b as int] && forall|y: int|
                    0 <= y < x && !#[trigger] taken@[y] ==> e[y].1 <= e[b as int].1,
            decreases n - x,
        {
            if !taken[x] {
                let (_, c) = counts.entry_at(x);
                match best {
                    None => {
                        best = Some(x);
                    },
                    Some(b) => {
                        let (_, cb) = counts.entry_at(b);
                        if *c > *cb {
                            best = Some(x);
                        }
                    },
                }
            }
            x = x + 1;
        }
        match best {
            None => {
                done = true;
            },
            Some(b) => {
                let (name, _) = counts.entry_at(b);
                proof {
                    if idx.len() > 0 {
                        assert(e[idx.last()].1 >= e[b as int].1);
                    }
                    assert forall|a: int| 0 <= a < idx.len() implies idx[a] != b by {
                        assert(taken@[idx[a]]);
                    }
                }
                r.push(name.clone());
                taken.set(b, true);
                proof {
                    let old_idx = idx;
                    idx = idx.push(b as int);
                    assert forall|y: int| 0 <= y < n && #[trigger] taken@[y] implies exists|a: int|
                        0 <= a < idx.len() && idx[a] == y by {
                        if y == b {
                            assert(idx[old_idx.len() as int] == y);
                        } else {
                            let a = choose|a: int| 0 <= a < old_idx.len() && old_idx[a] == y;
                            assert(idx[a] == y);
                        }
                    }
                    assert forall|a: int, c: int| 0 <= a < c < idx.len() implies e[#[trigger] idx[a]].1
                        >= e[#[trigger] idx[c]].1 by {
                        if c == idx.len() - 1 && a < c {
                            if a == idx.len() - 2 {
                            } else {
                                assert(e[old_idx[a]].1 >= e[old_idx.last()].1);
                            }
                        }
                    }
                }
            },
        }
    }
    proof {
        let rv = r@.map_values(|s: String| s@);
        assert forall|a: int| 0 <= a < rv.len() implies rv[a] == e[idx[a]].0 by {
            assert(rv[a] == r@[a]@);
        }
        assert forall|a: int| 0 <= a < rv.len() implies counts@.contains_key(#[trigger] rv[a])
            && counts@[rv[a]] == e[idx[a]].1 by {
            lemma_key_index(e, rv[a]);
            assert(e[idx[a]].0 == rv[a]);
        }
        assert forall|a: int, b: int| 0 <= a < b < rv.len() implies rv[a] != rv[b] by {
            assert(rv[a] == e[idx[a]].0);
            assert(rv[b] == e[idx[b]].0);
        }
        assert forall|a: int, b: int| 0 <= a < b < rv.len() implies counts@[#[trigger] rv[a]]
            >= counts@[#[trigger] rv[b]] by {
            assert(counts@[rv[a]] == e[idx[a]].1);
            assert(counts@[rv[b]] == e[idx[b]].1);
        }
        assert forall|k: Seq<char>| #[trigger] counts@.contains_key(k) && !rv.contains(k) implies (
            forall|x: int| 0 <= x < n && e[x].0 == k ==> !taken@[x]) by {
            assert forall|x: int| 0 <= x < n && e[x].0 == k implies !taken@[x] by {
                if taken@[x] {
                    let a = choose|a: int| 0 <= a < idx.len() && idx[a] == x;
                    assert(rv[a] == k);
                }
            }
        }
        if rv.len() < limit {
            assert forall|k: Seq<char>| #[trigger] counts@.contains_key(k) implies rv.contains(k) by {
                lemma_key_index(e, k);
                let x = key_index(e, k);
                assert(taken@[x]);
                let a = choose|a: int| 0 <= a < idx.len() && idx[a] == x;
                assert(rv[a] == k);
            }
        }
        if rv.len() > 0 {
            assert forall|k: Seq<char>| #[trigger] counts@.contains_key(k) && !rv.contains(k) implies counts@[k]
                <= counts@[rv.last()] by {
                lemma_key_index(e, k);
                let x = key_index(e, k);
                assert(!taken@[x]);
                assert(counts@[rv.last()] == e[idx.last()].1);
            }
        }
    }
    r
}

/// The key under which a violation is counted per pair of layers.
pub open spec fn layer_key(v: ArchitectureViolation) -> Seq<char> {
    v.from_layer@ + " -> "@ + v.to_layer@
}

/// Number of violations of `vs` with severity `s`.
pub open spec fn severity_count(vs: Seq<ArchitectureViolation>, s: ViolationSeverity) -> int
    decreases vs.len(),
{
    if vs.len() == 0 {
        0
    } else {
        severity_count(vs.drop_last(), s) + if vs.last().severity == s {
            1int
        } else {
            0int
        }
    }
}

/// Every violation has exactly one severity: the counts of errors, warnings
/// and notes add up to the number of violations.
pub proof fn lemma_severity_counts_partition(vs: Seq<ArchitectureViolation>)
    ensures
        severity_count(vs, ViolationSeverity::Error) + severity_count(vs, ViolationSeverity::Warning)
            + severity_count(vs, ViolationSeverity::Info) == vs.len(),
    decreases vs.len(),
{
    if vs.len() > 0 {
        lemma_severity_counts_partition(vs.drop_last());
    }
}

/// Number of violations of `vs` that come from crate `c`.
pub open spec fn crate_violations(vs: Seq<ArchitectureViolation>, c: Seq<char>) -> int {
    key_count(vs.map_values(|v: ArchitectureViolation| v.from_crate@), c)
}

/// For each crate that violations come from, how many come from it.
pub open spec fn crate_count_map(vs: Seq<ArchitectureViolation>) -> Map<Seq<char>, usize> {
    let ks = vs.map_values(|v: ArchitectureViolation| v.from_crate@);
    Map::new(|c: Seq<char>| ks.contains(c), |c: Seq<char>| key_count(ks, c) as usize)
}

/// Summarises a list of violations: how many there are of each severity, how
/// many per pair of layers, and the five crates with the most violations.
pub fn generate_summary(violations: &[ArchitectureViolation]) -> (s: ArchitectureSummary)
    ensures
        s.total_violations == violations@.len(),
        s.error_count == severity_count(violations@, ViolationSeverity::Error),
        s.warning_count == severity_count(violations@, ViolationSeverity::Warning),
        s.info_count == severity_count(violations@, ViolationSeverity::Info),
        forall|k: Seq<char>| #[trigger]
            s.violations_by_layer@.contains_key(k) <==> violations@.map_values(
                |v: ArchitectureViolation| layer_key(v),
            ).contains(k),
        forall|k: Seq<char>| #[trigger]
            s.violations_by_layer@.contains_key(k) ==> s.violations_by_layer@[k] == key_count(
                violations@.map_values(|v: ArchitectureViolation| layer_key(v)),
                k,
            ),
        is_top_selection(
            crate_count_map(violations@),
            s.most_problematic_crates@.map_values(|x: String| x@),
            5,
        ),
{
    let mut error_count: usize = 0;
    let mut warning_count: usize = 0;
    let mut info_count: usize = 0;
    let mut layer_names: Vec<String> = Vec::new();
    let mut crate_names: Vec<String> = Vec::new();
    let mut i: usize = 0;
    while i < violations.len()
        invariant
            i <= violations@.len(),
            error_count == severity_count(violations@.take(i as int), ViolationSeverity::Error),
            warning_count == severity_count(
                violations@.take(i as int),
                ViolationSeverity::Warning,
            ),
            info_count == severity_count(violations@.take(i as int), ViolationSeverity::Info),
            error_count + warning_count + info_count == i,
            layer_names@.map_values(|x: String| x@) == violations@.take(i as int).map_values(
                |v: ArchitectureViolation| layer_key(v),
            ),
            crate_names@.map_values(|x: String| x@) == violations@.take(i as int).map_values(
                |v: ArchitectureViolation| v.from_crate@,
            ),
        decreases violations@.len() - i,
    {
        let v = &violations[i];
        proof {
            let t = violations@.take(i + 1);
            assert(t.drop_last() =~= violations@.take(i as int));
            assert(t.last() == violations@[i as int]);
        }
        match v.severity {
            ViolationSeverity::Error => {
                error_count = error_count + 1;
            },
            ViolationSeverity::Warning => {
                warning_count = warning_count + 1;
            },
            ViolationSeverity::Info => {
                info_count = info_count + 1;
            },
        }
        let key = v.from_layer.clone().concat(" -> ").concat(v.to_layer.as_str());
        let ghost (ln0, cn0) = (layer_names@, crate_names@);
        let fc = v.from_crate.clone();
        assert(key@ == layer_key(violations@[i as int]));
        assert(fc@ == violations@[i as int].from_crate@);
        layer_names.push(key);
        crate_names.push(fc);
        proof {
            let t = violations@.take(i + 1);
            assert(t =~= violations@.take(i as int).push(violations@[i as int]));
            assert(layer_names@.map_values(|x: String| x@) =~= ln0.map_values(|x: String| x@).push(
                key@,
            ));
            assert(t.map_values(|v: ArchitectureViolation| layer_key(v)) =~= violations@.take(
                i as int,
            ).map_values(|v: ArchitectureViolation| layer_key(v)).push(layer_key(violations@[i as int])));
            assert(crate_names@.map_values(|x: String| x@) =~= cn0.map_values(|x: String| x@).push(
                fc@,
            ));
            assert(t.map_values(|v: ArchitectureViolation| v.from_crate@) =~= violations@.take(
                i as int,
            ).map_values(|v: ArchitectureViolation| v.from_crate@).push(violations@[i as int].from_crate@));
        }
        i = i + 1;
    }
    assert(violations@.take(violations@.len() as int) =~= violations@);
    let violations_by_layer = count_keys(&layer_names);
    let crate_counts = count_keys(&crate_names);
    proof {
        let ks = violations@.map_values(|v: ArchitectureViolation| v.from_crate@);
        assert(crate_names@.map_values(|x: String| x@) == ks);
        assert(crate_counts@ =~= crate_count_map(violations@));
    }
    let most_problematic_crates = top_keys(&crate_counts, 5);
    ArchitectureSummary {
        total_violations: violations.len(),
        error_count,
        warning_count,
        info_count,
        violations_by_layer,
        most_problematic_crates,
    }
}

} // verus!
