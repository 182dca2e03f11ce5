//! Framework knowledge: patterns that recognise entry points, runtime calls,
//! trait dispatch and actor systems of async frameworks in source code, their
//! validation and their compiled regular expressions.
use vstd::prelude::*;

use crate::table::NameTable;
use crate::table::entries_map;
use crate::text::contains_seq;
use crate::text::remove_chars;
use crate::text::chars_of;
use crate::text::contains_chars;
use crate::text::remove_chars_exec;
use crate::text::str_contains;
use crate::workspace::views_of;
use crate::text::decimal;
use crate::text::decimal_string;
use vstd::utf8::encode_utf8;

verus! {

#[verifier::external_type_specification]
#[verifier::external_body]
pub struct ExRegex(regex::Regex);

/// Whether `regex::Regex::new` accepts `pattern` (with its default size limit).
pub uninterp spec fn regex_valid(pattern: Seq<char>) -> bool;

/// Whether the regular expression `pattern` matches somewhere in `haystack`
/// (`regex::Regex::is_match`).
pub uninterp spec fn regex_matches(pattern: Seq<char>, haystack: Seq<char>) -> bool;

/// A compiled regular expression together with the pattern it was compiled
/// from; only `compile_regex` makes one.
#[derive(Debug)]
pub struct CompiledRegex {
    source: String,
    regex: regex::Regex,
}

impl CompiledRegex {
    /// The pattern this expression was compiled from.
    pub closed spec fn pattern(&self) -> Seq<char> {
        self.source@
    }
}

/// `regex::Regex::new`: compiles `pattern`; it succeeds exactly on the patterns
/// that `regex_valid` names, and the compiled expression remembers its pattern.
/// The text of the error is the crate's and is not stated.
#[verifier::external_body]
fn compile_regex(pattern: &str) -> (r: Result<CompiledRegex, String>)
    ensures
        r is Ok <==> regex_valid(pattern@),
        r matches Ok(c) ==> c.pattern() == pattern@,
{
    match regex::Regex::new(pattern) {
        Ok(regex) => Ok(CompiledRegex { source: pattern.to_string(), regex }),
        Err(e) => Err(e.to_string()),
    }
}

/// `regex::Regex::is_match`: whether the expression matches somewhere in
/// `haystack`, as `regex_matches` names it for the expression's pattern.
#[verifier::external_body]
fn regex_is_match(re: &CompiledRegex, haystack: &str) -> (b: bool)
    ensures
        b == regex_matches(re.pattern(), haystack@),
{
    re.regex.is_match(haystack)
}

/// Pattern for framework entry points (main functions, server starts, etc.)
#[derive(Debug, Clone)]
pub struct EntryPointPattern {
    pub name: String,
    pub description: String,
    pub framework: String,
    pub pattern_type: EntryPointType,
    pub function_pattern: String,
    pub triggers_methods: Vec<String>,
    pub context_conditions: Vec<String>,
}

/// Pattern for runtime method invocations
#[derive(Debug, Clone)]
pub struct RuntimeCallPattern {
    pub name: String,
    pub description: String,
    pub framework: String,
    pub pattern_type: RuntimeCallType,
    pub caller_pattern: String,
    pub target_pattern: String,
    pub method_patterns: Vec<String>,
    pub conditions: Vec<String>,
}

/// Pattern for trait method dispatch
#[derive(Debug, Clone)]
pub struct TraitDispatchPattern {
    pub name: String,
    pub description: String,
    pub framework: String,
    pub trait_name: String,
    pub dispatch_method: String,
    pub target_methods: Vec<String>,
    pub dispatch_conditions: Vec<String>,
}

/// Pattern for actor system method calls
#[derive(Debug, Clone)]
pub struct ActorPattern {
    pub name: String,
    pub description: String,
    pub framework: String,
    pub actor_trait: String,
    pub lifecycle_methods: Vec<String>,
    pub message_handlers: Vec<String>,
    pub spawn_patterns: Vec<String>,
}

#[derive(Debug, Clone, Copy, PartialEq, Eq, Structural)]
pub enum EntryPointType {
    Main,
    ServerStart,
    ActorSpawn,
    TaskSpawn,
    RuntimeBuilder,
}

#[derive(Debug, Clone, Copy, PartialEq, Eq, Structural)]
pub enum RuntimeCallType {
    AsyncTaskSpawn,
    ActorMessage,
    TraitObjectCall,
    FrameworkCallback,
    EventHandler,
}

/// Compiled regular expressions of the patterns, keyed by pattern name (runtime
/// calls under `<name>_caller` and `<name>_target`, actor spawns under
/// `<name>_spawn`).
#[derive(Debug)]
pub struct CompiledPatterns {
    pub entry_point_regexes: NameTable<CompiledRegex>,
    pub runtime_call_regexes: NameTable<CompiledRegex>,
    pub trait_dispatch_regexes: NameTable<CompiledRegex>,
    pub actor_regexes: NameTable<CompiledRegex>,
}

/// Framework-specific patterns for detecting runtime calls and synthetic references
#[derive(Debug)]
pub struct FrameworkPatterns {
    pub entry_points: Vec<EntryPointPattern>,
    pub runtime_calls: Vec<RuntimeCallPattern>,
    pub trait_dispatch: Vec<TraitDispatchPattern>,
    pub actor_patterns: Vec<ActorPattern>,
    pub compiled_patterns: Option<CompiledPatterns>,
}

#[derive(Debug, Clone, Copy, PartialEq, Eq, Structural)]
pub struct PatternStats {
    pub entry_points: usize,
    pub runtime_calls: usize,
    pub trait_dispatches: usize,
    pub actor_patterns: usize,
    pub compiled: bool,
}

/// Why a set of patterns was refused.
#[derive(Debug, Clone)]
pub struct PatternError {
    pub message: String,
}

/// The patterns that a table of compiled expressions holds, by key.
pub open spec fn table_patterns(t: NameTable<CompiledRegex>) -> Map<Seq<char>, Seq<char>> {
    t@.map_values(|c: CompiledRegex| c.pattern())
}

/// (key, pattern) of each entry-point pattern, in order.
pub open spec fn entry_pairs(ps: Seq<EntryPointPattern>) -> Seq<(Seq<char>, Seq<char>)> {
    ps.map_values(|p: EntryPointPattern| (p.name@, p.function_pattern@))
}

/// (key, pattern) of each runtime-call pattern: its caller expression under
/// `<name>_caller`, then its target expression under `<name>_target`.
pub open spec fn runtime_pairs(ps: Seq<RuntimeCallPattern>) -> Seq<(Seq<char>, Seq<char>)>
    decreases ps.len(),
{
    if ps.len() == 0 {
        Seq::empty()
    } else {
        let p = ps.last();
        runtime_pairs(ps.drop_last()) + seq![
            (p.name@ + "_caller"@, p.caller_pattern@),
            (p.name@ + "_target"@, p.target_pattern@),
        ]
    }
}

/// (key, pattern) of each trait-dispatch pattern, in order.
pub open spec fn dispatch_pairs(ps: Seq<TraitDispatchPattern>) -> Seq<(Seq<char>, Seq<char>)> {
    ps.map_values(|p: TraitDispatchPattern| (p.name@, p.dispatch_method@))
}

/// (key, pattern) of each spawn expression of each actor pattern, all under
/// `<name>_spawn`.
pub open spec fn actor_pairs(ps: Seq<ActorPattern>) -> Seq<(Seq<char>, Seq<char>)>
    decreases ps.len(),
{
    if ps.len() == 0 {
        Seq::empty()
    } else {
        let p = ps.last();
        actor_pairs(ps.drop_last()) + views_of(p.spawn_patterns@).map_values(
            |s: Seq<char>| (p.name@ + "_spawn"@, s),
        )
    }
}

/// Every pattern of the list of pairs compiles.
pub open spec fn all_valid(pairs: Seq<(Seq<char>, Seq<char>)>) -> bool {
    forall|i: int| 0 <= i < pairs.len() ==> regex_valid(#[trigger] pairs[i].1)
}

/// Every regular expression of the patterns compiles.
pub open spec fn patterns_compile(f: FrameworkPatterns) -> bool {
    &&& all_valid(entry_pairs(f.entry_points@))
    &&& all_valid(runtime_pairs(f.runtime_calls@))
    &&& all_valid(dispatch_pairs(f.trait_dispatch@))
    &&& all_valid(actor_pairs(f.actor_patterns@))
}

/// The compiled tables hold, under each key, the last pattern given for it.
pub open spec fn compiled_from(c: CompiledPatterns, f: FrameworkPatterns) -> bool {
    &&& table_patterns(c.entry_point_regexes) == entries_map(entry_pairs(f.entry_points@))
    &&& table_patterns(c.runtime_call_regexes) == entries_map(runtime_pairs(f.runtime_calls@))
    &&& table_patterns(c.trait_dispatch_regexes) == entries_map(dispatch_pairs(f.trait_dispatch@))
    &&& table_patterns(c.actor_regexes) == entries_map(actor_pairs(f.actor_patterns@))
}

fn with_suffix(name: &String, suffix: &str) -> (r: String)
    ensures
        r@ == name@ + suffix@,
{
    name.clone().concat(suffix)
}

/// Compiles `pattern` into `table` under `key`, or gives the error message
/// `<what> '<pattern>': <error>`.
fn compile_into(
    table: &mut NameTable<CompiledRegex>,
    key: String,
    pattern: &String,
    what: &str,
) -> (r: Result<(), PatternError>)
    ensures
        r is Ok <==> regex_valid(pattern@),
        r is Ok ==> table_patterns(*final(table)) == table_patterns(*old(table)).insert(
            key@,
            pattern@,
        ),
{
    match compile_regex(pattern.as_str()) {
        Ok(c) => {
            let ghost k = key@;
            table.insert(key, c);
            proof {
                assert(table_patterns(*table) =~= table_patterns(*old(table)).insert(k, pattern@));
            }
            Ok(())
        },
        Err(e) => Err(
            PatternError {
                message: String::from_str(what).concat(" '").concat(pattern.as_str()).concat(
                    "': ",
                ).concat(e.as_str()),
            },
        ),
    }
}

proof fn lemma_runtime_prefix(ps: Seq<RuntimeCallPattern>, k: int)
    requires
        0 <= k <= ps.len(),
    ensures
        runtime_pairs(ps.take(k)).len() <= runtime_pairs(ps).len(),
        forall|j: int|
            0 <= j < runtime_pairs(ps.take(k)).len() ==> runtime_pairs(ps)[j] == #[trigger] runtime_pairs(
                ps.take(k),
            )[j],
    decreases ps.len(),
{
    if k == ps.len() {
        assert(ps.take(k) =~= ps);
    } else {
        lemma_runtime_prefix(ps.drop_last(), k);
        assert(ps.drop_last().take(k) =~= ps.take(k));
    }
}

proof fn lemma_actor_prefix(ps: Seq<ActorPattern>, k: int)
    requires
        0 <= k <= ps.len(),
    ensures
        actor_pairs(ps.take(k)).len() <= actor_pairs(ps).len(),
        forall|j: int|
            0 <= j < actor_pairs(ps.take(k)).len() ==> actor_pairs(ps)[j] == #[trigger] actor_pairs(
                ps.take(k),
            )[j],
    decreases ps.len(),
{
    if k == ps.len() {
        assert(ps.take(k) =~= ps);
    } else {
        lemma_actor_prefix(ps.drop_last(), k);
        assert(ps.drop_last().take(k) =~= ps.take(k));
    }
}

impl FrameworkPatterns {
    /// Create new empty framework patterns
    pub fn new() -> (f: Self)
        ensures
            f.entry_points@.len() == 0,
            f.runtime_calls@.len() == 0,
            f.trait_dispatch@.len() == 0,
            f.actor_patterns@.len() == 0,
            f.compiled_patterns is None,
    {
        FrameworkPatterns {
            entry_points: Vec::new(),
            runtime_calls: Vec::new(),
            trait_dispatch: Vec::new(),
            actor_patterns: Vec::new(),
            compiled_patterns: None,
        }
    }

    /// Compiles every pattern's regular expression. It fails, leaving the
    /// patterns as they were, exactly when one of the expressions does not
    /// compile; the message names the first of them.
    pub fn compile_patterns(&mut self) -> (r: Result<(), PatternError>)
        ensures
            r is Ok <==> patterns_compile(*old(self)),
            r is Err ==> *final(self) == *old(self),
            r is Ok ==> {
                &&& final(self).entry_points == old(self).entry_points
                &&& final(self).runtime_calls == old(self).runtime_calls
                &&& final(self).trait_dispatch == old(self).trait_dispatch
                &&& final(self).actor_patterns == old(self).actor_patterns
                &&& final(self).compiled_patterns matches Some(c) && compiled_from(c, *old(self))
            },
    {
        let mut entry_point_regexes: NameTable<CompiledRegex> = NameTable::new();
        let mut runtime_call_regexes: NameTable<CompiledRegex> = NameTable::new();
        let mut trait_dispatch_regexes: NameTable<CompiledRegex> = NameTable::new();
        let mut actor_regexes: NameTable<CompiledRegex> = NameTable::new();
        let ghost ep = entry_pairs(self.entry_points@);
        let ghost rp = runtime_pairs(self.runtime_calls@);
        let ghost dp = dispatch_pairs(self.trait_dispatch@);
        let ghost ap = actor_pairs(self.actor_patterns@);
        proof {
            assert(table_patterns(entry_point_regexes) =~= entries_map(ep.take(0)));
        }
        let mut i: usize = 0;
        while i < self.entry_points.len()
            invariant
                i <= self.entry_points@.len(),
                ep == entry_pairs(self.entry_points@),
                table_patterns(entry_point_regexes) == entries_map(ep.take(i as int)),
                forall|j: int| 0 <= j < i ==> regex_valid(#[trigger] ep[j].1),
            decreases self.entry_points@.len() - i,
        {
            let p = &self.entry_points[i];
            proof {
                assert(ep.take(i + 1).drop_last() =~= ep.take(i as int));
                assert(ep[i as int] == (p.name@, p.function_pattern@));
            }
            match compile_into(
                &mut entry_point_regexes,
                p.name.clone(),
                &p.function_pattern,
                "Invalid entry point regex",
            ) {
                Ok(()) => {},
                Err(e) => {
                    assert(!regex_valid(ep[i as int].1));
                    return Err(e);
                },
            }
            i = i + 1;
        }
        proof {
            assert(ep.take(ep.len() as int) =~= ep);
            assert(table_patterns(runtime_call_regexes) =~= entries_map(
                runtime_pairs(self.runtime_calls@.take(0)),
            ));
        }
        let mut i: usize = 0;
        while i < self.runtime_calls.len()
            invariant
                i <= self.runtime_calls@.len(),
                rp == runtime_pairs(self.runtime_calls@),
                table_patterns(runtime_call_regexes) == entries_map(
                    runtime_pairs(self.runtime_calls@.take(i as int)),
                ),
                all_valid(runtime_pairs(self.runtime_calls@.take(i as int))),
            decreases self.runtime_calls@.len() - i,
        {
            let p = &self.runtime_calls[i];
            let ghost before = runtime_pairs(self.runtime_calls@.take(i as int));
            let ghost after = runtime_pairs(self.runtime_calls@.take(i + 1));
            proof {
                assert(self.runtime_calls@.take(i + 1).drop_last() =~= self.runtime_calls@.take(
                    i as int,
                ));
                assert(self.runtime_calls@.take(i + 1).last() == *p);
                lemma_runtime_prefix(self.runtime_calls@, i + 1);
                assert(after[before.len() as int] == (p.name@ + "_caller"@, p.caller_pattern@));
                assert(after[before.len() + 1int] == (p.name@ + "_target"@, p.target_pattern@));
                assert(rp[before.len() as int] == after[before.len() as int]);
                assert(rp[before.len() + 1int] == after[before.len() + 1int]);
            }
            match compile_into(
                &mut runtime_call_regexes,
                with_suffix(&p.name, "_caller"),
                &p.caller_pattern,
                "Invalid runtime call regex",
            ) {
                Ok(()) => {},
                Err(e) => {
                    assert(!regex_valid(rp[before.len() as int].1));
                    return Err(e);
                },
            }
            match compile_into(
                &mut runtime_call_regexes,
                with_suffix(&p.name, "_target"),
                &p.target_pattern,
                "Invalid runtime target regex",
            ) {
                Ok(()) => {},
                Err(e) => {
                    assert(!regex_valid(rp[before.len() + 1int].1));
                    return Err(e);
                },
            }
            proof {
                let a = (p.name@ + "_caller"@, p.caller_pattern@);
                let b = (p.name@ + "_target"@, p.target_pattern@);
                assert(after.drop_last() =~= before.push(a));
                assert(before.push(a).drop_last() =~= before);
                assert(after.last() == b);
                assert(entries_map(before.push(a)) == entries_map(before).insert(a.0, a.1));
                assert(entries_map(after) == entries_map(before.push(a)).insert(b.0, b.1));
                assert forall|j: int| 0 <= j < after.len() implies regex_valid(#[trigger] after[j].1) by {
                    if j < before.len() {
                        assert(after[j] == before[j]);
                    }
                }
            }
            i = i + 1;
        }
        proof {
            assert(self.runtime_calls@.take(self.runtime_calls@.len() as int) =~= self.runtime_calls@);
            assert(table_patterns(trait_dispatch_regexes) =~= entries_map(dp.take(0)));
        }
        let mut i: usize = 0;
        while i < self.trait_dispatch.len()
            invariant
                i <= self.trait_dispatch@.len(),
                dp == dispatch_pairs(self.trait_dispatch@),
                table_patterns(trait_dispatch_regexes) == entries_map(dp.take(i as int)),
                forall|j: int| 0 <= j < i ==> regex_valid(#[trigger] dp[j].1),
            decreases self.trait_dispatch@.len() - i,
        {
            let p = &self.trait_dispatch[i];
            proof {
                assert(dp.take(i + 1).drop_last() =~= dp.take(i as int));
                assert(dp[i as int] == (p.name@, p.dispatch_method@));
            }
            match compile_into(
                &mut trait_dispatch_regexes,
                p.name.clone(),
                &p.dispatch_method,
                "Invalid trait dispatch regex",
            ) {
                Ok(()) => {},
                Err(e) => {
                    assert(!regex_valid(dp[i as int].1));
                    return Err(e);
                },
            }
            i = i + 1;
        }
        proof {
            assert(dp.take(dp.len() as int) =~= dp);
            assert(table_patterns(actor_regexes) =~= entries_map(
                actor_pairs(self.actor_patterns@.take(0)),
            ));
        }
        let mut i: usize = 0;
        while i < self.actor_patterns.len()
            invariant
                i <= self.actor_patterns@.len(),
                ap == actor_pairs(self.actor_patterns@),
                table_patterns(actor_regexes) == entries_map(
                    actor_pairs(self.actor_patterns@.take(i as int)),
                ),
                all_valid(actor_pairs(self.actor_patterns@.take(i as int))),
            decreases self.actor_patterns@.len() - i,
        {
            let p = &self.actor_patterns[i];
            let ghost before = actor_pairs(self.actor_patterns@.take(i as int));
            let ghost after = actor_pairs(self.actor_patterns@.take(i + 1));
            let ghost sp = views_of(p.spawn_patterns@).map_values(
                |s: Seq<char>| (p.name@ + "_spawn"@, s),
            );
            proof {
                assert(self.actor_patterns@.take(i + 1).drop_last() =~= self.actor_patterns@.take(
                    i as int,
                ));
                assert(self.actor_patterns@.take(i + 1).last() == *p);
                assert(after == before + sp);
                lemma_actor_prefix(self.actor_patterns@, i + 1);
                assert(before + sp.take(0) =~= before);
            }
            let mut j: usize = 0;
            while j < p.spawn_patterns.len()
                invariant
                    j <= p.spawn_patterns@.len(),
                    sp == views_of(p.spawn_patterns@).map_values(
                        |s: Seq<char>| (p.name@ + "_spawn"@, s),
                    ),
                    after == before + sp,
                    ap == actor_pairs(self.actor_patterns@),
                    after.len() <= ap.len(),
                    forall|x: int| 0 <= x < after.len() ==> ap[x] == #[trigger] after[x],
                    table_patterns(actor_regexes) == entries_map(before + sp.take(j as int)),
                    all_valid(before + sp.take(j as int)),
                decreases p.spawn_patterns@.len() - j,
            {
                proof {
                    assert((before + sp.take(j + 1)).drop_last() =~= before + sp.take(j as int));
                    assert(sp[j as int] == (p.name@ + "_spawn"@, p.spawn_patterns@[j as int]@));
                    assert((before + sp.take(j + 1)).last() == sp[j as int]);
                    assert(ap[before.len() + j as int] == after[before.len() + j as int]);
                    assert(after[before.len() + j as int] == sp[j as int]);
                }
                match compile_into(
                    &mut actor_regexes,
                    with_suffix(&p.name, "_spawn"),
                    &p.spawn_patterns[j],
                    "Invalid actor spawn regex",
                ) {
                    Ok(()) => {},
                    Err(e) => {
                        assert(!regex_valid(ap[before.len() + j as int].1));
                        return Err(e);
                    },
                }
                proof {
                    assert forall|x: int| 0 <= x < (before + sp.take(j + 1)).len() implies regex_valid(
                        #[trigger] (before + sp.take(j + 1))[x].1,
                    ) by {
                        if x < (before + sp.take(j as int)).len() {
                            assert((before + sp.take(j + 1))[x] == (before + sp.take(j as int))[x]);
                        }
                    }
                }
                j = j + 1;
            }
            proof {
                assert(sp.take(sp.len() as int) =~= sp);
            }
            i = i + 1;
        }
        proof {
            assert(self.actor_patterns@.take(self.actor_patterns@.len() as int) =~= self.actor_patterns@);
        }
        self.compiled_patterns = Some(
            CompiledPatterns {
                entry_point_regexes,
                runtime_call_regexes,
                trait_dispatch_regexes,
                actor_regexes,
            },
        );
        Ok(())
    }
}

/// The form of regular expression known to backtrack badly that `p` contains,
/// as the message names it: two unbounded wildcards in a row once grouping is
/// ignored, a repeated wildcard group, or a wildcard class.
pub open spec fn dangerous_form(p: Seq<char>) -> Option<Seq<char>> {
    let g = remove_chars(p, "()"@);
    if contains_seq(g, ".*.*"@) {
        Some("\\.\\*\\.\\*"@)
    } else if contains_seq(g, ".+.+"@) {
        Some("\\.\\+\\.\\+"@)
    } else if contains_seq(p, "(.*)+"@) {
        Some("\\(\\.\\*\\)\\+"@)
    } else if contains_seq(p, "(.+)+"@) {
        Some("\\(\\.\\+\\)\\+"@)
    } else if contains_seq(p, "[.*]"@) {
        Some("\\[\\.\\*\\]"@)
    } else if contains_seq(p, "[.+]"@) {
        Some("\\[\\.\\+\\]"@)
    } else {
        None
    }
}

/// Longest accepted pattern, in bytes.
pub const MAX_PATTERN_BYTES: usize = 1000;

/// The length in bytes of the UTF-8 text `p`, as `str::len` gives it.
pub open spec fn byte_len(p: Seq<char>) -> nat {
    (encode_utf8(p).len() as usize) as nat
}

/// What is wrong with pattern `p` used for `what`, if anything: a dangerous
/// form, or more than `MAX_PATTERN_BYTES` bytes.
pub open spec fn complexity_problem(p: Seq<char>, what: Seq<char>) -> Option<Seq<char>> {
    match dangerous_form(p) {
        Some(d) => Some(
            "Pattern '"@ + p + "' for "@ + what + " contains potentially dangerous regex '"@ + d
                + "' that could cause ReDoS"@,
        ),
        None => if byte_len(p) > MAX_PATTERN_BYTES {
            Some(
                "Pattern '"@ + p + "' for "@ + what + " is too long ("@ + decimal(byte_len(p))
                    + " chars), maximum is 1000"@,
            )
        } else {
            None
        },
    }
}

fn contains_str_chars(hay: &Vec<char>, needle: &str) -> (b: bool)
    ensures
        b == contains_seq(hay@, needle@),
{
    let n = chars_of(needle);
    contains_chars(hay.as_slice(), n.as_slice())
}

fn dangerous_form_exec(p: &str) -> (r: Option<&'static str>)
    ensures
        match r {
            Some(d) => dangerous_form(p@) == Some(d@),
            None => dangerous_form(p@) is None,
        },
{
    let pc = chars_of(p);
    let parens = chars_of("()");
    let g = remove_chars_exec(pc.as_slice(), parens.as_slice());
    if contains_str_chars(&g, ".*.*") {
        Some("\\.\\*\\.\\*")
    } else if contains_str_chars(&g, ".+.+") {
        Some("\\.\\+\\.\\+")
    } else if str_contains(p, "(.*)+") {
        Some("\\(\\.\\*\\)\\+")
    } else if str_contains(p, "(.+)+") {
        Some("\\(\\.\\+\\)\\+")
    } else if str_contains(p, "[.*]") {
        Some("\\[\\.\\*\\]")
    } else if str_contains(p, "[.+]") {
        Some("\\[\\.\\+\\]")
    } else {
        None
    }
}

/// Checks one pattern for forms that backtrack badly and for its length.
pub fn validate_pattern_complexity(pattern: &str, pattern_type: &str) -> (r: Result<(), PatternError>)
    ensures
        match r {
            Ok(()) => complexity_problem(pattern@, pattern_type@) is None,
            Err(e) => complexity_problem(pattern@, pattern_type@) == Some(e.message@),
        },
{
    match dangerous_form_exec(pattern) {
        Some(d) => {
            return Err(
                PatternError {
                    message: String::from_str("Pattern '").concat(pattern).concat("' for ").concat(
                        pattern_type,
                    ).concat(" contains potentially dangerous regex '").concat(d).concat(
                        "' that could cause ReDoS",
                    ),
                },
            );
        },
        None => {},
    }
    let n = pattern.len();
    if n > MAX_PATTERN_BYTES {
        let digits = decimal_string(n as u64);
        return Err(
            PatternError {
                message: String::from_str("Pattern '").concat(pattern).concat("' for ").concat(
                    pattern_type,
                ).concat(" is too long (").concat(digits.as_str()).concat(
                    " chars), maximum is 1000",
                ),
            },
        );
    }
    Ok(())
}

/// Every (pattern, use) that validation checks, in the order it checks them.
pub open spec fn entry_checks(ps: Seq<EntryPointPattern>) -> Seq<(Seq<char>, Seq<char>)> {
    ps.map_values(|p: EntryPointPattern| (p.function_pattern@, "entry point"@))
}

pub open spec fn runtime_checks(ps: Seq<RuntimeCallPattern>) -> Seq<(Seq<char>, Seq<char>)>
    decreases ps.len(),
{
    if ps.len() == 0 {
        Seq::empty()
    } else {
        let p = ps.last();
        runtime_checks(ps.drop_last()) + seq![
            (p.caller_pattern@, "runtime call caller"@),
            (p.target_pattern@, "runtime call target"@),
        ]
    }
}

pub open spec fn dispatch_checks(ps: Seq<TraitDispatchPattern>) -> Seq<(Seq<char>, Seq<char>)> {
    ps.map_values(|p: TraitDispatchPattern| (p.dispatch_method@, "trait dispatch"@))
}

pub open spec fn actor_checks(ps: Seq<ActorPattern>) -> Seq<(Seq<char>, Seq<char>)>
    decreases ps.len(),
{
    if ps.len() == 0 {
        Seq::empty()
    } else {
        actor_checks(ps.drop_last()) + views_of(ps.last().spawn_patterns@).map_values(
            |s: Seq<char>| (s, "actor spawn"@),
        )
    }
}

/// The checks of all patterns: entry points, runtime calls (caller, then
/// target), trait dispatch, actor spawns.
pub open spec fn all_checks(f: FrameworkPatterns) -> Seq<(Seq<char>, Seq<char>)> {
    entry_checks(f.entry_points@) + runtime_checks(f.runtime_calls@) + dispatch_checks(
        f.trait_dispatch@,
    ) + actor_checks(f.actor_patterns@)
}

/// The problem of the first check of `cs` that fails, if any.
pub open spec fn first_problem(cs: Seq<(Seq<char>, Seq<char>)>) -> Option<Seq<char>>
    decreases cs.len(),
{
    if cs.len() == 0 {
        None
    } else {
        match complexity_problem(cs[0].0, cs[0].1) {
            Some(m) => Some(m),
            None => first_problem(cs.drop_first()),
        }
    }
}

proof fn lemma_runtime_checks_prefix(ps: Seq<RuntimeCallPattern>, k: int)
    requires
        0 <= k <= ps.len(),
    ensures
        runtime_checks(ps.take(k)).len() <= runtime_checks(ps).len(),
        forall|j: int|
            0 <= j < runtime_checks(ps.take(k)).len() ==> runtime_checks(ps)[j]
                == #[trigger] runtime_checks(ps.take(k))[j],
    decreases ps.len(),
{
    if k == ps.len() {
        assert(ps.take(k) =~= ps);
    } else {
        lemma_runtime_checks_prefix(ps.drop_last(), k);
        assert(ps.drop_last().take(k) =~= ps.take(k));
    }
}

proof fn lemma_actor_checks_prefix(ps: Seq<ActorPattern>, k: int)
    requires
        0 <= k <= ps.len(),
    ensures
        actor_checks(ps.take(k)).len() <= actor_checks(ps).len(),
        forall|j: int|
            0 <= j < actor_checks(ps.take(k)).len() ==> actor_checks(ps)[j]
                == #[trigger] actor_checks(ps.take(k))[j],
    decreases ps.len(),
{
    if k == ps.len() {
        assert(ps.take(k) =~= ps);
    } else {
        lemma_actor_checks_prefix(ps.drop_last(), k);
        assert(ps.drop_last().take(k) =~= ps.take(k));
    }
}

proof fn lemma_checks_layout(f: FrameworkPatterns)
    ensures
        ({
            let ec = entry_checks(f.entry_points@);
            let rc = runtime_checks(f.runtime_calls@);
            let dc = dispatch_checks(f.trait_dispatch@);
            let ac = actor_checks(f.actor_patterns@);
            let cs = all_checks(f);
            &&& cs.len() == ec.len() + rc.len() + dc.len() + ac.len()
            &&& forall|x: int| 0 <= x < ec.len() ==> cs[x] == #[trigger] ec[x]
            &&& forall|x: int| 0 <= x < rc.len() ==> cs[ec.len() + x] == #[trigger] rc[x]
            &&& forall|x: int| 0 <= x < dc.len() ==> cs[ec.len() + rc.len() + x] == #[trigger] dc[x]
            &&& forall|x: int|
                0 <= x < ac.len() ==> cs[ec.len() + rc.len() + dc.len() + x] == #[trigger] ac[x]
        }),
{
    let ec = entry_checks(f.entry_points@);
    let rc = runtime_checks(f.runtime_calls@);
    let dc = dispatch_checks(f.trait_dispatch@);
    let ac = actor_checks(f.actor_patterns@);
    let cs = all_checks(f);
    assert forall|x: int| 0 <= x < rc.len() implies cs[ec.len() + x] == #[trigger] rc[x] by {
        assert((ec + rc)[ec.len() + x] == rc[x]);
        assert(((ec + rc) + dc)[ec.len() + x] == (ec + rc)[ec.len() + x]);
    }
    assert forall|x: int| 0 <= x < dc.len() implies cs[ec.len() + rc.len() + x] == #[trigger] dc[x] by {
        assert(((ec + rc) + dc)[ec.len() + rc.len() + x] == dc[x]);
    }
    assert forall|x: int| 0 <= x < ec.len() implies cs[x] == #[trigger] ec[x] by {
        assert((ec + rc)[x] == ec[x]);
        assert(((ec + rc) + dc)[x] == (ec + rc)[x]);
    }
}

/// Runs one check at position `k` of `cs`: on a problem, the first problem of
/// what is left of `cs` is its message; else what is left starts one later.
fn run_check(
    pattern: &str,
    what: &str,
    Ghost(cs): Ghost<Seq<(Seq<char>, Seq<char>)>>,
    Ghost(k): Ghost<int>,
) -> (r: Result<(), PatternError>)
    requires
        0 <= k < cs.len(),
        cs[k] == (pattern@, what@),
    ensures
        r is Ok ==> first_problem(cs.skip(k)) == first_problem(cs.skip(k + 1)),
        r matches Err(e) ==> first_problem(cs.skip(k)) == Some(e.message@),
{
    let r = validate_pattern_complexity(pattern, what);
    proof {
        assert(cs.skip(k)[0] == cs[k]);
        assert(cs.skip(k).drop_first() =~= cs.skip(k + 1));
    }
    r
}

impl FrameworkPatterns {
    /// Validates every pattern against forms that backtrack badly and against
    /// excessive length; the error is that of the first pattern that fails, in
    /// the order entry points, runtime calls (caller, then target), trait
    /// dispatch, actor spawns.
    pub fn validate_patterns(&self) -> (r: Result<(), PatternError>)
        ensures
            match r {
                Ok(()) => first_problem(all_checks(*self)) is None,
                Err(e) => first_problem(all_checks(*self)) == Some(e.message@),
            },
    {
        let ghost cs = all_checks(*self);
        let ghost ec = entry_checks(self.entry_points@);
        let ghost rc = runtime_checks(self.runtime_calls@);
        let ghost dc = dispatch_checks(self.trait_dispatch@);
        let ghost ac = actor_checks(self.actor_patterns@);
        assert(cs.skip(0) =~= cs);
        proof {
            lemma_checks_layout(*self);
        }
        let mut i: usize = 0;
        while i < self.entry_points.len()
            invariant
                i <= self.entry_points@.len(),
                cs == all_checks(*self),
                ec == entry_checks(self.entry_points@),
                rc == runtime_checks(self.runtime_calls@),
                dc == dispatch_checks(self.trait_dispatch@),
                ac == actor_checks(self.actor_patterns@),
                ec == entry_checks(self.entry_points@),
                first_problem(cs) == first_problem(cs.skip(i as int)),
            decreases self.entry_points@.len() - i,
        {
            let p = &self.entry_points[i];
            proof {
                lemma_checks_layout(*self);
                assert(cs[i as int] == ec[i as int]);
            }
            match run_check(p.function_pattern.as_str(), "entry point", Ghost(cs), Ghost(i as int)) {
                Ok(()) => {},
                Err(e) => {
                    return Err(e);
                },
            }
            i = i + 1;
        }
        let mut i: usize = 0;
        while i < self.runtime_calls.len()
            invariant
                i <= self.runtime_calls@.len(),
                cs == all_checks(*self),
                ec == entry_checks(self.entry_points@),
                rc == runtime_checks(self.runtime_calls@),
                dc == dispatch_checks(self.trait_dispatch@),
                ac == actor_checks(self.actor_patterns@),
                rc == runtime_checks(self.runtime_calls@),
                runtime_checks(self.runtime_calls@.take(i as int)).len() == 2 * i,
                first_problem(cs) == first_problem(cs.skip(ec.len() + 2 * i)),
            decreases self.runtime_calls@.len() - i,
        {
            let p = &self.runtime_calls[i];
            let ghost before = runtime_checks(self.runtime_calls@.take(i as int));
            let ghost after = runtime_checks(self.runtime_calls@.take(i + 1));
            proof {
                assert(self.runtime_calls@.take(i + 1).drop_last() =~= self.runtime_calls@.take(
                    i as int,
                ));
                assert(self.runtime_calls@.take(i + 1).last() == *p);
                lemma_runtime_checks_prefix(self.runtime_calls@, i + 1);
                lemma_checks_layout(*self);
                assert(rc[2 * i] == after[2 * i]);
                assert(rc[2 * i + 1] == after[2 * i + 1]);
                assert(cs[ec.len() + 2 * i] == rc[2 * i]);
                assert(cs[ec.len() + 2 * i + 1] == rc[2 * i + 1]);
            }
            match run_check(
                p.caller_pattern.as_str(),
                "runtime call caller",
                Ghost(cs),
                Ghost(ec.len() + 2 * i),
            ) {
                Ok(()) => {},
                Err(e) => {
                    return Err(e);
                },
            }
            match run_check(
                p.target_pattern.as_str(),
                "runtime call target",
                Ghost(cs),
                Ghost(ec.len() + 2 * i + 1),
            ) {
                Ok(()) => {},
                Err(e) => {
                    return Err(e);
                },
            }
            i = i + 1;
        }
        proof {
            assert(self.runtime_calls@.take(self.runtime_calls@.len() as int) =~= self.runtime_calls@);
        }
        let mut i: usize = 0;
        while i < self.trait_dispatch.len()
            invariant
                i <= self.trait_dispatch@.len(),
                cs == all_checks(*self),
                ec == entry_checks(self.entry_points@),
                rc == runtime_checks(self.runtime_calls@),
                dc == dispatch_checks(self.trait_dispatch@),
                ac == actor_checks(self.actor_patterns@),
                dc == dispatch_checks(self.trait_dispatch@),
                first_problem(cs) == first_problem(cs.skip(ec.len() + rc.len() + i)),
            decreases self.trait_dispatch@.len() - i,
        {
            let p = &self.trait_dispatch[i];
            proof {
                lemma_checks_layout(*self);
                assert(cs[ec.len() + rc.len() + i] == dc[i as int]);
            }
            match run_check(
                p.dispatch_method.as_str(),
                "trait dispatch",
                Ghost(cs),
                Ghost(ec.len() + rc.len() + i),
            ) {
                Ok(()) => {},
                Err(e) => {
                    return Err(e);
                },
            }
            i = i + 1;
        }
        let ghost base: int = (ec.len() + rc.len() + dc.len()) as int;
        assert(actor_checks(self.actor_patterns@.take(0)) =~= Seq::<(Seq<char>, Seq<char>)>::empty());
        let mut i: usize = 0;
        while i < self.actor_patterns.len()
            invariant
                i <= self.actor_patterns@.len(),
                cs == all_checks(*self),
                ec == entry_checks(self.entry_points@),
                rc == runtime_checks(self.runtime_calls@),
                dc == dispatch_checks(self.trait_dispatch@),
                ac == actor_checks(self.actor_patterns@),
                base == ec.len() + rc.len() + dc.len(),
                ac == actor_checks(self.actor_patterns@),
                first_problem(cs) == first_problem(
                    cs.skip(base + actor_checks(self.actor_patterns@.take(i as int)).len()),
                ),
            decreases self.actor_patterns@.len() - i,
        {
            let p = &self.actor_patterns[i];
            let ghost before = actor_checks(self.actor_patterns@.take(i as int));
            let ghost after = actor_checks(self.actor_patterns@.take(i + 1));
            let ghost sp = views_of(p.spawn_patterns@).map_values(
                |s: Seq<char>| (s, "actor spawn"@),
            );
            proof {
                assert(self.actor_patterns@.take(i + 1).drop_last() =~= self.actor_patterns@.take(
                    i as int,
                ));
                assert(self.actor_patterns@.take(i + 1).last() == *p);
                assert(after == before + sp);
                lemma_actor_checks_prefix(self.actor_patterns@, i + 1);
            }
            let mut j: usize = 0;
            while j < p.spawn_patterns.len()
                invariant
                    j <= p.spawn_patterns@.len(),
                    cs == all_checks(*self),
                    ec == entry_checks(self.entry_points@),
                    rc == runtime_checks(self.runtime_calls@),
                    dc == dispatch_checks(self.trait_dispatch@),
                    ac == actor_checks(self.actor_patterns@),
                ec == entry_checks(self.entry_points@),
                rc == runtime_checks(self.runtime_calls@),
                dc == dispatch_checks(self.trait_dispatch@),
                ac == actor_checks(self.actor_patterns@),
                    base == ec.len() + rc.len() + dc.len(),
                    ac == actor_checks(self.actor_patterns@),
                    sp == views_of(p.spawn_patterns@).map_values(|s: Seq<char>| (s, "actor spawn"@)),
                    after == before + sp,
                    after.len() <= ac.len(),
                    forall|x: int| 0 <= x < after.len() ==> ac[x] == #[trigger] after[x],
                    first_problem(cs) == first_problem(cs.skip(base + before.len() + j)),
                decreases p.spawn_patterns@.len() - j,
            {
                proof {
                    assert(sp[j as int] == (p.spawn_patterns@[j as int]@, "actor spawn"@));
                    assert(after[before.len() + j] == sp[j as int]);
                    lemma_checks_layout(*self);
                    assert(cs[base + before.len() + j] == ac[before.len() + j]);
                }
                match run_check(
                    p.spawn_patterns[j].as_str(),
                    "actor spawn",
                    Ghost(cs),
                    Ghost(base + before.len() + j),
                ) {
                    Ok(()) => {},
                    Err(e) => {
                        return Err(e);
                    },
                }
                j = j + 1;
            }
            i = i + 1;
        }
        proof {
            assert(self.actor_patterns@.take(self.actor_patterns@.len() as int) =~= self.actor_patterns@);
            assert(cs.skip(cs.len() as int).len() == 0);
        }
        Ok(())
    }
}

/// Whether the compiled expression stored under `key` matches `code`.
pub open spec fn table_match(t: NameTable<CompiledRegex>, key: Seq<char>, code: Seq<char>) -> bool {
    table_patterns(t).contains_key(key) && regex_matches(table_patterns(t)[key], code)
}

/// The entry points whose compiled expression matches `code`, in order.
pub open spec fn matching_entry_points(
    ps: Seq<EntryPointPattern>,
    c: Option<CompiledPatterns>,
    code: Seq<char>,
) -> Seq<EntryPointPattern>
    decreases ps.len(),
{
    if ps.len() == 0 {
        Seq::empty()
    } else {
        let rest = matching_entry_points(ps.drop_last(), c, code);
        match c {
            Some(cp) => if table_match(cp.entry_point_regexes, ps.last().name@, code) {
                rest.push(ps.last())
            } else {
                rest
            },
            None => rest,
        }
    }
}

/// The runtime calls whose compiled caller expression matches `code`, in order.
pub open spec fn matching_runtime_calls(
    ps: Seq<RuntimeCallPattern>,
    c: Option<CompiledPatterns>,
    code: Seq<char>,
) -> Seq<RuntimeCallPattern>
    decreases ps.len(),
{
    if ps.len() == 0 {
        Seq::empty()
    } else {
        let rest = matching_runtime_calls(ps.drop_last(), c, code);
        match c {
            Some(cp) => if table_match(
                cp.runtime_call_regexes,
                ps.last().name@ + "_caller"@,
                code,
            ) {
                rest.push(ps.last())
            } else {
                rest
            },
            None => rest,
        }
    }
}

/// The trait-dispatch patterns whose compiled expression matches `code`.
pub open spec fn matching_dispatches(
    ps: Seq<TraitDispatchPattern>,
    c: Option<CompiledPatterns>,
    code: Seq<char>,
) -> Seq<TraitDispatchPattern>
    decreases ps.len(),
{
    if ps.len() == 0 {
        Seq::empty()
    } else {
        let rest = matching_dispatches(ps.drop_last(), c, code);
        match c {
            Some(cp) => if table_match(cp.trait_dispatch_regexes, ps.last().name@, code) {
                rest.push(ps.last())
            } else {
                rest
            },
            None => rest,
        }
    }
}

/// The actor patterns that have a spawn expression and whose compiled spawn
/// expression matches `code`, each once.
pub open spec fn matching_actors(ps: Seq<ActorPattern>, c: Option<CompiledPatterns>, code: Seq<char>) -> Seq<
    ActorPattern,
>
    decreases ps.len(),
{
    if ps.len() == 0 {
        Seq::empty()
    } else {
        let rest = matching_actors(ps.drop_last(), c, code);
        match c {
            Some(cp) => if ps.last().spawn_patterns@.len() > 0 && table_match(
                cp.actor_regexes,
                ps.last().name@ + "_spawn"@,
                code,
            ) {
                rest.push(ps.last())
            } else {
                rest
            },
            None => rest,
        }
    }
}

fn table_match_exec(t: &NameTable<CompiledRegex>, key: &str, code: &str) -> (b: bool)
    ensures
        b == table_match(*t, key@, code@),
{
    match t.get(key) {
        Some(re) => regex_is_match(re, code),
        None => false,
    }
}

impl FrameworkPatterns {
    /// Find matching entry points in code
    pub fn find_entry_points(&self, code: &str) -> (r: Vec<&EntryPointPattern>)
        ensures
            r@.map_values(|p: &EntryPointPattern| *p) == matching_entry_points(
                self.entry_points@,
                self.compiled_patterns,
                code@,
            ),
    {
        let mut r: Vec<&EntryPointPattern> = Vec::new();
        let mut i: usize = 0;
        while i < self.entry_points.len()
            invariant
                i <= self.entry_points@.len(),
                r@.map_values(|p: &EntryPointPattern| *p) == matching_entry_points(
                    self.entry_points@.take(i as int),
                    self.compiled_patterns,
                    code@,
                ),
            decreases self.entry_points@.len() - i,
        {
            let p = &self.entry_points[i];
            proof {
                assert(self.entry_points@.take(i + 1).drop_last() =~= self.entry_points@.take(
                    i as int,
                ));
            }
            match &self.compiled_patterns {
                Some(compiled) => {
                    if table_match_exec(&compiled.entry_point_regexes, p.name.as_str(), code) {
                        r.push(p);
                    }
                },
                None => {},
            }
            proof {
                assert(r@.map_values(|p: &EntryPointPattern| *p) =~= matching_entry_points(
                    self.entry_points@.take(i + 1),
                    self.compiled_patterns,
                    code@,
                ));
            }
            i = i + 1;
        }
        assert(self.entry_points@.take(self.entry_points@.len() as int) =~= self.entry_points@);
        r
    }

    /// Find matching runtime calls in code
    pub fn find_runtime_calls(&self, code: &str) -> (r: Vec<&RuntimeCallPattern>)
        ensures
            r@.map_values(|p: &RuntimeCallPattern| *p) == matching_runtime_calls(
                self.runtime_calls@,
                self.compiled_patterns,
                code@,
            ),
    {
        let mut r: Vec<&RuntimeCallPattern> = Vec::new();
        let mut i: usize = 0;
        while i < self.runtime_calls.len()
            invariant
                i <= self.runtime_calls@.len(),
                r@.map_values(|p: &RuntimeCallPattern| *p) == matching_runtime_calls(
                    self.runtime_calls@.take(i as int),
                    self.compiled_patterns,
                    code@,
                ),
            decreases self.runtime_calls@.len() - i,
        {
            let p = &self.runtime_calls[i];
            proof {
                assert(self.runtime_calls@.take(i + 1).drop_last() =~= self.runtime_calls@.take(
                    i as int,
                ));
            }
            match &self.compiled_patterns {
                Some(compiled) => {
                    let key = with_suffix(&p.name, "_caller");
                    if table_match_exec(&compiled.runtime_call_regexes, key.as_str(), code) {
                        r.push(p);
                    }
                },
                None => {},
            }
            proof {
                assert(r@.map_values(|p: &RuntimeCallPattern| *p) =~= matching_runtime_calls(
                    self.runtime_calls@.take(i + 1),
                    self.compiled_patterns,
                    code@,
                ));
            }
            i = i + 1;
        }
        assert(self.runtime_calls@.take(self.runtime_calls@.len() as int) =~= self.runtime_calls@);
        r
    }

    /// Find matching trait dispatch patterns in code
    pub fn find_trait_dispatches(&self, code: &str) -> (r: Vec<&TraitDispatchPattern>)
        ensures
            r@.map_values(|p: &TraitDispatchPattern| *p) == matching_dispatches(
                self.trait_dispatch@,
                self.compiled_patterns,
                code@,
            ),
    {
        let mut r: Vec<&TraitDispatchPattern> = Vec::new();
        let mut i: usize = 0;
        while i < self.trait_dispatch.len()
            invariant
                i <= self.trait_dispatch@.len(),
                r@.map_values(|p: &TraitDispatchPattern| *p) == matching_dispatches(
                    self.trait_dispatch@.take(i as int),
                    self.compiled_patterns,
                    code@,
                ),
            decreases self.trait_dispatch@.len() - i,
        {
            let p = &self.trait_dispatch[i];
            proof {
                assert(self.trait_dispatch@.take(i + 1).drop_last() =~= self.trait_dispatch@.take(
                    i as int,
                ));
            }
            match &self.compiled_patterns {
                Some(compiled) => {
                    if table_match_exec(&compiled.trait_dispatch_regexes, p.name.as_str(), code) {
                        r.push(p);
                    }
                },
                None => {},
            }
            proof {
                assert(r@.map_values(|p: &TraitDispatchPattern| *p) =~= matching_dispatches(
                    self.trait_dispatch@.take(i + 1),
                    self.compiled_patterns,
                    code@,
                ));
            }
            i = i + 1;
        }
        assert(self.trait_dispatch@.take(self.trait_dispatch@.len() as int) =~= self.trait_dispatch@);
        r
    }

    /// Find matching actor patterns in code
    pub fn find_actor_patterns(&self, code: &str) -> (r: Vec<&ActorPattern>)
        ensures
            r@.map_values(|p: &ActorPattern| *p) == matching_actors(
                self.actor_patterns@,
                self.compiled_patterns,
                code@,
            ),
    {
        let mut r: Vec<&ActorPattern> = Vec::new();
        let mut i: usize = 0;
        while i < self.actor_patterns.len()
            invariant
                i <= self.actor_patterns@.len(),
                r@.map_values(|p: &ActorPattern| *p) == matching_actors(
                    self.actor_patterns@.take(i as int),
                    self.compiled_patterns,
                    code@,
                ),
            decreases self.actor_patterns@.len() - i,
        {
            let p = &self.actor_patterns[i];
            proof {
                assert(self.actor_patterns@.take(i + 1).drop_last() =~= self.actor_patterns@.take(
                    i as int,
                ));
            }
            match &self.compiled_patterns {
                Some(compiled) => {
                    if p.spawn_patterns.len() > 0 {
                        let key = with_suffix(&p.name, "_spawn");
                        if table_match_exec(&compiled.actor_regexes, key.as_str(), code) {
                            r.push(p);
                        }
                    }
                },
                None => {},
            }
            proof {
                assert(r@.map_values(|p: &ActorPattern| *p) =~= matching_actors(
                    self.actor_patterns@.take(i + 1),
                    self.compiled_patterns,
                    code@,
                ));
            }
            i = i + 1;
        }
        assert(self.actor_patterns@.take(self.actor_patterns@.len() as int) =~= self.actor_patterns@);
        r
    }

    /// Get statistics about the patterns
    pub fn stats(&self) -> (st: PatternStats)
        ensures
            st.entry_points == self.entry_points@.len(),
            st.runtime_calls == self.runtime_calls@.len(),
            st.trait_dispatches == self.trait_dispatch@.len(),
            st.actor_patterns == self.actor_patterns@.len(),
            st.compiled == self.compiled_patterns is Some,
    {
        PatternStats {
            entry_points: self.entry_points.len(),
            runtime_calls: self.runtime_calls.len(),
            trait_dispatches: self.trait_dispatch.len(),
            actor_patterns: self.actor_patterns.len(),
            compiled: self.compiled_patterns.is_some(),
        }
    }
}

/// The entry-point pattern has exactly these fields.
pub open spec fn entry_point_is(
    p: EntryPointPattern,
    name: Seq<char>,
    description: Seq<char>,
    framework: Seq<char>,
    pattern_type: EntryPointType,
    function_pattern: Seq<char>,
    triggers_methods: Seq<Seq<char>>,
    context_conditions: Seq<Seq<char>>,
) -> bool {
    &&& p.name@ == name
    &&& p.description@ == description
    &&& p.framework@ == framework
    &&& p.pattern_type == pattern_type
    &&& p.function_pattern@ == function_pattern
    &&& views_of(p.triggers_methods@) == triggers_methods
    &&& views_of(p.context_conditions@) == context_conditions
}

/// The runtime-call pattern has exactly these fields.
pub open spec fn runtime_call_is(
    p: RuntimeCallPattern,
    name: Seq<char>,
    description: Seq<char>,
    framework: Seq<char>,
    pattern_type: RuntimeCallType,
    caller_pattern: Seq<char>,
    target_pattern: Seq<char>,
    method_patterns: Seq<Seq<char>>,
    conditions: Seq<Seq<char>>,
) -> bool {
    &&& p.name@ == name
    &&& p.description@ == description
    &&& p.framework@ == framework
    &&& p.pattern_type == pattern_type
    &&& p.caller_pattern@ == caller_pattern
    &&& p.target_pattern@ == target_pattern
    &&& views_of(p.method_patterns@) == method_patterns
    &&& views_of(p.conditions@) == conditions
}

/// The trait-dispatch pattern has exactly these fields.
pub open spec fn dispatch_is(
    p: TraitDispatchPattern,
    name: Seq<char>,
    description: Seq<char>,
    framework: Seq<char>,
    trait_name: Seq<char>,
    dispatch_method: Seq<char>,
    target_methods: Seq<Seq<char>>,
    dispatch_conditions: Seq<Seq<char>>,
) -> bool {
    &&& p.name@ == name
    &&& p.description@ == description
    &&& p.framework@ == framework
    &&& p.trait_name@ == trait_name
    &&& p.dispatch_method@ == dispatch_method
    &&& views_of(p.target_methods@) == target_methods
    &&& views_of(p.dispatch_conditions@) == dispatch_conditions
}

/// The actor pattern has exactly these fields.
pub open spec fn actor_is(
    p: ActorPattern,
    name: Seq<char>,
    description: Seq<char>,
    framework: Seq<char>,
    actor_trait: Seq<char>,
    lifecycle_methods: Seq<Seq<char>>,
    message_handlers: Seq<Seq<char>>,
    spawn_patterns: Seq<Seq<char>>,
) -> bool {
    &&& p.name@ == name
    &&& p.description@ == description
    &&& p.framework@ == framework
    &&& p.actor_trait@ == actor_trait
    &&& views_of(p.lifecycle_methods@) == lifecycle_methods
    &&& views_of(p.message_handlers@) == message_handlers
    &&& views_of(p.spawn_patterns@) == spawn_patterns
}

/// The default `tokio_spawn` pattern.
pub open spec fn tokio_spawn_call(p: RuntimeCallPattern) -> bool {
    runtime_call_is(
        p,
        "tokio_spawn"@,
        "Tokio task spawning"@,
        "tokio"@,
        RuntimeCallType::AsyncTaskSpawn,
        "tokio::spawn|spawn"@,
        "async\\s+move\\s*\\{|async\\s+\\|"@,
        seq![".*"@],
        seq!["use tokio"@, "tokio::"@],
    )
}

/// The default `tokio_main` pattern.
pub open spec fn tokio_main_entry(p: EntryPointPattern) -> bool {
    entry_point_is(
        p,
        "tokio_main"@,
        "Tokio main function"@,
        "tokio"@,
        EntryPointType::Main,
        "#\\[tokio::main\\]"@,
        seq!["main"@],
        seq!["tokio"@],
    )
}

/// The default `tokio_select` pattern.
pub open spec fn tokio_select_call(p: RuntimeCallPattern) -> bool {
    runtime_call_is(
        p,
        "tokio_select"@,
        "Tokio select! macro"@,
        "tokio"@,
        RuntimeCallType::EventHandler,
        "tokio::select!|select!"@,
        "=>"@,
        seq![".*"@],
        seq!["tokio"@],
    )
}

/// The default `actix_actor_start` pattern.
pub open spec fn actix_actor_start_entry(p: EntryPointPattern) -> bool {
    entry_point_is(
        p,
        "actix_actor_start"@,
        "Actix Actor start method"@,
        "actix-web"@,
        EntryPointType::ActorSpawn,
        "\\.start\\(\\)"@,
        seq!["started"@, "stopping"@, "stopped"@],
        seq!["actix"@, "Actor"@],
    )
}

/// The default `actix_actor_trait` pattern.
pub open spec fn actix_actor_trait_dispatch(p: TraitDispatchPattern) -> bool {
    dispatch_is(
        p,
        "actix_actor_trait"@,
        "Actix Actor trait methods"@,
        "actix-web"@,
        "Actor"@,
        "started|stopping|stopped"@,
        seq!["started"@, "stopping"@, "stopped"@],
        seq!["impl.*Actor"@],
    )
}

/// The default `actix_handler_trait` pattern.
pub open spec fn actix_handler_trait_dispatch(p: TraitDispatchPattern) -> bool {
    dispatch_is(
        p,
        "actix_handler_trait"@,
        "Actix Handler trait methods"@,
        "actix-web"@,
        "Handler"@,
        "handle"@,
        seq!["handle"@],
        seq!["impl.*Handler"@],
    )
}

/// The default `actix_actor` pattern.
pub open spec fn actix_actor_system(p: ActorPattern) -> bool {
    actor_is(
        p,
        "actix_actor"@,
        "Actix Actor system"@,
        "actix-web"@,
        "Actor"@,
        seq!["started"@, "stopping"@, "stopped"@],
        seq!["handle"@],
        seq!["\\.start\\(\\)"@],
    )
}

/// The default `async_std_spawn` pattern.
pub open spec fn async_std_spawn_call(p: RuntimeCallPattern) -> bool {
    runtime_call_is(
        p,
        "async_std_spawn"@,
        "async-std task spawning"@,
        "async-std"@,
        RuntimeCallType::AsyncTaskSpawn,
        "async_std::task::spawn|task::spawn"@,
        "async\\s+move\\s*\\{|async\\s+\\|"@,
        seq![".*"@],
        seq!["async_std"@],
    )
}

/// The default `websocket_actor` pattern.
pub open spec fn websocket_actor_dispatch(p: TraitDispatchPattern) -> bool {
    dispatch_is(
        p,
        "websocket_actor"@,
        "WebSocket actor trait methods"@,
        "websocket"@,
        "WebSocketActor"@,
        "event_stream|handle_message"@,
        seq!["event_stream"@, "handle_message"@],
        seq!["impl.*WebSocketActor"@],
    )
}

/// The default `websocket_actor` pattern.
pub open spec fn websocket_actor_system(p: ActorPattern) -> bool {
    actor_is(
        p,
        "websocket_actor"@,
        "WebSocket actor system"@,
        "websocket"@,
        "WebSocketActor"@,
        Seq::empty(),
        seq!["event_stream"@, "handle_message"@],
        Seq::empty(),
    )
}

fn strings1(a: &str) -> (v: Vec<String>)
    ensures
        views_of(v@) == seq![a@],
{
    let v = vec![String::from_str(a)];
    assert(views_of(v@) =~= seq![a@]);
    v
}

fn strings2(a: &str, b: &str) -> (v: Vec<String>)
    ensures
        views_of(v@) == seq![a@, b@],
{
    let v = vec![String::from_str(a), String::from_str(b)];
    assert(views_of(v@) =~= seq![a@, b@]);
    v
}

fn strings3(a: &str, b: &str, c: &str) -> (v: Vec<String>)
    ensures
        views_of(v@) == seq![a@, b@, c@],
{
    let v = vec![String::from_str(a), String::from_str(b), String::from_str(c)];
    assert(views_of(v@) =~= seq![a@, b@, c@]);
    v
}

/// The patterns are those of `old` with `new_runtime` runtime calls, `new_entry`
/// entry points, `new_dispatch` trait-dispatch and `new_actor` actor patterns
/// appended, and the compiled expressions untouched.
pub open spec fn appended(
    new: FrameworkPatterns,
    old: FrameworkPatterns,
    new_entry: int,
    new_runtime: int,
    new_dispatch: int,
    new_actor: int,
) -> bool {
    &&& new.entry_points@.len() == old.entry_points@.len() + new_entry
    &&& new.entry_points@.take(old.entry_points@.len() as int) == old.entry_points@
    &&& new.runtime_calls@.len() == old.runtime_calls@.len() + new_runtime
    &&& new.runtime_calls@.take(old.runtime_calls@.len() as int) == old.runtime_calls@
    &&& new.trait_dispatch@.len() == old.trait_dispatch@.len() + new_dispatch
    &&& new.trait_dispatch@.take(old.trait_dispatch@.len() as int) == old.trait_dispatch@
    &&& new.actor_patterns@.len() == old.actor_patterns@.len() + new_actor
    &&& new.actor_patterns@.take(old.actor_patterns@.len() as int) == old.actor_patterns@
    &&& new.compiled_patterns == old.compiled_patterns
}

impl FrameworkPatterns {
    /// Add Tokio framework patterns: task spawning and `select!` as runtime
    /// calls, and the `#[tokio::main]` entry point.
    pub fn add_tokio_patterns(&mut self)
        ensures
            appended(*final(self), *old(self), 1, 2, 0, 0),
            tokio_spawn_call(final(self).runtime_calls@[old(self).runtime_calls@.len() as int]),
            tokio_main_entry(final(self).entry_points@[old(self).entry_points@.len() as int]),
            tokio_select_call(final(self).runtime_calls@[old(self).runtime_calls@.len() + 1int]),
    {
        let ghost o = *self;
        self.runtime_calls.push(
            RuntimeCallPattern {
                name: String::from_str("tokio_spawn"),
                description: String::from_str("Tokio task spawning"),
                framework: String::from_str("tokio"),
                pattern_type: RuntimeCallType::AsyncTaskSpawn,
                caller_pattern: String::from_str("tokio::spawn|spawn"),
                target_pattern: String::from_str("async\\s+move\\s*\\{|async\\s+\\|"),
                method_patterns: strings1(".*"),
                conditions: strings2("use tokio", "tokio::"),
            },
        );
        self.entry_points.push(
            EntryPointPattern {
                name: String::from_str("tokio_main"),
                description: String::from_str("Tokio main function"),
                framework: String::from_str("tokio"),
                pattern_type: EntryPointType::Main,
                function_pattern: String::from_str("#\\[tokio::main\\]"),
                triggers_methods: strings1("main"),
                context_conditions: strings1("tokio"),
            },
        );
        self.runtime_calls.push(
            RuntimeCallPattern {
                name: String::from_str("tokio_select"),
                description: String::from_str("Tokio select! macro"),
                framework: String::from_str("tokio"),
                pattern_type: RuntimeCallType::EventHandler,
                caller_pattern: String::from_str("tokio::select!|select!"),
                target_pattern: String::from_str("=>"),
                method_patterns: strings1(".*"),
                conditions: strings1("tokio"),
            },
        );
        proof {
            assert(self.runtime_calls@.take(o.runtime_calls@.len() as int) =~= o.runtime_calls@);
            assert(self.entry_points@.take(o.entry_points@.len() as int) =~= o.entry_points@);
            assert(self.trait_dispatch@.take(o.trait_dispatch@.len() as int) =~= o.trait_dispatch@);
            assert(self.actor_patterns@.take(o.actor_patterns@.len() as int) =~= o.actor_patterns@);
        }
    }

    /// Add Actix-Web framework patterns: the actor `start` entry point, the
    /// `Actor` and `Handler` trait dispatch, and the actor system.
    pub fn add_actix_web_patterns(&mut self)
        ensures
            appended(*final(self), *old(self), 1, 0, 2, 1),
            actix_actor_start_entry(final(self).entry_points@[old(self).entry_points@.len() as int]),
            actix_actor_trait_dispatch(final(self).trait_dispatch@[old(self).trait_dispatch@.len() as int]),
            actix_handler_trait_dispatch(final(self).trait_dispatch@[old(self).trait_dispatch@.len() + 1int]),
            actix_actor_system(final(self).actor_patterns@[old(self).actor_patterns@.len() as int]),
    {
        let ghost o = *self;
        self.entry_points.push(
            EntryPointPattern {
                name: String::from_str("actix_actor_start"),
                description: String::from_str("Actix Actor start method"),
                framework: String::from_str("actix-web"),
                pattern_type: EntryPointType::ActorSpawn,
                function_pattern: String::from_str("\\.start\\(\\)"),
                triggers_methods: strings3("started", "stopping", "stopped"),
                context_conditions: strings2("actix", "Actor"),
            },
        );
        self.trait_dispatch.push(
            TraitDispatchPattern {
                name: String::from_str("actix_actor_trait"),
                description: String::from_str("Actix Actor trait methods"),
                framework: String::from_str("actix-web"),
                trait_name: String::from_str("Actor"),
                dispatch_method: String::from_str("started|stopping|stopped"),
                target_methods: strings3("started", "stopping", "stopped"),
                dispatch_conditions: strings1("impl.*Actor"),
            },
        );
        self.trait_dispatch.push(
            TraitDispatchPattern {
                name: String::from_str("actix_handler_trait"),
                description: String::from_str("Actix Handler trait methods"),
                framework: String::from_str("actix-web"),
                trait_name: String::from_str("Handler"),
                dispatch_method: String::from_str("handle"),
                target_methods: strings1("handle"),
                dispatch_conditions: strings1("impl.*Handler"),
            },
        );
        self.actor_patterns.push(
            ActorPattern {
                name: String::from_str("actix_actor"),
                description: String::from_str("Actix Actor system"),
                framework: String::from_str("actix-web"),
                actor_trait: String::from_str("Actor"),
                lifecycle_methods: strings3("started", "stopping", "stopped"),
                message_handlers: strings1("handle"),
                spawn_patterns: strings1("\\.start\\(\\)"),
            },
        );
        proof {
            assert(self.runtime_calls@.take(o.runtime_calls@.len() as int) =~= o.runtime_calls@);
            assert(self.entry_points@.take(o.entry_points@.len() as int) =~= o.entry_points@);
            assert(self.trait_dispatch@.take(o.trait_dispatch@.len() as int) =~= o.trait_dispatch@);
            assert(self.actor_patterns@.take(o.actor_patterns@.len() as int) =~= o.actor_patterns@);
        }
    }

    /// Add async-std framework patterns: task spawning.
    pub fn add_async_std_patterns(&mut self)
        ensures
            appended(*final(self), *old(self), 0, 1, 0, 0),
            async_std_spawn_call(final(self).runtime_calls@[old(self).runtime_calls@.len() as int]),
    {
        let ghost o = *self;
        self.runtime_calls.push(
            RuntimeCallPattern {
                name: String::from_str("async_std_spawn"),
                description: String::from_str("async-std task spawning"),
                framework: String::from_str("async-std"),
                pattern_type: RuntimeCallType::AsyncTaskSpawn,
                caller_pattern: String::from_str("async_std::task::spawn|task::spawn"),
                target_pattern: String::from_str("async\\s+move\\s*\\{|async\\s+\\|"),
                method_patterns: strings1(".*"),
                conditions: strings1("async_std"),
            },
        );
        proof {
            assert(self.runtime_calls@.take(o.runtime_calls@.len() as int) =~= o.runtime_calls@);
            assert(self.entry_points@.take(o.entry_points@.len() as int) =~= o.entry_points@);
            assert(self.trait_dispatch@.take(o.trait_dispatch@.len() as int) =~= o.trait_dispatch@);
            assert(self.actor_patterns@.take(o.actor_patterns@.len() as int) =~= o.actor_patterns@);
        }
    }

    /// Add WebSocket framework patterns: the `WebSocketActor` trait dispatch and
    /// actor system.
    pub fn add_websocket_patterns(&mut self)
        ensures
            appended(*final(self), *old(self), 0, 0, 1, 1),
            websocket_actor_dispatch(final(self).trait_dispatch@[old(self).trait_dispatch@.len() as int]),
            websocket_actor_system(final(self).actor_patterns@[old(self).actor_patterns@.len() as int]),
    {
        let ghost o = *self;
        self.trait_dispatch.push(
            TraitDispatchPattern {
                name: String::from_str("websocket_actor"),
                description: String::from_str("WebSocket actor trait methods"),
                framework: String::from_str("websocket"),
                trait_name: String::from_str("WebSocketActor"),
                dispatch_method: String::from_str("event_stream|handle_message"),
                target_methods: strings2("event_stream", "handle_message"),
                dispatch_conditions: strings1("impl.*WebSocketActor"),
            },
        );
        self.actor_patterns.push(
            ActorPattern {
                name: String::from_str("websocket_actor"),
                description: String::from_str("WebSocket actor system"),
                framework: String::from_str("websocket"),
                actor_trait: String::from_str("WebSocketActor"),
                lifecycle_methods: Vec::new(),
                message_handlers: strings2("event_stream", "handle_message"),
                spawn_patterns: Vec::new(),
            },
        );
        proof {
            assert(views_of(Seq::<String>::empty()) =~= Seq::<Seq<char>>::empty());
            assert(self.runtime_calls@.take(o.runtime_calls@.len() as int) =~= o.runtime_calls@);
            assert(self.entry_points@.take(o.entry_points@.len() as int) =~= o.entry_points@);
            assert(self.trait_dispatch@.take(o.trait_dispatch@.len() as int) =~= o.trait_dispatch@);
            assert(self.actor_patterns@.take(o.actor_patterns@.len() as int) =~= o.actor_patterns@);
        }
    }
}

/// The pattern lists of `with_default_patterns`: Tokio, Actix-Web, async-std
/// and WebSocket, in that order.
pub open spec fn default_pattern_lists(f: FrameworkPatterns) -> bool {
    &&& f.entry_points@.len() == 2
    &&& tokio_main_entry(f.entry_points@[0])
    &&& actix_actor_start_entry(f.entry_points@[1])
    &&& f.runtime_calls@.len() == 3
    &&& tokio_spawn_call(f.runtime_calls@[0])
    &&& tokio_select_call(f.runtime_calls@[1])
    &&& async_std_spawn_call(f.runtime_calls@[2])
    &&& f.trait_dispatch@.len() == 3
    &&& actix_actor_trait_dispatch(f.trait_dispatch@[0])
    &&& actix_handler_trait_dispatch(f.trait_dispatch@[1])
    &&& websocket_actor_dispatch(f.trait_dispatch@[2])
    &&& f.actor_patterns@.len() == 2
    &&& actix_actor_system(f.actor_patterns@[0])
    &&& websocket_actor_system(f.actor_patterns@[1])
}

impl FrameworkPatterns {
    /// Create patterns with default frameworks (tokio, actix-web, async-std,
    /// websocket), compiled when all their expressions compile.
    pub fn with_default_patterns() -> (f: Self)
        ensures
            default_pattern_lists(f),
            f.compiled_patterns is Some <==> patterns_compile(f),
            f.compiled_patterns matches Some(c) ==> compiled_from(c, f),
    {
        let mut patterns = Self::new();
        patterns.add_tokio_patterns();
        patterns.add_actix_web_patterns();
        patterns.add_async_std_patterns();
        patterns.add_websocket_patterns();
        let _ = patterns.compile_patterns();
        patterns
    }
}

impl Default for FrameworkPatterns {
    fn default() -> (f: Self)
        ensures
            default_pattern_lists(f),
            f.compiled_patterns is Some <==> patterns_compile(f),
            f.compiled_patterns matches Some(c) ==> compiled_from(c, f),
    {
        Self::with_default_patterns()
    }
}

} // verus!
