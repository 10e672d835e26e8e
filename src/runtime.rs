//! The execution engine: a single-slot cache of the compiled program keyed by
//! the exact source text, and the diagnostic shape shared by compile-time
//! and run-time failures.
use vstd::prelude::*;
use crate::dsl::{
    clock_elapsed, clock_start, compile_program, compiles, copy_diagnostics, diagnostic_messages,
    format_colored, format_plain, messages_of, parse_timezone, resolve_program,
    termination_diagnostics, termination_message, termination_text, compiled_of, compile_errors,
    spans_fit, rendering, colored_rendering, error_list_of,
};

verus! {

/// A failure report: the messages, and the source rendered with them as
/// plain and as colored text.
#[derive(Clone, Debug)]
pub struct VRLDiagnostic {
    pub messages: Vec<String>,
    pub formatted_message: String,
    pub colored_message: String,
}

impl VRLDiagnostic {
    /// The plain rendering, for display.
    pub fn message(&self) -> (r: String)
        ensures
            r@ == self.formatted_message@,
    {
        self.formatted_message.clone()
    }
}

/// The outcome of a successful execution: the record after the program ran,
/// the value of the program's last expression, and the time the evaluator
/// took.
pub struct VRLResult {
    pub processed_event: vrl::value::Value,
    pub runtime_result: vrl::value::Value,
    pub elapsed: core::time::Duration,
}

/// Why an operation of the engine failed.
#[derive(Clone, Debug)]
pub enum VRLError {
    /// The time zone given at construction is not known.
    InvalidTimezone(String),
    /// The source does not compile.
    Compile(VRLDiagnostic),
    /// The evaluator terminated the program.
    Runtime(VRLDiagnostic),
    /// Execution was reached with no compiled program.
    ProgramNotCompiled,
}

/// The messages of a diagnostic, as text.
pub open spec fn message_texts(messages: Seq<String>) -> Seq<Seq<char>> {
    messages.map_values(|m: String| m@)
}

/// A diagnostic reports a failure: it has a message, and both renderings
/// have text.
pub open spec fn reports_failure(d: VRLDiagnostic) -> bool {
    &&& d.messages@.len() > 0
    &&& d.formatted_message@.len() > 0
    &&& d.colored_message@.len() > 0
}

/// Builds the diagnostic of a failed compilation of `source`: the
/// diagnostics' messages in order, and `source` rendered with them as plain
/// and as colored text.
pub(crate) fn create_diagnostic(source: &str, diagnostics: vrl::diagnostic::DiagnosticList) -> (r:
    VRLDiagnostic)
    requires
        spans_fit(source@, diagnostics),
    ensures
        message_texts(r.messages@) == messages_of(diagnostics),
        r.formatted_message@ == rendering(source@, diagnostics),
        r.colored_message@ == colored_rendering(source@, diagnostics),
        messages_of(diagnostics).len() > 0 ==> reports_failure(r),
{
    let messages = diagnostic_messages(&diagnostics);
    let formatted = format_plain(source, copy_diagnostics(&diagnostics));
    let colored = format_colored(source, diagnostics);
    assert(message_texts(messages@) =~= messages_of(diagnostics));
    VRLDiagnostic { messages, formatted_message: formatted, colored_message: colored }
}

/// Builds the diagnostic of a run of `source` that the evaluator terminated:
/// one message, the termination's own text, and `source` rendered with the
/// termination's expression error.
pub(crate) fn create_runtime_diagnostic(
    source: &str,
    terminate: vrl::compiler::runtime::Terminate,
) -> (r: VRLDiagnostic)
    requires
        spans_fit(source@, error_list_of(terminate)),
    ensures
        runtime_report(source@, terminate, r),
        r.messages@.len() == 1,
        reports_failure(r),
{
    let message = termination_message(&terminate);
    let error = termination_diagnostics(terminate);
    let formatted = format_plain(source, copy_diagnostics(&error));
    let colored = format_colored(source, error);
    let mut messages: Vec<String> = Vec::new();
    messages.push(message);
    assert(message_texts(messages@) =~= seq![termination_text(terminate)]);
    VRLDiagnostic { messages, formatted_message: formatted, colored_message: colored }
}

/// The diagnostic of a failed compilation of `source`: the compiler's
/// messages, and the source rendered with its errors, plain and colored.
pub open spec fn compile_report(source: Seq<char>, d: VRLDiagnostic) -> bool {
    &&& message_texts(d.messages@) == messages_of(compile_errors(source))
    &&& d.formatted_message@ == rendering(source, compile_errors(source))
    &&& d.colored_message@ == colored_rendering(source, compile_errors(source))
    &&& reports_failure(d)
}

/// The diagnostic of a run of `source` that ended in the termination `t`:
/// the termination's text as the one message, and the source rendered with
/// its expression error, plain and colored.
pub open spec fn runtime_report(
    source: Seq<char>,
    t: vrl::compiler::runtime::Terminate,
    d: VRLDiagnostic,
) -> bool {
    &&& message_texts(d.messages@) == seq![termination_text(t)]
    &&& d.messages@.len() == 1
    &&& d.formatted_message@ == rendering(source, error_list_of(t))
    &&& d.colored_message@ == colored_rendering(source, error_list_of(t))
    &&& reports_failure(d)
}

/// A call of the evaluator: the program, the event, the time zone, and what
/// it returned.
pub type Evaluation = (
    vrl::compiler::Program,
    vrl::value::Value,
    vrl::compiler::TimeZone,
    Result<(vrl::value::Value, vrl::value::Value), vrl::compiler::runtime::Terminate>,
);

/// The zone an engine made with the setting `timezone` holds: `None` for
/// the process's local zone (no setting, an empty one, or `local`), else
/// the named zone.
pub open spec fn zone_for(timezone: Option<Seq<char>>) -> Option<Seq<char>> {
    match timezone {
        None => None,
        Some(name) => if name.len() == 0 || name == "local"@ {
            None
        } else {
            Some(name)
        },
    }
}

/// The view of an optional string.
pub open spec fn opt_view(s: Option<String>) -> Option<Seq<char>> {
    match s {
        Some(s) => Some(s@),
        None => None,
    }
}

/// An error that an execution of `source` can give: the compile report of
/// `source`, or a run-time diagnostic of one message. Never a time zone error
/// nor a missing program.
pub open spec fn execution_error(source: Seq<char>, e: VRLError) -> bool {
    match e {
        VRLError::Compile(d) => compile_report(source, d),
        VRLError::Runtime(d) => reports_failure(d) && d.messages@.len() == 1,
        _ => false,
    }
}

/// A time zone setting is accepted: absent, empty, `local`, or a known zone.
pub open spec fn timezone_accepted(timezone: Option<Seq<char>>) -> bool {
    match timezone {
        None => true,
        Some(name) => name.len() == 0 || name == "local"@ || crate::dsl::known_timezone(name),
    }
}

/// The source held in the cache after an execution of `source` that started
/// with `cached` in it: kept on a hit, replaced when `source` compiles, else
/// left as it was.
pub open spec fn cache_after(cached: Option<Seq<char>>, source: Seq<char>) -> Option<Seq<char>> {
    if cached == Some(source) {
        cached
    } else if compiles(source) {
        Some(source)
    } else {
        cached
    }
}

/// The number of compiler runs after an execution of `source` that started
/// with `cached` in the cache and `count` runs made: one more on a miss.
pub open spec fn compilations_after(cached: Option<Seq<char>>, count: nat, source: Seq<char>) -> nat {
    if cached == Some(source) {
        count
    } else {
        count + 1
    }
}

/// The engine: a time zone, and at most one compiled program with the
/// source it was compiled from.
pub struct VRLRuntime {
    timezone: vrl::compiler::TimeZone,
    zone_name: Option<String>,
    compiled_program: Option<vrl::compiler::Program>,
    cached_source: Option<String>,
    compilations: Ghost<nat>,
    last_evaluation: Ghost<Option<Evaluation>>,
}

impl VRLRuntime {
    /// The program and its source are cached together or not at all, and
    /// the cached program is the one compiled from the cached source.
    pub closed spec fn wf(&self) -> bool {
        &&& self.compiled_program is Some <==> self.cached_source is Some
        &&& self.compiled_program is Some ==> self.compiled_program->Some_0 == compiled_of(
            self.cached_source->Some_0@,
        )
    }

    /// The zone value the evaluator is handed.
    pub closed spec fn zone(&self) -> vrl::compiler::TimeZone {
        self.timezone
    }

    /// The latest call of the evaluator, if there was one.
    pub closed spec fn last_evaluation(&self) -> Option<Evaluation> {
        self.last_evaluation@
    }

    /// The source of the cached program, if one is cached.
    pub closed spec fn cached(&self) -> Option<Seq<char>> {
        match self.cached_source {
            Some(s) => Some(s@),
            None => None,
        }
    }

    /// The zone the engine evaluates in: `None` for the process's local zone,
    /// else the name of the zone.
    pub closed spec fn timezone(&self) -> Option<Seq<char>> {
        opt_view(self.zone_name)
    }

    /// How many times this engine has run the compiler.
    pub closed spec fn compilations(&self) -> nat {
        self.compilations@
    }

    /// Makes an engine with an empty cache. An absent or empty time zone, or
    /// `local`, selects the process's local zone; any other name must be a
    /// zone of the database.
    pub fn new(timezone: Option<String>) -> (r: Result<VRLRuntime, VRLError>)
        ensures
            r is Ok <==> timezone_accepted(
                match timezone {
                    Some(s) => Some(s@),
                    None => None,
                },
            ),
            r is Ok ==> r->Ok_0.wf() && r->Ok_0.cached() is None && r->Ok_0.compilations() == 0
                && r->Ok_0.timezone() == zone_for(opt_view(timezone)),
            r is Err ==> r->Err_0 is InvalidTimezone && timezone is Some
                && r->Err_0->InvalidTimezone_0@ == timezone->Some_0@,
    {
        let parsed = match &timezone {
            None => parse_timezone(""),
            Some(name) => parse_timezone(name.as_str()),
        };
        proof {
            reveal_strlit("");
        }
        match parsed {
            Some(tz) => Ok(VRLRuntime {
                timezone: tz,
                zone_name: Self::zone_name_of(timezone),
                compiled_program: None,
                cached_source: None,
                compilations: Ghost(0),
                last_evaluation: Ghost(None),
            }),
            None => {
                let name = match timezone {
                    Some(name) => name,
                    None => String::new(),
                };
                Err(VRLError::InvalidTimezone(name))
            },
        }
    }

    /// The zone name that a setting selects: none for the local zone.
    fn zone_name_of(timezone: Option<String>) -> (r: Option<String>)
        ensures
            opt_view(r) == zone_for(opt_view(timezone)),
    {
        match timezone {
            None => None,
            Some(name) => {
                let empty = String::new();
                let local = String::from_str("local");
                proof {
                    reveal_strlit("local");
                }
                if name == empty || name == local {
                    None
                } else {
                    proof {
                        if name@.len() == 0 {
                            assert(name@ =~= empty@);
                        }
                    }
                    Some(name)
                }
            },
        }
    }

    /// The zone name the engine was made with; none for the local zone.
    pub fn timezone_name(&self) -> (r: Option<String>)
        ensures
            opt_view(r) == self.timezone(),
    {
        match &self.zone_name {
            Some(name) => Some(name.clone()),
            None => None,
        }
    }

    /// Compiles `source` and caches the program in place of the one held.
    /// On failure the cache is left as it was.
    pub fn compile(&mut self, source: String) -> (r: Result<bool, VRLError>)
        requires
            old(self).wf(),
        ensures
            final(self).wf(),
            r is Ok <==> compiles(source@),
            r is Ok ==> r->Ok_0 && final(self).cached() == Some(source@),
            r is Err ==> r->Err_0 is Compile && compile_report(source@, r->Err_0->Compile_0)
                && final(self).cached() == old(self).cached(),
            final(self).compilations() == old(self).compilations() + 1,
            final(self).timezone() == old(self).timezone(),
            final(self).zone() == old(self).zone(),
            final(self).last_evaluation() == old(self).last_evaluation(),
    {
        let compiled = compile_program(source.as_str());
        self.compilations = Ghost(self.compilations@ + 1);
        match compiled {
            Ok(program) => {
                self.compiled_program = Some(program);
                self.cached_source = Some(source);
                Ok(true)
            },
            Err(diagnostics) => Err(VRLError::Compile(create_diagnostic(source.as_str(), diagnostics))),
        }
    }

    /// The cache holds the program of exactly this source.
    pub fn is_cached(&self, source: &String) -> (r: bool)
        ensures
            r == (self.cached() == Some(source@)),
    {
        match &self.cached_source {
            Some(s) => *s == *source,
            None => false,
        }
    }

    /// Makes the cache hold the program of `source`: compiles it unless the
    /// cached program was compiled from the same text. A compile failure
    /// leaves the cache as it was.
    pub fn prepare(&mut self, source: &String) -> (r: Result<(), VRLError>)
        requires
            old(self).wf(),
        ensures
            final(self).wf(),
            final(self).cached() == cache_after(old(self).cached(), source@),
            final(self).compilations() == compilations_after(
                old(self).cached(),
                old(self).compilations(),
                source@,
            ),
            final(self).timezone() == old(self).timezone(),
            final(self).zone() == old(self).zone(),
            final(self).last_evaluation() == old(self).last_evaluation(),
            r is Err <==> (old(self).cached() != Some(source@) && !compiles(source@)),
            r is Err ==> r->Err_0 is Compile && compile_report(source@, r->Err_0->Compile_0),
    {
        if !self.is_cached(source) {
            match self.compile(source.clone()) {
                Ok(_) => {},
                Err(e) => {
                    return Err(e);
                },
            }
        }
        Ok(())
    }

    /// Runs `source` on `event`, compiling it first unless the cached program
    /// was compiled from the same text. The evaluator is handed the program
    /// compiled from `source`, the event and the engine's zone; its result is
    /// returned, or its termination as a run-time diagnostic.
    pub fn execute(&mut self, source: String, event: vrl::value::Value) -> (r: Result<
        VRLResult,
        VRLError,
    >)
        requires
            old(self).wf(),
        ensures
            final(self).wf(),
            final(self).cached() == cache_after(old(self).cached(), source@),
            final(self).compilations() == compilations_after(
                old(self).cached(),
                old(self).compilations(),
                source@,
            ),
            final(self).timezone() == old(self).timezone(),
            final(self).zone() == old(self).zone(),
            (r is Err && r->Err_0 is Compile) <==> (old(self).cached() != Some(source@)
                && !compiles(source@)),
            r is Err ==> execution_error(source@, r->Err_0),
            r is Ok ==> final(self).last_evaluation() == Some(
                (
                    compiled_of(source@),
                    event,
                    old(self).zone(),
                    Ok::<_, vrl::compiler::runtime::Terminate>(
                        (r->Ok_0.processed_event, r->Ok_0.runtime_result),
                    ),
                ),
            ),
            r is Err && r->Err_0 is Runtime ==> {
                let ev = final(self).last_evaluation()->Some_0;
                &&& final(self).last_evaluation() is Some
                &&& ev.0 == compiled_of(source@)
                &&& ev.1 == event
                &&& ev.2 == old(self).zone()
                &&& ev.3 is Err
                &&& runtime_report(source@, ev.3->Err_0, r->Err_0->Runtime_0)
            },
            r is Err && r->Err_0 is Compile ==> final(self).last_evaluation() == old(
                self,
            ).last_evaluation(),
    {
        match self.prepare(&source) {
            Ok(()) => {},
            Err(e) => {
                return Err(e);
            },
        }
        let program = match &self.compiled_program {
            Some(p) => p,
            None => {
                return Err(VRLError::ProgramNotCompiled);
            },
        };
        let ghost handed = *program;
        let ghost input = event;
        let start = clock_start();
        let result = resolve_program(program, event, &self.timezone);
        let elapsed = clock_elapsed(&start);
        self.last_evaluation = Ghost(Some((handed, input, self.timezone, result)));
        match result {
            Ok((processed_event, runtime_result)) => Ok(
                VRLResult { processed_event, runtime_result, elapsed },
            ),
            Err(terminate) => Err(
                VRLError::Runtime(create_runtime_diagnostic(source.as_str(), terminate)),
            ),
        }
    }

    /// Makes a fresh engine with the given time zone and executes once: the
    /// compiler runs on every call, as nothing is cached before it.
    pub fn run(source: String, event: vrl::value::Value, timezone: Option<String>) -> (r: Result<
        VRLResult,
        VRLError,
    >)
        ensures
            !timezone_accepted(opt_view(timezone)) ==> r is Err && r->Err_0 is InvalidTimezone
                && r->Err_0->InvalidTimezone_0@ == timezone->Some_0@,
            timezone_accepted(opt_view(timezone)) ==> {
                &&& (r is Err && r->Err_0 is Compile) <==> !compiles(source@)
                &&& r is Err ==> execution_error(source@, r->Err_0)
            },
    {
        let mut runtime = match VRLRuntime::new(timezone) {
            Ok(rt) => rt,
            Err(e) => {
                return Err(e);
            },
        };
        runtime.execute(source, event)
    }

    /// Empties the cache.
    pub fn clear_cache(&mut self)
        ensures
            final(self).wf(),
            final(self).cached() is None,
            final(self).compilations() == old(self).compilations(),
            final(self).timezone() == old(self).timezone(),
            final(self).zone() == old(self).zone(),
    {
        self.compiled_program = None;
        self.cached_source = None;
    }

    /// Checks that `source` compiles, without touching any cache: the
    /// diagnostic of the failure, or nothing.
    pub fn check_syntax(source: String) -> (r: Option<VRLDiagnostic>)
        ensures
            r is None <==> compiles(source@),
            r is Some ==> compile_report(source@, r->Some_0),
    {
        match compile_program(source.as_str()) {
            Ok(_) => None,
            Err(diagnostics) => Some(create_diagnostic(source.as_str(), diagnostics)),
        }
    }

    /// Whether a compiled program is cached.
    pub fn is_compiled(&self) -> (r: bool)
        requires
            self.wf(),
        ensures
            r == self.cached() is Some,
    {
        self.compiled_program.is_some()
    }
}

/// Executing one source twice in a row runs the compiler once: after the
/// first execution has compiled the source, the second finds it cached and
/// adds no compiler run.
pub proof fn lemma_second_execution_hits_cache(
    cached: Option<Seq<char>>,
    count: nat,
    source: Seq<char>,
)
    requires
        compiles(source),
    ensures
        cache_after(cached, source) == Some(source),
        compilations_after(
            cache_after(cached, source),
            compilations_after(cached, count, source),
            source,
        ) == compilations_after(cached, count, source),
        compilations_after(cached, count, source) <= count + 1,
{
}

/// Whatever the cache held, an execution of a source that compiles leaves
/// that source cached. A syntax check takes no engine, so one made before
/// changes nothing here.
pub proof fn lemma_execution_after_check(cached: Option<Seq<char>>, source: Seq<char>)
    requires
        compiles(source),
    ensures
        cache_after(cached, source) == Some(source),
{
}

/// After the cache is cleared, executing any source runs the compiler once
/// more, even if that source was compiled before.
pub proof fn lemma_clear_forces_compile(count: nat, source: Seq<char>)
    ensures
        compilations_after(None, count, source) == count + 1,
        compiles(source) ==> cache_after(None, source) == Some(source),
{
}

} // verus!
