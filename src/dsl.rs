//! The DSL compiler, evaluator and diagnostic formatter, as this library
//! relies on them.
use vstd::prelude::*;

verus! {

#[verifier::external_type_specification]
#[verifier::external_body]
pub struct ExProgram(vrl::compiler::Program);

#[verifier::external_type_specification]
#[verifier::external_body]
pub struct ExDiagnosticList(vrl::diagnostic::DiagnosticList);

#[verifier::external_type_specification]
#[verifier::external_body]
pub struct ExDiagnostic(vrl::diagnostic::Diagnostic);

#[verifier::external_type_specification]
#[verifier::external_body]
pub struct ExTerminate(vrl::compiler::runtime::Terminate);

#[verifier::external_type_specification]
#[verifier::external_body]
pub struct ExDslValue(vrl::value::Value);

#[verifier::external_type_specification]
#[verifier::external_body]
pub struct ExTimeZone(vrl::compiler::TimeZone);

#[verifier::external_type_specification]
#[verifier::external_body]
pub struct ExInstant(std::time::Instant);

/// The source text compiles.
pub uninterp spec fn compiles(source: Seq<char>) -> bool;

/// The program compiled from the source text.
pub uninterp spec fn compiled_of(source: Seq<char>) -> vrl::compiler::Program;

/// The errors that compiling the source text reports.
pub uninterp spec fn compile_errors(source: Seq<char>) -> vrl::diagnostic::DiagnosticList;

/// Every span of the diagnostics lies within the source text, so that they
/// can be rendered against it.
pub uninterp spec fn spans_fit(source: Seq<char>, list: vrl::diagnostic::DiagnosticList) -> bool;

/// The source text rendered with the diagnostics, as plain text.
pub uninterp spec fn rendering(source: Seq<char>, list: vrl::diagnostic::DiagnosticList) -> Seq<
    char,
>;

/// The source text rendered with the diagnostics, with color markers.
pub uninterp spec fn colored_rendering(
    source: Seq<char>,
    list: vrl::diagnostic::DiagnosticList,
) -> Seq<char>;

/// The expression error behind a termination, as a diagnostic list.
pub uninterp spec fn error_list_of(t: vrl::compiler::runtime::Terminate) -> vrl::diagnostic::DiagnosticList;

/// The messages of a diagnostic list, in order.
pub uninterp spec fn messages_of(list: vrl::diagnostic::DiagnosticList) -> Seq<Seq<char>>;

/// The text of a termination, as its `Display` writes it.
pub uninterp spec fn termination_text(t: vrl::compiler::runtime::Terminate) -> Seq<char>;

/// The name is an identifier of the time zone database.
pub uninterp spec fn known_timezone(name: Seq<char>) -> bool;

/// Relies on vrl::compiler::compile_with_state: compiles `source` against the
/// DSL's standard library (every function group but the network one, whose
/// HTTP client this crate does not build), from a fresh type state with the default
/// configuration; whether it succeeds depends on the source alone. A failure
/// carries at least one error (a parse error, or the compiler's errors, which
/// it returns only when there are some), each with spans taken from the
/// source's own syntax tree.
#[verifier::external_body]
pub(crate) fn compile_program(source: &str) -> (r: Result<
    vrl::compiler::Program,
    vrl::diagnostic::DiagnosticList,
>)
    ensures
        r is Ok <==> compiles(source@),
        r is Ok ==> r->Ok_0 == compiled_of(source@),
        r is Err ==> r->Err_0 == compile_errors(source@),
        r is Err ==> messages_of(r->Err_0).len() > 0 && spans_fit(source@, r->Err_0),
{
    let functions = vrl::stdlib::all();
    let state = vrl::compiler::TypeState::default();
    let config = vrl::compiler::CompileConfig::default();
    vrl::compiler::compile_with_state(source, &functions, &state, config).map(|result| result.program)
}

/// Relies on vrl::diagnostic::Diagnostic::message: the message of each
/// diagnostic of the list, in order.
#[verifier::external_body]
pub(crate) fn diagnostic_messages(list: &vrl::diagnostic::DiagnosticList) -> (r: Vec<String>)
    ensures
        r@.len() == messages_of(*list).len(),
        forall|i: int| 0 <= i < r@.len() ==> #[trigger] r@[i]@ == messages_of(*list)[i],
{
    list.iter().map(|d| d.message().to_string()).collect()
}

/// Relies on the derived Clone of vrl::diagnostic::DiagnosticList, since
/// formatting consumes the list: the copy equals the list.
#[verifier::external_body]
pub(crate) fn copy_diagnostics(list: &vrl::diagnostic::DiagnosticList) -> (r:
    vrl::diagnostic::DiagnosticList)
    ensures
        r == *list,
{
    list.clone()
}

/// Relies on vrl::diagnostic::Formatter: the source rendered with the
/// diagnostics, as plain text. A non-empty list is rendered starting with a
/// line break. The rendering fails, and `to_string` panics, only when a
/// diagnostic's span does not fit the source, which `requires` rules out.
#[verifier::external_body]
pub(crate) fn format_plain(source: &str, list: vrl::diagnostic::DiagnosticList) -> (r: String)
    requires
        spans_fit(source@, list),
    ensures
        r@ == rendering(source@, list),
        messages_of(list).len() > 0 ==> r@.len() > 0,
{
    vrl::diagnostic::Formatter::new(source, list).to_string()
}

/// Relies on vrl::diagnostic::Formatter::colored: the source rendered with the
/// diagnostics, with color markers. A non-empty list is rendered starting with
/// a line break. Spans that do not fit the source, which `requires` rules
/// out, make it fail as `format_plain` does.
#[verifier::external_body]
pub(crate) fn format_colored(source: &str, list: vrl::diagnostic::DiagnosticList) -> (r: String)
    requires
        spans_fit(source@, list),
    ensures
        r@ == colored_rendering(source@, list),
        messages_of(list).len() > 0 ==> r@.len() > 0,
{
    vrl::diagnostic::Formatter::new(source, list).colored().to_string()
}

/// Relies on Display for vrl::compiler::runtime::Terminate: its message.
#[verifier::external_body]
pub(crate) fn termination_message(t: &vrl::compiler::runtime::Terminate) -> (r: String)
    ensures
        r@ == termination_text(*t),
{
    t.to_string()
}

/// Relies on vrl::compiler::runtime::Terminate::get_expression_error: the
/// expression error behind the termination, as a diagnostic list; `From` on
/// one error makes a list of one.
#[verifier::external_body]
pub(crate) fn termination_diagnostics(t: vrl::compiler::runtime::Terminate) -> (r:
    vrl::diagnostic::DiagnosticList)
    ensures
        r == error_list_of(t),
        messages_of(r).len() == 1,
{
    vrl::diagnostic::DiagnosticList::from(t.get_expression_error())
}

/// Relies on vrl::compiler::runtime::Runtime::resolve: runs `program` on a
/// target made of `event`, an empty metadata mapping and no secrets; gives
/// the target's final value and the program's last value, or the termination.
/// A termination's expression error carries spans of the program's own
/// expressions, which lie within the source it was compiled from.
#[verifier::external_body]
pub(crate) fn resolve_program(
    program: &vrl::compiler::Program,
    event: vrl::value::Value,
    timezone: &vrl::compiler::TimeZone,
) -> (r: Result<(vrl::value::Value, vrl::value::Value), vrl::compiler::runtime::Terminate>)
    ensures
        r is Err ==> forall|s: Seq<char>|
            #[trigger] compiled_of(s) == *program ==> spans_fit(s, error_list_of(r->Err_0)),
{
    let mut target = vrl::compiler::TargetValue {
        value: event,
        metadata: vrl::value::Value::Object(std::collections::BTreeMap::new()),
        secrets: vrl::value::Secrets::new(),
    };
    let mut runtime = vrl::compiler::runtime::Runtime::default();
    let last = runtime.resolve(&mut target, program, timezone)?;
    Ok((target.value, last))
}

/// Relies on vrl::compiler::TimeZone::parse: the empty name and `local` give
/// the process's local zone, any other name a zone of the database if it
/// names one.
#[verifier::external_body]
pub(crate) fn parse_timezone(name: &str) -> (r: Option<vrl::compiler::TimeZone>)
    ensures
        r is Some <==> (name@.len() == 0 || name@ == "local"@ || known_timezone(name@)),
{
    vrl::compiler::TimeZone::parse(name)
}

/// Relies on std::time::Instant::now.
#[verifier::external_body]
pub(crate) fn clock_start() -> (r: std::time::Instant) {
    std::time::Instant::now()
}

/// Relies on std::time::Instant::elapsed.
#[verifier::external_body]
pub(crate) fn clock_elapsed(start: &std::time::Instant) -> (r: core::time::Duration) {
    start.elapsed()
}

} // verus!
