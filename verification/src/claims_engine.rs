//! The claims policy: an operator's script that decides, from the claims of
//! the identity provider, whether a login is admitted and under what name.

use crate::error::Error;
use crate::error::ErrorView;
use crate::text::chars_of;
use crate::text::ends_with;
use crate::text::has_at;
use crate::text::leading;
use crate::text::lines;
use crate::text::push_range;
use crate::text::push_str;
use crate::text::replace;
use crate::text::replace_all;
use crate::text::replace_chars;
use crate::text::rows;
use crate::text::split_lines;
use crate::text::string_of;
use crate::text::strip_start;
use crate::text::CharSet;
use vstd::prelude::*;

verus! {

/// What a field of a JSON object holds, as plain values.
pub enum JsonFieldView {
    NotAnObject,
    Missing,
    Null,
    Bool(bool),
    Text(Seq<char>),
    Other(Seq<char>),
}

/// What a field of a JSON object holds.
#[derive(Debug, PartialEq, Eq)]
pub enum JsonField {
    /// The text is no JSON, or the JSON is no object.
    NotAnObject,
    /// The object has no such field.
    Missing,
    Null,
    Bool(bool),
    /// A string, with its escapes resolved.
    Text(String),
    /// A number, an array or an object, as JSON text.
    Other(String),
}

impl View for JsonField {
    type V = JsonFieldView;

    open spec fn view(&self) -> JsonFieldView {
        match self {
            JsonField::NotAnObject => JsonFieldView::NotAnObject,
            JsonField::Missing => JsonFieldView::Missing,
            JsonField::Null => JsonFieldView::Null,
            JsonField::Bool(b) => JsonFieldView::Bool(*b),
            JsonField::Text(s) => JsonFieldView::Text(s@),
            JsonField::Other(s) => JsonFieldView::Other(s@),
        }
    }
}

/// What the field `key` of the JSON object `text` holds.
pub uninterp spec fn json_field(text: Seq<char>, key: Seq<char>) -> JsonFieldView;

/// The field `key` of the JSON object `text`, as JSON text: none where the
/// text is no JSON object or the object has no such field.
pub uninterp spec fn json_field_text(text: Seq<char>, key: Seq<char>) -> Option<Seq<char>>;

/// What the field `key` of the JSON object `text` holds.
///
/// Trusted: `serde_json::from_str` to a `Value`, then `Map::get` on the
/// object that it is; the variants of the value found are told apart, and a
/// number, an array or an object is written out with `Value::to_string`.
#[verifier::external_body]
pub(crate) fn read_field(text: &str, key: &str) -> (r: JsonField)
    ensures
        r@ == json_field(text@, key@),
{
    match serde_json::from_str::<serde_json::Value>(text) {
        Ok(serde_json::Value::Object(map)) => match map.get(key) {
            None => JsonField::Missing,
            Some(serde_json::Value::Null) => JsonField::Null,
            Some(serde_json::Value::Bool(b)) => JsonField::Bool(*b),
            Some(serde_json::Value::String(s)) => JsonField::Text(s.clone()),
            Some(other) => JsonField::Other(other.to_string()),
        },
        _ => JsonField::NotAnObject,
    }
}

/// The field `key` of the JSON object `text`, as JSON text.
///
/// Trusted: `serde_json::from_str` to a `Value`, `Value::get` with the key,
/// and `Value::to_string` on what is found.
#[verifier::external_body]
pub(crate) fn read_field_text(text: &str, key: &str) -> (r: Option<String>)
    ensures
        r.deep_view() == json_field_text(text@, key@),
{
    match serde_json::from_str::<serde_json::Value>(text) {
        Ok(value) => value.get(key).map(|v| v.to_string()),
        Err(_) => None,
    }
}

/// How the evaluation of a script ended, as plain values.
pub enum ScriptOutcomeView {
    Text(Seq<char>),
    NotText,
    Failed(Seq<char>),
}

/// How the evaluation of a script ended.
#[derive(Debug, PartialEq, Eq)]
pub enum ScriptOutcome {
    /// The script's value is this string.
    Text(String),
    /// The script's value is no string.
    NotText,
    /// The script did not parse, or threw; this is the error's text.
    Failed(String),
}

impl View for ScriptOutcome {
    type V = ScriptOutcomeView;

    open spec fn view(&self) -> ScriptOutcomeView {
        match self {
            ScriptOutcome::Text(s) => ScriptOutcomeView::Text(s@),
            ScriptOutcome::NotText => ScriptOutcomeView::NotText,
            ScriptOutcome::Failed(s) => ScriptOutcomeView::Failed(s@),
        }
    }
}

/// Evaluates JavaScript in a fresh interpreter without host bindings.
///
/// Trusted: `Context::eval` of `boa_engine` on a new `Context::default()`,
/// whose runtime limits are set first to the given bounds on loop iterations
/// and on recursion. An error is handed out as its text, a string value
/// through `JsString::to_std_string_escaped`. Nothing is claimed of the
/// result: a script may read the clock or draw random numbers.
#[verifier::external_body]
pub(crate) fn evaluate_script(source: &str, loop_limit: u64, recursion_limit: usize) -> ScriptOutcome {
    let mut context = boa_engine::Context::default();
    context.runtime_limits_mut().set_loop_iteration_limit(loop_limit);
    context.runtime_limits_mut().set_recursion_limit(recursion_limit);
    match context.eval(boa_engine::Source::from_bytes(source)) {
        Ok(value) => match value.as_string() {
            Some(text) => ScriptOutcome::Text(text.to_std_string_escaped()),
            None => ScriptOutcome::NotText,
        },
        Err(e) => ScriptOutcome::Failed(e.to_string()),
    }
}

/// What a claims check decided, as plain values.
pub struct ClaimsCheckResultView {
    pub success: bool,
    pub display_name: Option<Seq<char>>,
    pub picture: Option<Seq<char>>,
    pub error: Option<Seq<char>>,
    pub claims: Option<Seq<char>>,
}

/// What a claims check decided.
#[derive(Debug, PartialEq, Eq)]
pub struct ClaimsCheckResult {
    pub success: bool,
    pub display_name: Option<String>,
    pub picture: Option<String>,
    pub error: Option<String>,
    /// The claims to keep with the session, as JSON text.
    pub claims: Option<String>,
}

impl View for ClaimsCheckResult {
    type V = ClaimsCheckResultView;

    open spec fn view(&self) -> ClaimsCheckResultView {
        ClaimsCheckResultView {
            success: self.success,
            display_name: self.display_name.deep_view(),
            picture: self.picture.deep_view(),
            error: self.error.deep_view(),
            claims: self.claims.deep_view(),
        }
    }
}

/// Whether a path names a TypeScript file: it ends in `.ts` or `.mts`.
pub open spec fn names_typescript(path: Seq<char>) -> bool {
    (".ts"@.len() <= path.len() && path.skip(path.len() - ".ts"@.len()) == ".ts"@) || (".mts"@.len()
        <= path.len() && path.skip(path.len() - ".mts"@.len()) == ".mts"@)
}

/// Whether a line declares a TypeScript interface or type alias.
pub open spec fn declares_type(line: Seq<char>) -> bool {
    let t = strip_start(line, CharSet::Whitespace);
    "interface "@.is_prefix_of(t) || "type "@.is_prefix_of(t) || "export interface "@.is_prefix_of(t)
        || "export type "@.is_prefix_of(t)
}

/// The lines one after another, each ended by a line feed, with a comment in
/// place of every line that declares a type.
pub open spec fn without_declarations(ls: Seq<Seq<char>>) -> Seq<char>
    decreases ls.len(),
{
    if ls.len() == 0 {
        Seq::empty()
    } else {
        without_declarations(ls.drop_last()) + (if declares_type(ls.last()) {
            "/* skipped type */"@
        } else {
            ls.last()
        }) + "\n"@
    }
}

/// The type annotations that are taken out of a script, in the order in
/// which they are taken out.
pub open spec fn annotations() -> Seq<Seq<char>> {
    seq![
        "?: string"@,
        ": Claims"@,
        ": CheckResult"@,
        ": CheckSuccessResult"@,
        ": CheckFailureResult"@,
        ": string"@,
        ": boolean"@,
        ": Error"@,
    ]
}

/// `s` without any occurrence of the first `n` annotations.
pub open spec fn without_annotations(s: Seq<char>, n: nat) -> Seq<char>
    decreases n,
{
    if n == 0 || n > annotations().len() {
        s
    } else {
        replace_all(without_annotations(s, (n - 1) as nat), annotations()[n - 1], Seq::empty())
    }
}

/// The JavaScript that a TypeScript source stands for: the lines that
/// declare types give way to a comment, and the annotations are taken out.
pub open spec fn transpiled(source: Seq<char>) -> Seq<char> {
    without_annotations(without_declarations(lines(source)), annotations().len())
}

/// A script with its default export turned into an assignment to
/// `__exports.default`, whether it exports a function, an async function or
/// any other expression.
pub open spec fn transformed(source: Seq<char>) -> Seq<char> {
    replace_all(source, "export default "@, "__exports.default = "@)
}

/// JSON text, fit to stand between single quotes in JavaScript: a backslash
/// before every backslash, then before every single quote.
pub open spec fn quoted(json: Seq<char>) -> Seq<char> {
    replace_all(replace_all(json, "\\"@, "\\\\"@), "'"@, "\\'"@)
}

/// The program that runs a policy script on claims: it parses the claims,
/// runs the script, calls the function that the script exports with the
/// claims and gives the JSON text of what the function returns.
pub open spec fn program(script: Seq<char>, claims: Seq<char>) -> Seq<char> {
    "var __claims = JSON.parse('"@ + quoted(claims) + "');\nvar __exports = {};\n"@ + transformed(
        script,
    )
        + "\nvar __fn = __exports.default;\nif (typeof __fn !== 'function') {\n    throw new Error('No default export found in the script');\n}\nvar __result = __fn(__claims);\nJSON.stringify(__result);\n"@
}

/// Whether a path names a TypeScript file.
pub fn is_typescript_path(path: &str) -> (r: bool)
    ensures
        r == names_typescript(path@),
{
    ends_with(path, ".ts") || ends_with(path, ".mts")
}

/// Whether a line declares a TypeScript interface or type alias.
fn is_type_declaration(line: &Vec<char>) -> (r: bool)
    ensures
        r == declares_type(line@),
{
    let from = leading(line.as_slice(), CharSet::Whitespace);
    let a = chars_of("interface ");
    let b = chars_of("type ");
    let c = chars_of("export interface ");
    let d = chars_of("export type ");
    has_at(line.as_slice(), from, a.as_slice()) || has_at(line.as_slice(), from, b.as_slice())
        || has_at(line.as_slice(), from, c.as_slice()) || has_at(
        line.as_slice(),
        from,
        d.as_slice(),
    )
}

/// `v` without any occurrence of `annotation`.
fn drop_annotation(v: Vec<char>, annotation: &str, Ghost(n): Ghost<nat>, Ghost(s): Ghost<Seq<char>>) -> (r:
    Vec<char>)
    requires
        0 < n <= annotations().len(),
        annotations()[n - 1] == annotation@,
        v@ == without_annotations(s, (n - 1) as nat),
    ensures
        r@ == without_annotations(s, n),
{
    let pat = chars_of(annotation);
    let to: Vec<char> = Vec::new();
    assert(to@ =~= Seq::<char>::empty());
    replace_chars(v.as_slice(), pat.as_slice(), to.as_slice())
}

/// The JavaScript that the TypeScript source `source` stands for.
pub fn transpile_typescript(source: &str) -> (r: String)
    ensures
        r@ == transpiled(source@),
{
    let v = chars_of(source);
    let ls = split_lines(v.as_slice());
    let mut out: Vec<char> = Vec::new();
    let mut i: usize = 0;
    let ghost all = rows(ls@);
    assert(out@ =~= without_declarations(all.take(0)));
    while i < ls.len()
        invariant
            i <= ls.len(),
            all == rows(ls@),
            out@ == without_declarations(all.take(i as int)),
        decreases ls.len() - i,
    {
        let ghost next = all.take(i + 1);
        assert(next.drop_last() == all.take(i as int));
        assert(next.last() == ls@[i as int]@);
        let ghost before = out@;
        if is_type_declaration(&ls[i]) {
            push_str(&mut out, "/* skipped type */");
        } else {
            let n = ls[i].len();
            push_range(&mut out, ls[i].as_slice(), 0, n);
            assert(ls@[i as int]@.subrange(0, n as int) == ls@[i as int]@);
        }
        push_str(&mut out, "\n");
        i += 1;
    }
    assert(all.take(ls.len() as int) == all);
    let ghost s = out@;
    let out = drop_annotation(out, "?: string", Ghost(1), Ghost(s));
    let out = drop_annotation(out, ": Claims", Ghost(2), Ghost(s));
    let out = drop_annotation(out, ": CheckResult", Ghost(3), Ghost(s));
    let out = drop_annotation(out, ": CheckSuccessResult", Ghost(4), Ghost(s));
    let out = drop_annotation(out, ": CheckFailureResult", Ghost(5), Ghost(s));
    let out = drop_annotation(out, ": string", Ghost(6), Ghost(s));
    let out = drop_annotation(out, ": boolean", Ghost(7), Ghost(s));
    let out = drop_annotation(out, ": Error", Ghost(8), Ghost(s));
    string_of(out.as_slice())
}

/// The script to run for the file at `path` with the text `content`: the
/// text itself, or what it transpiles to where the file is TypeScript.
pub fn prepare_script(path: &str, content: &str) -> (r: String)
    ensures
        r@ == (if names_typescript(path@) {
            transpiled(content@)
        } else {
            content@
        }),
{
    if is_typescript_path(path) {
        transpile_typescript(content)
    } else {
        String::from_str(content)
    }
}

/// A script with its default export turned into an assignment to
/// `__exports.default`.
pub fn transform_script(source: &str) -> (r: String)
    ensures
        r@ == transformed(source@),
{
    replace(source, "export default ", "__exports.default = ")
}

/// The program that runs the policy script `script` on `claims`.
pub fn build_program(script: &str, claims: &str) -> (r: String)
    ensures
        r@ == program(script@, claims@),
{
    let escaped = replace(replace(claims, "\\", "\\\\").as_str(), "'", "\\'");
    let body = transform_script(script);
    let mut out: Vec<char> = Vec::new();
    push_str(&mut out, "var __claims = JSON.parse('");
    push_str(&mut out, escaped.as_str());
    push_str(&mut out, "');\nvar __exports = {};\n");
    push_str(&mut out, body.as_str());
    push_str(
        &mut out,
        "\nvar __fn = __exports.default;\nif (typeof __fn !== 'function') {\n    throw new Error('No default export found in the script');\n}\nvar __result = __fn(__claims);\nJSON.stringify(__result);\n",
    );
    assert(out@ =~= program(script@, claims@));
    string_of(out.as_slice())
}


/// What a run of the policy gives, as plain values.
pub open spec fn result_view(r: Result<ClaimsCheckResult, Error>) -> Result<
    ClaimsCheckResultView,
    ErrorView,
> {
    match r {
        Ok(v) => Ok(v@),
        Err(e) => Err(e@),
    }
}

/// Whether a field can stand for an optional string: it is absent, null or
/// a string.
pub open spec fn is_optional_text(field: JsonFieldView) -> bool {
    field is Missing || field is Null || field is Text
}

/// The optional string that a field stands for.
pub open spec fn optional_text(field: JsonFieldView) -> Option<Seq<char>> {
    match field {
        JsonFieldView::Text(s) => Some(s),
        _ => None,
    }
}

/// The error of a script whose result cannot be read.
pub open spec fn unreadable(what: Seq<char>) -> ErrorView {
    ErrorView::ClaimsCheck { message: "Failed to parse script result: "@ + what }
}

/// The claims in a script's result, as JSON text: none where the result
/// has no claims or they are null.
pub open spec fn result_claims(text: Seq<char>) -> Option<Seq<char>> {
    match json_field(text, "claims"@) {
        JsonFieldView::NotAnObject | JsonFieldView::Missing | JsonFieldView::Null => None,
        _ => json_field_text(text, "claims"@),
    }
}

/// What the JSON text of a script's result says. The result must be an
/// object with a boolean `success`; `display_name`, `picture` and `error`
/// must each be a string, null or absent.
pub open spec fn check_result_of(text: Seq<char>) -> Result<ClaimsCheckResultView, ErrorView> {
    match json_field(text, "success"@) {
        JsonFieldView::Bool(success) => if !is_optional_text(json_field(text, "display_name"@)) {
            Err(unreadable("display_name is not a string"@))
        } else if !is_optional_text(json_field(text, "picture"@)) {
            Err(unreadable("picture is not a string"@))
        } else if !is_optional_text(json_field(text, "error"@)) {
            Err(unreadable("error is not a string"@))
        } else {
            Ok(
                ClaimsCheckResultView {
                    success,
                    display_name: optional_text(json_field(text, "display_name"@)),
                    picture: optional_text(json_field(text, "picture"@)),
                    error: optional_text(json_field(text, "error"@)),
                    claims: result_claims(text),
                },
            )
        },
        JsonFieldView::NotAnObject => Err(unreadable("the result is not an object"@)),
        _ => Err(unreadable("success is not a boolean"@)),
    }
}

/// What a result is worth: a result that reports failure is the error
/// `ClaimsCheckFailed` with the script's own message, or `Unknown error`
/// where it gave none.
pub open spec fn verdict(result: ClaimsCheckResultView) -> Result<ClaimsCheckResultView, ErrorView> {
    if result.success {
        Ok(result)
    } else {
        Err(
            ErrorView::ClaimsCheckFailed {
                message: match result.error {
                    Some(m) => m,
                    None => "Unknown error"@,
                },
            },
        )
    }
}

/// What the outcome of an evaluation is worth. A script that fails to run,
/// or whose value is no string, or whose result cannot be read, is the error
/// `ClaimsCheck`.
pub open spec fn interpreted(outcome: ScriptOutcomeView) -> Result<ClaimsCheckResultView, ErrorView> {
    match outcome {
        ScriptOutcomeView::Failed(m) => Err(
            ErrorView::ClaimsCheck { message: "Script execution error: "@ + m },
        ),
        ScriptOutcomeView::NotText => Err(
            ErrorView::ClaimsCheck { message: "Script did not return a string"@ },
        ),
        ScriptOutcomeView::Text(text) => match check_result_of(text) {
            Ok(result) => verdict(result),
            Err(e) => Err(e),
        },
    }
}

/// The error of a script whose result cannot be read.
fn unreadable_error(what: &str) -> (e: Error)
    ensures
        e@ == unreadable(what@),
{
    Error::ClaimsCheck { message: crate::text::join2("Failed to parse script result: ", what) }
}

/// The optional string that a field stands for, where it stands for one.
fn optional_field(field: JsonField) -> (r: Option<Option<String>>)
    ensures
        r is Some == is_optional_text(field@),
        r matches Some(o) ==> o.deep_view() == optional_text(field@),
{
    match field {
        JsonField::Missing => Some(None),
        JsonField::Null => Some(None),
        JsonField::Text(s) => Some(Some(s)),
        _ => None,
    }
}

/// Reads the JSON text of a script's result.
pub fn parse_check_result(text: &str) -> (r: Result<ClaimsCheckResult, Error>)
    ensures
        result_view(r) == check_result_of(text@),
{
    let success = match read_field(text, "success") {
        JsonField::Bool(b) => b,
        JsonField::NotAnObject => {
            return Err(unreadable_error("the result is not an object"));
        },
        _ => {
            return Err(unreadable_error("success is not a boolean"));
        },
    };
    let display_name = match optional_field(read_field(text, "display_name")) {
        Some(v) => v,
        None => {
            return Err(unreadable_error("display_name is not a string"));
        },
    };
    let picture = match optional_field(read_field(text, "picture")) {
        Some(v) => v,
        None => {
            return Err(unreadable_error("picture is not a string"));
        },
    };
    let error = match optional_field(read_field(text, "error")) {
        Some(v) => v,
        None => {
            return Err(unreadable_error("error is not a string"));
        },
    };
    let claims = match read_field(text, "claims") {
        JsonField::NotAnObject | JsonField::Missing | JsonField::Null => None,
        _ => read_field_text(text, "claims"),
    };
    Ok(ClaimsCheckResult { success, display_name, picture, error, claims })
}

/// Decides what the outcome of an evaluation is worth.
pub fn interpret_outcome(outcome: ScriptOutcome) -> (r: Result<ClaimsCheckResult, Error>)
    ensures
        result_view(r) == interpreted(outcome@),
{
    match outcome {
        ScriptOutcome::Failed(m) => Err(
            Error::ClaimsCheck {
                message: crate::text::join2("Script execution error: ", m.as_str()),
            },
        ),
        ScriptOutcome::NotText => Err(
            Error::ClaimsCheck { message: String::from_str("Script did not return a string") },
        ),
        ScriptOutcome::Text(text) => {
            let result = parse_check_result(text.as_str())?;
            if result.success {
                Ok(result)
            } else {
                let message = match result.error {
                    Some(m) => m,
                    None => String::from_str("Unknown error"),
                };
                Err(Error::ClaimsCheckFailed { message })
            }
        },
    }
}

/// How many loop iterations a policy script may run.
pub const LOOP_LIMIT: u64 = 1_000_000;

/// How deep a policy script may recurse.
pub const RECURSION_LIMIT: usize = 512;

/// Runs the policy script `script_source` on the claims `claims`, given as
/// JSON text, in a fresh interpreter. Whatever the script does, what comes back
/// is what `interpret_outcome` makes of some outcome.
pub fn run_claims_check(script_source: &str, claims: &str) -> (r: Result<ClaimsCheckResult, Error>)
    ensures
        exists|outcome: ScriptOutcomeView| result_view(r) == #[trigger] interpreted(outcome),
        r matches Ok(v) ==> v.success,
{
    let source = build_program(script_source, claims);
    let outcome = evaluate_script(source.as_str(), LOOP_LIMIT, RECURSION_LIMIT);
    let ghost o = outcome@;
    let r = interpret_outcome(outcome);
    assert(result_view(r) == interpreted(o));
    r
}

/// The name to show for claims that no script looked at: the first of
/// `preferred_username`, `nickname` and `sub` that is a string, else
/// `Unknown`.
pub open spec fn default_display_name(claims: Seq<char>) -> Seq<char> {
    match json_field(claims, "preferred_username"@) {
        JsonFieldView::Text(s) => s,
        _ => match json_field(claims, "nickname"@) {
            JsonFieldView::Text(s) => s,
            _ => match json_field(claims, "sub"@) {
                JsonFieldView::Text(s) => s,
                _ => "Unknown"@,
            },
        },
    }
}

/// What is decided of claims without a script: the login is admitted under
/// the default display name, with the picture that the claims name, and the
/// claims are kept as they are.
pub open spec fn default_result(claims: Seq<char>) -> ClaimsCheckResultView {
    ClaimsCheckResultView {
        success: true,
        display_name: Some(default_display_name(claims)),
        picture: optional_text(json_field(claims, "picture"@)),
        error: None,
        claims: Some(claims),
    }
}

/// Decides of claims without a script.
pub fn default_claims_result(claims: &str) -> (r: ClaimsCheckResult)
    ensures
        r@ == default_result(claims@),
{
    let name = match read_field(claims, "preferred_username") {
        JsonField::Text(s) => s,
        _ => match read_field(claims, "nickname") {
            JsonField::Text(s) => s,
            _ => match read_field(claims, "sub") {
                JsonField::Text(s) => s,
                _ => String::from_str("Unknown"),
            },
        },
    };
    let picture = match read_field(claims, "picture") {
        JsonField::Text(s) => Some(s),
        _ => None,
    };
    ClaimsCheckResult {
        success: true,
        display_name: Some(name),
        picture,
        error: None,
        claims: Some(String::from_str(claims)),
    }
}

/// Decides of the claims of a login: by the script, where there is one, and
/// by default otherwise.
pub fn check_claims(script: Option<&str>, claims: &str) -> (r: Result<ClaimsCheckResult, Error>)
    ensures
        script is None ==> result_view(r) == Ok::<ClaimsCheckResultView, ErrorView>(
            default_result(claims@),
        ),
        script is Some ==> exists|outcome: ScriptOutcomeView|
            result_view(r) == #[trigger] interpreted(outcome),
        r matches Ok(v) ==> v.success,
{
    match script {
        Some(source) => run_claims_check(source, claims),
        None => Ok(default_claims_result(claims)),
    }
}

/// The name under which a session is shown: the display name of the result,
/// or `Unknown` where it has none.
pub fn display_name_of(result: &ClaimsCheckResult) -> (r: String)
    ensures
        r@ == (match result@.display_name {
            Some(n) => n,
            None => "Unknown"@,
        }),
{
    match &result.display_name {
        Some(n) => n.clone(),
        None => String::from_str("Unknown"),
    }
}

} // verus!
