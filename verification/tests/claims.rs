use securitydept_core::claims_engine::build_program;
use securitydept_core::claims_engine::check_claims;
use securitydept_core::claims_engine::default_claims_result;
use securitydept_core::claims_engine::display_name_of;
use securitydept_core::claims_engine::interpret_outcome;
use securitydept_core::claims_engine::is_typescript_path;
use securitydept_core::claims_engine::parse_check_result;
use securitydept_core::claims_engine::prepare_script;
use securitydept_core::claims_engine::run_claims_check;
use securitydept_core::claims_engine::transform_script;
use securitydept_core::claims_engine::transpile_typescript;
use securitydept_core::claims_engine::ClaimsCheckResult;
use securitydept_core::claims_engine::ScriptOutcome;
use securitydept_core::error::Error;

#[test]
fn script_that_denies_gives_claims_check_failed() {
    let script = "export default function check(claims) { return { success: false, error: \"denied\" }; }";
    assert_eq!(
        run_claims_check(script, "{\"sub\":\"1\"}"),
        Err(Error::ClaimsCheckFailed { message: "denied".to_string() })
    );
    let err = run_claims_check(script, "{}").unwrap_err();
    assert_eq!(err.status_code(), 403);
    assert_eq!(err.message(), "Claims check script failed: denied");
}

#[test]
fn script_that_admits_gives_its_display_name() {
    let script = "export default function check(claims) { return { success: true, display_name: \"Ada\" }; }";
    let result = run_claims_check(script, "{\"sub\":\"1\"}").unwrap();
    assert!(result.success);
    assert_eq!(result.display_name, Some("Ada".to_string()));
    assert_eq!(result.picture, None);
    assert_eq!(result.error, None);
    assert_eq!(result.claims, None);
    assert_eq!(display_name_of(&result), "Ada");
}

#[test]
fn script_sees_the_claims() {
    let script = "export default (claims) => ({ success: claims.groups.includes('admin'), display_name: claims.name, picture: claims.pic, claims: { who: claims.name }, error: 'not an admin' });";
    let admitted = run_claims_check(
        script,
        "{\"name\":\"O'Neil \\\\ \\\"x\\\"\",\"groups\":[\"admin\"],\"pic\":\"p.png\"}",
    )
    .unwrap();
    assert_eq!(admitted.display_name, Some("O'Neil \\ \"x\"".to_string()));
    assert_eq!(admitted.picture, Some("p.png".to_string()));
    assert_eq!(
        admitted.claims,
        Some("{\"who\":\"O'Neil \\\\ \\\"x\\\"\"}".to_string())
    );
    assert_eq!(
        run_claims_check(script, "{\"name\":\"Bob\",\"groups\":[]}"),
        Err(Error::ClaimsCheckFailed { message: "not an admin".to_string() })
    );
}

#[test]
fn failure_without_message_is_unknown_error() {
    let script = "export default function (c) { return { success: false }; }";
    assert_eq!(
        run_claims_check(script, "{}"),
        Err(Error::ClaimsCheckFailed { message: "Unknown error".to_string() })
    );
}

#[test]
fn scripts_that_cannot_run_give_claims_check() {
    assert!(matches!(
        run_claims_check("export default function (c) { throw new Error('boom'); }", "{}"),
        Err(Error::ClaimsCheck { .. })
    ));
    assert!(matches!(
        run_claims_check("this is not javascript", "{}"),
        Err(Error::ClaimsCheck { .. })
    ));
    // no default export
    assert!(matches!(
        run_claims_check("function check(c) { return { success: true }; }", "{}"),
        Err(Error::ClaimsCheck { .. })
    ));
    // the result is not an object
    assert!(matches!(
        run_claims_check("export default function (c) { return 5; }", "{}"),
        Err(Error::ClaimsCheck { .. })
    ));
    // undefined serialises to no string at all
    assert_eq!(
        run_claims_check("export default function (c) { }", "{}"),
        Err(Error::ClaimsCheck { message: "Script did not return a string".to_string() })
    );
    // claims that are no JSON
    assert!(matches!(
        run_claims_check("export default function (c) { return { success: true }; }", "{nope"),
        Err(Error::ClaimsCheck { .. })
    ));
    // a loop without end is cut off
    assert!(matches!(
        run_claims_check("export default function (c) { while (true) {} }", "{}"),
        Err(Error::ClaimsCheck { .. })
    ));
    let err = run_claims_check("export default function (c) { return 5; }", "{}").unwrap_err();
    assert_eq!(err.status_code(), 500);
}

#[test]
fn outcomes_are_interpreted() {
    assert_eq!(
        interpret_outcome(ScriptOutcome::Failed("SyntaxError".to_string())),
        Err(Error::ClaimsCheck { message: "Script execution error: SyntaxError".to_string() })
    );
    assert_eq!(
        interpret_outcome(ScriptOutcome::NotText),
        Err(Error::ClaimsCheck { message: "Script did not return a string".to_string() })
    );
    assert_eq!(
        interpret_outcome(ScriptOutcome::Text("{\"success\":true,\"display_name\":null}".to_string())),
        Ok(ClaimsCheckResult {
            success: true,
            display_name: None,
            picture: None,
            error: None,
            claims: None,
        })
    );
    assert_eq!(
        interpret_outcome(ScriptOutcome::Text("{\"success\":false,\"error\":\"no\"}".to_string())),
        Err(Error::ClaimsCheckFailed { message: "no".to_string() })
    );
    assert_eq!(
        interpret_outcome(ScriptOutcome::Text("[1]".to_string())),
        Err(Error::ClaimsCheck {
            message: "Failed to parse script result: the result is not an object".to_string()
        })
    );
}

#[test]
fn results_are_parsed_field_by_field() {
    assert_eq!(
        parse_check_result(
            "{\"success\":true,\"display_name\":\"A\",\"picture\":\"p\",\"error\":\"e\",\"claims\":{\"b\":[1,2],\"a\":null},\"more\":1}"
        ),
        Ok(ClaimsCheckResult {
            success: true,
            display_name: Some("A".to_string()),
            picture: Some("p".to_string()),
            error: Some("e".to_string()),
            claims: Some("{\"a\":null,\"b\":[1,2]}".to_string()),
        })
    );
    assert_eq!(
        parse_check_result("{\"success\":true,\"claims\":\"text\"}").unwrap().claims,
        Some("\"text\"".to_string())
    );
    assert_eq!(parse_check_result("{\"success\":true,\"claims\":null}").unwrap().claims, None);
    assert_eq!(
        parse_check_result("{\"success\":\"yes\"}"),
        Err(Error::ClaimsCheck {
            message: "Failed to parse script result: success is not a boolean".to_string()
        })
    );
    assert_eq!(
        parse_check_result("{}"),
        Err(Error::ClaimsCheck {
            message: "Failed to parse script result: success is not a boolean".to_string()
        })
    );
    assert_eq!(
        parse_check_result("{\"success\":true,\"display_name\":7}"),
        Err(Error::ClaimsCheck {
            message: "Failed to parse script result: display_name is not a string".to_string()
        })
    );
    assert_eq!(
        parse_check_result("{\"success\":true,\"picture\":[]}"),
        Err(Error::ClaimsCheck {
            message: "Failed to parse script result: picture is not a string".to_string()
        })
    );
    assert_eq!(
        parse_check_result("{\"success\":true,\"error\":{}}"),
        Err(Error::ClaimsCheck {
            message: "Failed to parse script result: error is not a string".to_string()
        })
    );
    assert_eq!(
        parse_check_result("not json"),
        Err(Error::ClaimsCheck {
            message: "Failed to parse script result: the result is not an object".to_string()
        })
    );
}

#[test]
fn default_display_name_follows_the_priority() {
    let all = "{\"sub\":\"s\",\"nickname\":\"n\",\"preferred_username\":\"p\",\"picture\":\"pic\"}";
    let r = default_claims_result(all);
    assert!(r.success);
    assert_eq!(r.display_name, Some("p".to_string()));
    assert_eq!(r.picture, Some("pic".to_string()));
    assert_eq!(r.claims, Some(all.to_string()));
    assert_eq!(r.error, None);
    assert_eq!(
        default_claims_result("{\"sub\":\"s\",\"nickname\":\"n\"}").display_name,
        Some("n".to_string())
    );
    assert_eq!(
        default_claims_result("{\"sub\":\"s\",\"nickname\":5,\"preferred_username\":null}").display_name,
        Some("s".to_string())
    );
    assert_eq!(default_claims_result("{}").display_name, Some("Unknown".to_string()));
    assert_eq!(default_claims_result("{}").picture, None);
    assert_eq!(default_claims_result("[]").display_name, Some("Unknown".to_string()));
    assert_eq!(
        check_claims(None, "{\"sub\":\"s\"}").unwrap().display_name,
        Some("s".to_string())
    );
    assert_eq!(
        check_claims(
            Some("export default function (c) { return { success: true, display_name: c.sub + '!' }; }"),
            "{\"sub\":\"s\"}"
        )
        .unwrap()
        .display_name,
        Some("s!".to_string())
    );
    let nameless = ClaimsCheckResult {
        success: true,
        display_name: None,
        picture: None,
        error: None,
        claims: None,
    };
    assert_eq!(display_name_of(&nameless), "Unknown");
}

#[test]
fn exports_are_rewritten() {
    assert_eq!(
        transform_script("export default function check(c) {}"),
        "__exports.default = function check(c) {}"
    );
    assert_eq!(
        transform_script("export default async function check(c) {}"),
        "__exports.default = async function check(c) {}"
    );
    assert_eq!(
        transform_script("const f = (c) => c;\nexport default f;\n"),
        "const f = (c) => c;\n__exports.default = f;\n"
    );
    assert_eq!(transform_script("function f() {}"), "function f() {}");
    assert_eq!(transform_script(""), "");
}

#[test]
fn typescript_is_stripped_of_types() {
    let source = "interface Claims { sub: string }\ntype CheckResult = any;\r\n  export interface X {}\nexport type Y = number;\nexport default function claimsCheck(claims: Claims, hint?: string): CheckResult {\n  const ok: boolean = true;\n  return { success: ok };\n}";
    assert_eq!(
        transpile_typescript(source),
        "/* skipped type */\n/* skipped type */\n/* skipped type */\n/* skipped type */\nexport default function claimsCheck(claims, hint) {\n  const ok = true;\n  return { success: ok };\n}\n"
    );
    assert_eq!(transpile_typescript(""), "");
    assert_eq!(transpile_typescript("a\n\nb\n"), "a\n\nb\n");
    assert_eq!(transpile_typescript("let e: Error;"), "let e;\n");
    assert_eq!(
        transpile_typescript("let typed = 1; // type here"),
        "let typed = 1; // type here\n"
    );
}

#[test]
fn typescript_is_recognised_by_its_extension() {
    assert!(is_typescript_path("check.ts"));
    assert!(is_typescript_path("/etc/policy/check.mts"));
    assert!(is_typescript_path(".ts"));
    assert!(!is_typescript_path("check.js"));
    assert!(!is_typescript_path("check.mjs"));
    assert!(!is_typescript_path("check.ts.bak"));
    assert!(!is_typescript_path("ts"));
    assert!(!is_typescript_path(""));
    assert_eq!(prepare_script("a.js", "let a: string;"), "let a: string;");
    assert_eq!(prepare_script("a.ts", "let a: string;"), "let a;\n");
}

#[test]
fn typescript_policy_runs_after_transpiling() {
    let source = "interface Claims { sub: string }\nexport default function claimsCheck(claims: Claims): CheckResult {\n  return { success: true, display_name: claims.sub };\n}\n";
    let script = prepare_script("policy.mts", source);
    let result = run_claims_check(&script, "{\"sub\":\"ada\"}").unwrap();
    assert_eq!(result.display_name, Some("ada".to_string()));
}

#[test]
fn program_embeds_claims_and_script() {
    assert_eq!(
        build_program("export default f;", "{\"a\":\"b'c\\\\\"}"),
        "var __claims = JSON.parse('{\"a\":\"b\\'c\\\\\\\\\"}');\nvar __exports = {};\n__exports.default = f;\nvar __fn = __exports.default;\nif (typeof __fn !== 'function') {\n    throw new Error('No default export found in the script');\n}\nvar __result = __fn(__claims);\nJSON.stringify(__result);\n"
    );
}
