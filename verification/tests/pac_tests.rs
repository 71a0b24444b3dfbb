use pac_mod::eval_pac;

fn no_dns(_host: String) -> String {
    String::new()
}

fn no_ip() -> String {
    String::new()
}

#[test]
fn returns_proxy_directive_verbatim() {
    let script = "function FindProxyForURL(u,h){return \"PROXY 1.2.3.4:8080\";}";
    let out = eval_pac(script, "http://example.com/", "example.com", "", no_dns, no_ip);
    assert_eq!(out, "PROXY 1.2.3.4:8080");
}

#[test]
fn returns_computed_string() {
    let script = "function FindProxyForURL(u,h){return \"DIRECT;\" + h;}";
    let out = eval_pac(script, "http://a.example/", "a.example", "", no_dns, no_ip);
    assert_eq!(out, "DIRECT;a.example");
}

#[test]
fn empty_string_result_stays_empty() {
    let script = "function FindProxyForURL(u,h){return \"\";}";
    let out = eval_pac(script, "http://example.com/", "example.com", "", no_dns, no_ip);
    assert_eq!(out, "");
}

#[test]
fn non_string_result_is_wrong_type() {
    let script = "function FindProxyForURL(u,h){return 42;}";
    let out = eval_pac(script, "http://example.com/", "example.com", "", no_dns, no_ip);
    assert!(out.starts_with("!!Wrong type: "));
    assert!(out.contains("42"));
    assert!(out.contains("number"));
}

#[test]
fn undefined_result_is_wrong_type() {
    let script = "function FindProxyForURL(u,h){}";
    let out = eval_pac(script, "http://example.com/", "example.com", "", no_dns, no_ip);
    assert!(out.starts_with("!!Wrong type: "));
}

#[test]
fn throwing_script_is_uncaught() {
    let script = "function FindProxyForURL(u,h){return undefinedVar.x;}";
    let out = eval_pac(script, "http://example.com/", "example.com", "", no_dns, no_ip);
    assert!(out.starts_with("!!Uncaught "));
}

#[test]
fn missing_entry_point_is_uncaught() {
    let script = "var unrelated = 1;";
    let out = eval_pac(script, "http://example.com/", "example.com", "", no_dns, no_ip);
    assert!(out.starts_with("!!Uncaught "));
}

#[test]
fn syntax_error_is_uncaught() {
    let script = "function FindProxyForURL(u,h{return 1;}";
    let out = eval_pac(script, "http://example.com/", "example.com", "", no_dns, no_ip);
    assert!(out.starts_with("!!Uncaught "));
}

fn fixed_dns(host: String) -> String {
    if host == "known.example" {
        String::from("1.2.3.4")
    } else {
        String::new()
    }
}

fn always_answer(_host: String) -> String {
    String::from("9.9.9.9")
}

fn fixed_ip() -> String {
    String::from("10.0.0.7")
}

#[test]
fn dns_resolve_returns_resolved_address() {
    let script = "function FindProxyForURL(u,h){var a = dnsResolve(h); return a === null ? \"NULL\" : a;}";
    let out = eval_pac(script, "http://known.example/", "known.example", "", fixed_dns, no_ip);
    assert_eq!(out, "1.2.3.4");
}

#[test]
fn dns_resolve_empty_answer_is_null() {
    let script = "function FindProxyForURL(u,h){var a = dnsResolve(h); return a === null ? \"NULL\" : a;}";
    let out = eval_pac(script, "http://other.example/", "other.example", "", fixed_dns, no_ip);
    assert_eq!(out, "NULL");
}

#[test]
fn dns_resolve_non_string_argument_is_null() {
    let script = "function FindProxyForURL(u,h){return dnsResolve(42) === null ? \"OK\" : \"BAD\";}";
    let out = eval_pac(script, "http://example.com/", "example.com", "", always_answer, no_ip);
    assert_eq!(out, "OK");
}

#[test]
fn my_ip_address_returns_local_address() {
    let script = "function FindProxyForURL(u,h){var a = myIpAddress(); return a === null ? \"NULL\" : a;}";
    let out = eval_pac(script, "http://example.com/", "example.com", "", no_dns, fixed_ip);
    assert_eq!(out, "10.0.0.7");
}

#[test]
fn my_ip_address_empty_answer_is_null() {
    let script = "function FindProxyForURL(u,h){var a = myIpAddress(); return a === null ? \"NULL\" : a;}";
    let out = eval_pac(script, "http://example.com/", "example.com", "", no_dns, no_ip);
    assert_eq!(out, "NULL");
}

#[test]
fn url_and_host_are_trimmed_before_the_call() {
    let script = "function FindProxyForURL(u,h){return \"u=[\" + u + \"] h=[\" + h + \"]\";}";
    let out = eval_pac(
        script,
        "  http://example.com/  ",
        "\t example.com \n",
        "",
        no_dns,
        no_ip,
    );
    assert_eq!(out, "u=[http://example.com/] h=[example.com]");
}

#[test]
fn quotes_and_backslashes_in_arguments_survive_escaping() {
    let script = "function FindProxyForURL(u,h){return u + \"|\" + h;}";
    let out = eval_pac(script, "a\"b\\c", "d\ne", "", no_dns, no_ip);
    assert_eq!(out, "a\"b\\c|d\ne");
}

#[test]
fn injection_through_arguments_does_not_escape_the_literal() {
    // an argument that would, unescaped, close the literal and call something else
    let script = "function FindProxyForURL(u,h){return h;}";
    let host = "\");FindProxyForURL(\"x\",\"y";
    let out = eval_pac(script, "http://example.com/", host, "", no_dns, no_ip);
    assert_eq!(out, host);
}

#[test]
fn prelude_is_injected_before_the_script() {
    let prelude = "function helperValue(){return \"FROM PRELUDE\";}";
    let script = "function FindProxyForURL(u,h){return helperValue();}";
    let out = eval_pac(script, "http://example.com/", "example.com", prelude, no_dns, no_ip);
    assert_eq!(out, "FROM PRELUDE");
}

#[test]
fn object_result_is_wrong_type() {
    let script = "function FindProxyForURL(u,h){return {p: 1};}";
    let out = eval_pac(script, "http://example.com/", "example.com", "", no_dns, no_ip);
    assert!(out.starts_with("!!Wrong type: "));
    assert!(out.contains("object"));
}

#[test]
fn boolean_result_is_wrong_type() {
    let script = "function FindProxyForURL(u,h){return true;}";
    let out = eval_pac(script, "http://example.com/", "example.com", "", no_dns, no_ip);
    assert!(out.starts_with("!!Wrong type: "));
    assert!(out.contains("true"));
    assert!(out.contains("boolean"));
}

#[test]
fn non_ascii_arguments_survive_the_round_trip() {
    let script = "function FindProxyForURL(u,h){return h;}";
    let out = eval_pac(script, "http://xn--mnchen-3ya.example/", " münchen.example ", "", no_dns, no_ip);
    assert_eq!(out, "münchen.example");
}

#[test]
fn oracles_and_prelude_work_together() {
    let prelude = "function pick(a,b){return a === null ? b : a;}";
    let script = "function FindProxyForURL(u,h){return pick(dnsResolve(h), \"none\") + \"/\" + pick(myIpAddress(), \"none\");}";
    let out = eval_pac(script, "http://known.example/", "known.example", prelude, fixed_dns, fixed_ip);
    assert_eq!(out, "1.2.3.4/10.0.0.7");
}
