use pac_mod::arena::Arena;
use pac_mod::arena::OwnedBuf;
use pac_mod::codec::pack;
use pac_mod::codec::unpack;
use pac_mod::evaluate;
use pac_mod::oracle::oracle_response;
use pac_mod::outcome::EngineReply;
use pac_mod::outcome::Outcome;
use pac_mod::outcome::classify;
use pac_mod::outcome::encode_outcome;
use pac_mod::text::js_literal;
use pac_mod::text::trim_text;

#[test]
fn pack_puts_pointer_high_and_length_low() {
    assert_eq!(pack(1, 2), (1u64 << 32) | 2u64);
    assert_eq!(pack(0, 0), 0);
    assert_eq!(pack(0xffff_ffff, 0xffff_ffff), 0xffff_ffff_ffff_ffff);
}

#[test]
fn unpack_inverts_pack() {
    for &(p, l) in &[(0u32, 0u32), (1, 2), (7, 0), (0, 9), (0xffff_ffff, 5), (123456, 0xffff_ffff)] {
        assert_eq!(unpack(pack(p, l)), (p, l));
    }
    assert_eq!(pack(unpack(0xdead_beef_cafe_f00du64).0, unpack(0xdead_beef_cafe_f00du64).1),
        0xdead_beef_cafe_f00du64);
}

#[test]
fn reserve_zero_fills_and_write_read_round_trips() {
    let mut a = Arena::new();
    let buf = a.reserve(4);
    assert_eq!(buf.ptr(), 0);
    assert_eq!(buf.len(), 4);
    assert_eq!(a.read(0, 4), vec![0u8, 0, 0, 0]);
    a.write(&buf, &vec![9u8, 8, 7, 6]);
    assert_eq!(a.read(0, 4), vec![9u8, 8, 7, 6]);
    let second = a.reserve(2);
    assert_eq!(second.ptr(), 4);
    assert_eq!(a.size(), 6);
    // older regions keep their bytes
    assert_eq!(a.read(0, 4), vec![9u8, 8, 7, 6]);
    a.release(buf, 4);
    a.release(second, 2);
}

fn place(a: &mut Arena, text: &str) -> OwnedBuf {
    let bytes = text.as_bytes().to_vec();
    let buf = a.reserve(bytes.len() as u32);
    a.write(&buf, &bytes);
    buf
}

fn no_dns(_host: String) -> String {
    String::new()
}

fn no_ip() -> String {
    String::new()
}

#[test]
fn evaluate_round_trips_through_the_arena() {
    let mut a = Arena::new();
    let script = place(&mut a, "function FindProxyForURL(u,h){return \"PROXY 1.2.3.4:8080\";}");
    let url = place(&mut a, "http://example.com/");
    let host = place(&mut a, "example.com");
    let (handle, out) = evaluate(&mut a, &script, &url, &host, "", no_dns, no_ip).unwrap();
    let (ptr, len) = unpack(handle);
    assert_eq!(ptr, out.ptr());
    assert_eq!(len, out.len());
    let bytes = a.read(ptr, len);
    assert_eq!(String::from_utf8(bytes).unwrap(), "PROXY 1.2.3.4:8080");
    let sizes = (script.len(), url.len(), host.len(), out.len());
    a.release(script, sizes.0);
    a.release(url, sizes.1);
    a.release(host, sizes.2);
    a.release(out, sizes.3);
}

#[test]
fn classify_and_encode_follow_the_wire_contract() {
    let ok = classify(EngineReply::StringValue(String::from("DIRECT")));
    assert_eq!(encode_outcome(ok), "DIRECT");
    let empty = classify(EngineReply::StringValue(String::new()));
    assert_eq!(encode_outcome(empty), "");
    let mismatch = classify(EngineReply::OtherValue(String::from("42"), String::from("number")));
    assert_eq!(encode_outcome(mismatch), "!!Wrong type: 42 (number)");
    let failed = classify(EngineReply::Failed(String::from("boom")));
    assert_eq!(encode_outcome(failed), "!!Uncaught boom");
    assert_eq!(
        encode_outcome(Outcome::TypeMismatch(String::from("d"))),
        "!!Wrong type: d"
    );
}

#[test]
fn oracle_response_maps_empty_to_absence() {
    assert_eq!(oracle_response(String::new()), None);
    assert_eq!(oracle_response(String::from("1.2.3.4")), Some(String::from("1.2.3.4")));
}

#[test]
fn trim_removes_edge_whitespace_exactly_once() {
    assert_eq!(trim_text("  a b \t\n"), "a b");
    assert_eq!(trim_text(" \t \n "), "");
    assert_eq!(trim_text("plain"), "plain");
    assert_eq!(trim_text("\u{3000}wide\u{2028}"), "wide");
    assert_eq!(trim_text("inner space kept  "), "inner space kept");
}

#[test]
fn js_literal_escapes_exactly() {
    assert_eq!(js_literal("plain"), "\"plain\"");
    assert_eq!(js_literal("a\"b\\c\nx"), "\"a\\\"b\\\\c\\nx\"");
    assert_eq!(js_literal("\r\t"), "\"\\r\\t\"");
    assert_eq!(js_literal("\u{1}\u{1f}"), "\"\\u0001\\u001f\"");
    assert_eq!(js_literal("\u{2028}\u{2029}"), "\"\\u2028\\u2029\"");
    assert_eq!(js_literal(""), "\"\"");
}

#[test]
fn evaluate_trims_boundary_inputs() {
    let mut a = Arena::new();
    let script = place(&mut a, "function FindProxyForURL(u,h){return u + \"|\" + h;}");
    let url = place(&mut a, "  http://example.com/ ");
    let host = place(&mut a, "\texample.com\n");
    let (handle, out) = evaluate(&mut a, &script, &url, &host, "", no_dns, no_ip).unwrap();
    let (ptr, len) = unpack(handle);
    let bytes = a.read(ptr, len);
    assert_eq!(String::from_utf8(bytes).unwrap(), "http://example.com/|example.com");
    let sizes = (script.len(), url.len(), host.len(), out.len());
    a.release(script, sizes.0);
    a.release(url, sizes.1);
    a.release(host, sizes.2);
    a.release(out, sizes.3);
}
