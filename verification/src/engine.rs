//! The bridge to the embedded script engine.  Everything the engine itself
//! does — parsing, executing, rendering values — is outside this crate's
//! reasoning; each call into it stands behind a trusted declaration here.
//! The two network-introspection callables are registered as globals before
//! any user code runs, and their replies pass through the verified
//! [`crate::oracle::oracle_response`] mapping.

use vstd::prelude::*;

use crate::oracle::oracle_response;
use crate::outcome::EngineReply;

verus! {

/// The script engine's execution context (`boa_engine::Context`), opaque to
/// this crate's reasoning.
#[verifier::external_type_specification]
#[verifier::external_body]
pub struct ExContext(boa_engine::Context);

/// A script-native value (`boa_engine::JsValue`), opaque to this crate's
/// reasoning.
#[verifier::external_type_specification]
#[verifier::external_body]
pub struct ExJsValue(boa_engine::JsValue);

/// A script-level error (`boa_engine::JsError`), opaque to this crate's
/// reasoning.
#[verifier::external_type_specification]
#[verifier::external_body]
pub struct ExJsError(boa_engine::JsError);

/// Relies on `boa_engine::Context::default`: a fresh execution context with
/// an untouched global environment.
#[verifier::external_body]
fn new_context() -> boa_engine::Context {
    boa_engine::Context::default()
}

/// Relies on `boa_engine::Context::register_global_builtin_callable` and
/// `boa_engine::NativeFunction::from_copy_closure`: installs `dnsResolve`
/// as a global one-argument callable.  On a string argument the callable
/// consults `resolver` and maps its reply through the verified
/// [`oracle_response`]; on any other argument it returns the absence value
/// without consulting the resolver.  Registration on a fresh context does
/// not fail; were it ever refused, the callable would simply be missing and
/// the script's call to it would surface as a runtime-error outcome rather
/// than a crash.
#[verifier::external_body]
fn register_dns_resolve<F: Fn(String) -> String + Copy + 'static>(
    ctx: &mut boa_engine::Context,
    resolver: F,
) {
    let fun = boa_engine::NativeFunction::from_copy_closure(move |_, args, _| {
        Ok(match args.first().and_then(boa_engine::JsValue::as_string) {
            Some(h) => match oracle_response(resolver(h.to_std_string_escaped())) {
                Some(s) => boa_engine::JsValue::from(boa_engine::JsString::from(s.as_str())),
                None => boa_engine::JsValue::null(),
            },
            None => boa_engine::JsValue::null(),
        })
    });
    let _ = ctx.register_global_builtin_callable(boa_engine::JsString::from("dnsResolve"), 1, fun);
}

/// Relies on `boa_engine::Context::register_global_builtin_callable` and
/// `boa_engine::NativeFunction::from_copy_closure`: installs `myIpAddress`
/// as a global zero-argument callable whose reply comes from `provider`
/// through the verified [`oracle_response`] mapping.  As with `dnsResolve`,
/// a refused registration would surface as a runtime-error outcome, never a
/// crash.
#[verifier::external_body]
fn register_my_ip_address<G: Fn() -> String + Copy + 'static>(
    ctx: &mut boa_engine::Context,
    provider: G,
) {
    let fun = boa_engine::NativeFunction::from_copy_closure(move |_, _, _| {
        Ok(match oracle_response(provider()) {
            Some(s) => boa_engine::JsValue::from(boa_engine::JsString::from(s.as_str())),
            None => boa_engine::JsValue::null(),
        })
    });
    let _ = ctx.register_global_builtin_callable(boa_engine::JsString::from("myIpAddress"), 0, fun);
}

/// Relies on `boa_engine::Context::eval`: parses and runs the program text
/// in the context, returning its completion value, or the error — syntax
/// error, thrown exception, missing entry point — it ended with.
#[verifier::external_body]
fn eval_source(ctx: &mut boa_engine::Context, program: &str) -> Result<
    boa_engine::JsValue,
    boa_engine::JsError,
> {
    ctx.eval(boa_engine::Source::from_bytes(program))
}

/// Relies on `boa_engine::JsValue::as_string` to tell a string completion
/// from any other, on `boa_string::JsString::to_std_string_escaped`,
/// `boa_engine::JsValue::display` and `boa_engine::JsValue::type_of` to
/// render values, and on `boa_engine::JsError`'s `Display` to render
/// errors.  The reply is `Failed` exactly when evaluation returned an error.
#[verifier::external_body]
fn reply_of(r: Result<boa_engine::JsValue, boa_engine::JsError>) -> (e: EngineReply)
    ensures
        e is Failed <==> r is Err,
{
    match r {
        Ok(v) => match v.as_string() {
            Some(s) => EngineReply::StringValue(s.to_std_string_escaped()),
            None => EngineReply::OtherValue(v.display().to_string(), v.type_of().to_string()),
        },
        Err(err) => EngineReply::Failed(err.to_string()),
    }
}

/// Runs the assembled program in a fresh context in which both oracle
/// callables are registered before any user code, and converts what came
/// back — whatever it was — into a plain-text reply.
pub fn run_program<F: Fn(String) -> String + Copy + 'static, G: Fn() -> String + Copy + 'static>(
    program: &str,
    resolver: F,
    provider: G,
) -> EngineReply {
    let mut ctx = new_context();
    register_dns_resolve(&mut ctx, resolver);
    register_my_ip_address(&mut ctx, provider);
    let r = eval_source(&mut ctx, program);
    reply_of(r)
}

} // verus!
