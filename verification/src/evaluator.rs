//! The evaluation driver.  One call moves through three stages and never
//! revisits one: assembling (decode the inputs, trim the URL and hostname,
//! build the program text), executing (run the program with the two oracle
//! callables already registered), and finalizing (classify what came back
//! and flatten it into the single-string wire format).  The boundary entry
//! point wraps the driver in the handle protocol: three input regions in,
//! one packed output handle out.

use vstd::prelude::*;
use vstd::utf8::decode_utf8;
use vstd::utf8::encode_utf8;
use vstd::utf8::valid_utf8;

use crate::arena::Arena;
use crate::arena::OwnedBuf;
use crate::codec::bytes_to_text;
use crate::codec::pack;
use crate::codec::spec_pack;
use crate::engine::run_program;
use crate::outcome::EngineReply;
use crate::outcome::classify;
use crate::outcome::encode_outcome;
use crate::outcome::reply_output_spec;
use crate::text::assemble_program;

verus! {

/// Evaluates a PAC script: builds the program from the prelude, the user
/// script and an invocation of `FindProxyForURL` with the trimmed, escaped
/// URL and hostname, runs it with the `dnsResolve` and `myIpAddress`
/// callables registered beforehand, and normalizes the result.  Whatever
/// the engine did, the output is the wire encoding of exactly one
/// evaluation outcome: the returned string verbatim, or one of the two
/// reserved `!!`-prefixed failure forms.
pub fn eval_pac<F: Fn(String) -> String + Copy + 'static, G: Fn() -> String + Copy + 'static>(
    src: &str,
    url: &str,
    host: &str,
    prelude: &str,
    resolver: F,
    provider: G,
) -> (r: String)
    ensures
        exists|e: EngineReply| r@ == #[trigger] reply_output_spec(e),
{
    let program = assemble_program(prelude, src, url, host);
    let reply = run_program(program.as_str(), resolver, provider);
    let ghost ge = reply;
    let o = classify(reply);
    let out = encode_outcome(o);
    proof {
        assert(out@ == reply_output_spec(ge));
    }
    out
}

/// The boundary entry point: takes the script, URL and hostname as owned
/// regions of the arena, evaluates, and hands the output back as a fresh
/// region of the arena together with its packed handle.  The output region
/// holds the UTF-8 encoding of the wire-format string, appended after
/// everything already allocated, so every older handle stays valid.  `None`
/// comes back exactly when the output cannot be placed: the encoded result
/// would push the memory past the 32-bit address space.
pub fn evaluate<F: Fn(String) -> String + Copy + 'static, G: Fn() -> String + Copy + 'static>(
    arena: &mut Arena,
    script: &OwnedBuf,
    url: &OwnedBuf,
    host: &OwnedBuf,
    prelude: &str,
    resolver: F,
    provider: G,
) -> (r: Option<(u64, OwnedBuf)>)
    requires
        old(arena).wf(),
        old(arena).holds(script),
        old(arena).holds(url),
        old(arena).holds(host),
        valid_utf8(old(arena).region(script)),
        valid_utf8(old(arena).region(url)),
        valid_utf8(old(arena).region(host)),
    ensures
        final(arena).wf(),
        final(arena).holds(script) && final(arena).holds(url) && final(arena).holds(host),
        final(arena).region(script) == old(arena).region(script),
        final(arena).region(url) == old(arena).region(url),
        final(arena).region(host) == old(arena).region(host),
        r matches Some(h_out) ==> {
            &&& final(arena).holds(&h_out.1)
            &&& h_out.0 == spec_pack(h_out.1.spec_ptr(), h_out.1.spec_len())
            &&& final(arena).contents() == old(arena).contents() + final(arena).region(&h_out.1)
            &&& exists|e: EngineReply|
                {
                    &&& final(arena).region(&h_out.1) == encode_utf8(
                        #[trigger] reply_output_spec(e),
                    )
                    &&& decode_utf8(final(arena).region(&h_out.1)) == reply_output_spec(e)
                }
        },
        r is None ==> {
            &&& final(arena).contents() == old(arena).contents()
            &&& exists|e: EngineReply|
                old(arena).contents().len() + encode_utf8(#[trigger] reply_output_spec(e)).len()
                    > u32::MAX
        },
{
    let script_bytes = arena.read(script.ptr(), script.len());
    let url_bytes = arena.read(url.ptr(), url.len());
    let host_bytes = arena.read(host.ptr(), host.len());
    let script_text = match bytes_to_text(script_bytes) {
        Some(s) => s,
        None => {
            proof {
                assert(false);
            }
            String::new()
        },
    };
    let url_text = match bytes_to_text(url_bytes) {
        Some(s) => s,
        None => {
            proof {
                assert(false);
            }
            String::new()
        },
    };
    let host_text = match bytes_to_text(host_bytes) {
        Some(s) => s,
        None => {
            proof {
                assert(false);
            }
            String::new()
        },
    };
    let out_str = eval_pac(
        script_text.as_str(),
        url_text.as_str(),
        host_text.as_str(),
        prelude,
        resolver,
        provider,
    );
    let ghost e = choose|e: EngineReply| out_str@ == reply_output_spec(e);
    let out_bytes = out_str.as_str().as_bytes_vec();
    let cur = arena.size();
    if out_bytes.len() <= (u32::MAX - cur) as usize {
        let out_len = out_bytes.len() as u32;
        let buf = arena.reserve(out_len);
        arena.write(&buf, &out_bytes);
        proof {
            assert(arena.region(&buf) == encode_utf8(reply_output_spec(e)));
            crate::codec::lemma_decode_of_encoding(reply_output_spec(e), arena.region(&buf));
            assert(arena.contents() =~= old(arena).contents() + arena.region(&buf));
        }
        let h = pack(buf.ptr(), buf.len());
        Some((h, buf))
    } else {
        None
    }
}

} // verus!
