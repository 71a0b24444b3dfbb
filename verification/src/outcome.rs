//! Classification and encoding of an evaluation's result.  Each run of a
//! script produces exactly one outcome — the entry point returned a string,
//! it returned a value of some other type, or execution failed — and the
//! outcome is flattened into a single output string whose two reserved
//! prefixes are part of the wire contract.

use vstd::prelude::*;

verus! {

/// What the script engine handed back, already converted to plain text:
/// the returned string, or a rendering of a non-string value together with
/// the name of its type, or the rendering of the error execution ended with.
pub enum EngineReply {
    StringValue(String),
    OtherValue(String, String),
    Failed(String),
}

/// The tagged result of running the script.  Exactly one variant is
/// produced per evaluation.
pub enum Outcome {
    Success(String),
    TypeMismatch(String),
    RuntimeError(String),
}

/// The description carried by a type mismatch: the value's rendering
/// followed by its type name in parentheses.
pub open spec fn mismatch_desc_spec(rendering: Seq<char>, ty: Seq<char>) -> Seq<char> {
    rendering + " ("@ + ty + ")"@
}

/// The single-string wire format: success text verbatim (an empty string
/// stays the empty representation), and the two reserved `!!` prefixes for
/// the failure outcomes.
pub open spec fn encode_outcome_spec(o: Outcome) -> Seq<char> {
    match o {
        Outcome::Success(t) => t@,
        Outcome::TypeMismatch(d) => "!!Wrong type: "@ + d@,
        Outcome::RuntimeError(d) => "!!Uncaught "@ + d@,
    }
}

/// The output string that a given engine reply must produce, end to end.
pub open spec fn reply_output_spec(e: EngineReply) -> Seq<char> {
    match e {
        EngineReply::StringValue(s) => s@,
        EngineReply::OtherValue(rendering, ty) => "!!Wrong type: "@ + mismatch_desc_spec(
            rendering@,
            ty@,
        ),
        EngineReply::Failed(d) => "!!Uncaught "@ + d@,
    }
}

/// Classifies the engine's reply: a string value is a success, any other
/// value is a type mismatch described by its rendering and type, and a
/// failure is a runtime error carrying the error's rendering.
pub fn classify(e: EngineReply) -> (o: Outcome)
    ensures
        match e {
            EngineReply::StringValue(s) => o == Outcome::Success(s),
            EngineReply::OtherValue(rendering, ty) => o matches Outcome::TypeMismatch(d)
                && d@ == mismatch_desc_spec(rendering@, ty@),
            EngineReply::Failed(d) => o == Outcome::RuntimeError(d),
        },
{
    match e {
        EngineReply::StringValue(s) => Outcome::Success(s),
        EngineReply::OtherValue(rendering, ty) => {
            let mut d = rendering;
            d.append(" (");
            d.append(ty.as_str());
            d.append(")");
            Outcome::TypeMismatch(d)
        },
        EngineReply::Failed(d) => Outcome::RuntimeError(d),
    }
}

/// Flattens an outcome into the output string of the wire contract.
pub fn encode_outcome(o: Outcome) -> (r: String)
    ensures
        r@ == encode_outcome_spec(o),
{
    match o {
        Outcome::Success(t) => t,
        Outcome::TypeMismatch(d) => {
            let mut r = String::from_str("!!Wrong type: ");
            r.append(d.as_str());
            r
        },
        Outcome::RuntimeError(d) => {
            let mut r = String::from_str("!!Uncaught ");
            r.append(d.as_str());
            r
        },
    }
}

/// A successful outcome is encoded verbatim: the output is exactly the
/// string the entry point returned, and an empty string stays empty.
pub proof fn lemma_success_verbatim(t: String)
    ensures
        encode_outcome_spec(Outcome::Success(t)) == t@,
        t@.len() == 0 ==> encode_outcome_spec(Outcome::Success(t)).len() == 0,
{
}

/// A type mismatch is encoded with the reserved prefix, followed by the
/// value's rendering and its type: the output begins with `!!Wrong type: `
/// and carries both parts of the description after it.
pub proof fn lemma_wrong_type_prefix(rendering: String, ty: String)
    ensures
        ({
            let out = reply_output_spec(EngineReply::OtherValue(rendering, ty));
            &&& out.len() >= 14
            &&& out.subrange(0, 14) == "!!Wrong type: "@
            &&& out.subrange(14, 14 + rendering@.len() as int) == rendering@
        }),
{
    reveal_strlit("!!Wrong type: ");
    let out = reply_output_spec(EngineReply::OtherValue(rendering, ty));
    assert(out.subrange(0, 14) =~= "!!Wrong type: "@);
    assert(out.subrange(14, 14 + rendering@.len() as int) =~= rendering@);
}

/// A runtime error is encoded with the reserved prefix: the output begins
/// with `!!Uncaught ` and carries the error's rendering after it.
pub proof fn lemma_uncaught_prefix(d: String)
    ensures
        ({
            let out = encode_outcome_spec(Outcome::RuntimeError(d));
            &&& out.len() == 11 + d@.len()
            &&& out.subrange(0, 11) == "!!Uncaught "@
            &&& out.subrange(11, out.len() as int) == d@
        }),
{
    reveal_strlit("!!Uncaught ");
    let out = encode_outcome_spec(Outcome::RuntimeError(d));
    assert(out.subrange(0, 11) =~= "!!Uncaught "@);
    assert(out.subrange(11, out.len() as int) =~= d@);
}

} // verus!
