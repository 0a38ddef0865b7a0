//! Crash classification and content-addressed crash artifact naming.
//!
//! A target termination counts as a crash exactly when the process died from
//! the designated fatal signal (segmentation violation). A crash-triggering
//! input is persisted under a name derived from the SHA-256 digest of its
//! bytes, so byte-identical inputs always map to the same file name and a
//! create-if-absent write stores each distinct crash input once.

use vstd::prelude::*;

verus! {

/// The signal number whose delivery classifies a termination as a crash
/// (segmentation violation on the reference platform).
pub const FATAL_SIGNAL: i32 = 11;

/// How the target process ended: a normal exit with a code, or death by a
/// signal.
#[derive(Debug, PartialEq, Eq, Structural, Clone, Copy)]
pub enum Outcome {
    /// The process exited normally with the given exit code.
    Exited(i32),
    /// The process was terminated by the given signal number.
    Signaled(i32),
}

/// An outcome is a crash exactly when the terminating signal is the fatal
/// one; every exit code and every other signal is not a crash.
pub open spec fn is_crash(o: Outcome) -> bool {
    match o {
        Outcome::Exited(_) => false,
        Outcome::Signaled(sig) => sig == FATAL_SIGNAL,
    }
}

/// Classifies a termination outcome.
pub fn classify(o: &Outcome) -> (r: bool)
    ensures
        r == is_crash(*o),
{
    match o {
        Outcome::Exited(_) => false,
        Outcome::Signaled(sig) => *sig == FATAL_SIGNAL,
    }
}

/// The SHA-256 digest of a byte string, as the outside hash routine computes
/// it: a pure function of the input bytes.
pub uninterp spec fn sha256_of(input: Seq<u8>) -> Seq<u8>;

/// Relies on sha2::Sha256 through digest::Digest::digest: the 32-byte digest
/// depends on the input bytes alone.
#[verifier::external_body]
fn sha256(input: &Vec<u8>) -> (r: Vec<u8>)
    ensures
        r@ == sha256_of(input@),
        r@.len() == 32,
{
    <sha2::Sha256 as sha2::Digest>::digest(input.as_slice()).as_slice().to_vec()
}

/// The lower-case hexadecimal digit for a value below 16, as a byte of ASCII
/// text.
pub open spec fn hex_digit(n: u8) -> u8
    recommends
        n < 16,
{
    if n < 10 {
        (48 + n) as u8
    } else {
        (87 + n) as u8
    }
}

/// The lower-case hexadecimal spelling of a byte string, two digits per byte.
pub open spec fn hex_of(bs: Seq<u8>) -> Seq<u8>
    decreases bs.len(),
{
    if bs.len() == 0 {
        Seq::empty()
    } else {
        hex_of(bs.drop_last()) + seq![hex_digit(bs.last() / 16), hex_digit(bs.last() % 16)]
    }
}

/// The ASCII bytes of the prefix that marks a persisted file as a crash
/// artifact: the text `crash_`.
pub open spec fn crash_prefix() -> Seq<u8> {
    seq![99u8, 114u8, 97u8, 115u8, 104u8, 95u8]
}

/// The file name under which a crash-triggering input is persisted: the
/// crash prefix followed by the hexadecimal SHA-256 digest of the input.
pub open spec fn crash_name_spec(input: Seq<u8>) -> Seq<u8> {
    crash_prefix() + hex_of(sha256_of(input))
}

/// Byte-identical crash inputs always map to the same artifact name, so with
/// create-if-absent persistence a repeated crash input leaves exactly one
/// file behind.
pub proof fn lemma_equal_inputs_same_name(a: Seq<u8>, b: Seq<u8>)
    requires
        a == b,
    ensures
        crash_name_spec(a) == crash_name_spec(b),
{
}

/// The exec counterpart of `hex_digit`.
fn hex_digit_exec(n: u8) -> (r: u8)
    requires
        n < 16,
    ensures
        r == hex_digit(n),
{
    if n < 10 {
        48 + n
    } else {
        87 + n
    }
}

/// Derives the artifact file name (as ASCII bytes) for a crash-triggering
/// input: `crash_` followed by the 64 hex digits of the input's SHA-256
/// digest.
pub fn crash_artifact_name(input: &Vec<u8>) -> (r: Vec<u8>)
    ensures
        r@ == crash_name_spec(input@),
{
    let digest = sha256(input);
    let mut out: Vec<u8> = Vec::new();
    out.push(99);
    out.push(114);
    out.push(97);
    out.push(115);
    out.push(104);
    out.push(95);
    proof {
        assert(out@ =~= crash_prefix());
        assert(digest@.take(0) =~= Seq::<u8>::empty());
        assert(out@ =~= crash_prefix() + hex_of(digest@.take(0)));
    }
    let mut i: usize = 0;
    while i < digest.len()
        invariant
            i <= digest@.len(),
            out@ == crash_prefix() + hex_of(digest@.take(i as int)),
            digest@ == sha256_of(input@),
        decreases digest@.len() - i,
    {
        let ghost pre = out@;
        let byte = digest[i];
        out.push(hex_digit_exec(byte / 16));
        out.push(hex_digit_exec(byte % 16));
        proof {
            assert(digest@.take(i + 1).drop_last() =~= digest@.take(i as int));
            assert(digest@.take(i + 1).last() == digest@[i as int]);
            assert(out@ =~= pre + seq![
                hex_digit(digest@[i as int] / 16),
                hex_digit(digest@[i as int] % 16),
            ]);
            assert(out@ =~= crash_prefix() + hex_of(digest@.take(i + 1)));
        }
        i += 1;
    }
    proof {
        assert(digest@.take(digest@.len() as int) =~= digest@);
    }
    out
}

} // verus!
