//! The decisions taken around the prover's C interface: texts read out of the
//! buffers that the prover fills, the sizes of those buffers, and the single retry
//! when the prover reports them too short.

use vstd::prelude::*;
use vstd::utf8::{decode_utf8, encode_scalar, valid_utf8};
use vstd::slice::{slice_subrange, slice_to_vec};

verus! {

/// Status returned by the prover on success.
pub const PROVER_OK: i32 = 0;

/// Status returned by the prover when an output buffer is too short.
pub const PROVER_ERROR_SHORT_BUFFER: i32 = 2;

/// Status returned by the verifier when it could not check the proof.
pub const VERIFIER_ERROR: i32 = 2;

/// Size of the buffer that receives the prover's error message.
pub const ERROR_MESSAGE_BUFFER_SIZE: usize = 256;

/// Size of each output buffer when proving from a zkey file.
pub const ZKEY_FILE_OUTPUT_BUFFER_SIZE: usize = 4 * 1024 * 1024;

/// A proof and its public signals, both as JSON text.
#[derive(Debug)]
pub struct ProofResult {
    pub proof: String,
    pub public_signals: String,
}

/// Why proving or verifying failed.
#[derive(Debug)]
pub enum ProverError {
    /// A size reported for the buffer `name` does not fit in `usize`.
    BufferTooLarge { name: String },
    /// A size reported for the buffer `name`, plus one for the terminating NUL,
    /// does not fit in `u64`.
    BufferSizeOverflow { name: String },
    /// The prover reported more output for `name` than its buffer holds.
    OutputExceedsBuffer { name: String, size: usize, buffer_len: usize },
    /// The output for `name` is not UTF-8: the longest valid prefix is
    /// `valid_up_to` bytes, and `error_len` is the length of the invalid sequence
    /// that follows, or `None` where the input ends inside a sequence.
    OutputNotUtf8 { name: String, valid_up_to: usize, error_len: Option<usize> },
    /// The prover could not tell the size of the public signals.
    PublicSizeFailed { message: String },
    /// The prover failed.
    ProofGenerationFailed { message: String },
    /// The verifier could not check the proof.
    VerificationFailed { message: String },
}

/// The character of a decimal digit `d < 10`.
pub open spec fn digit_char(d: nat) -> char {
    ('0' as int + d) as char
}

/// The decimal digits of `n`, most significant first, without leading zeros.
pub open spec fn decimal_text(n: nat) -> Seq<char>
    decreases n,
{
    if n < 10 {
        seq![digit_char(n)]
    } else {
        decimal_text(n / 10).push(digit_char(n % 10))
    }
}

/// The one-character text of a decimal digit `d < 10`.
fn digit_str(d: usize) -> (r: &'static str)
    requires
        d < 10,
    ensures
        r@ == seq![digit_char(d as nat)],
{
    proof {
        reveal_strlit("0");
        reveal_strlit("1");
        reveal_strlit("2");
        reveal_strlit("3");
        reveal_strlit("4");
        reveal_strlit("5");
        reveal_strlit("6");
        reveal_strlit("7");
        reveal_strlit("8");
        reveal_strlit("9");
    }
    match d {
        0 => "0",
        1 => "1",
        2 => "2",
        3 => "3",
        4 => "4",
        5 => "5",
        6 => "6",
        7 => "7",
        8 => "8",
        _ => "9",
    }
}

/// The decimal digits of `n`, most significant first, without leading zeros: the
/// text that `usize`'s `Display` gives.
fn decimal_string(n: usize) -> (r: String)
    ensures
        r@ == decimal_text(n as nat),
    decreases n,
{
    if n < 10 {
        digit_str(n).to_owned()
    } else {
        let r = decimal_string(n / 10).concat(digit_str(n % 10));
        assert(r@ =~= decimal_text((n / 10) as nat).push(digit_char((n % 10) as nat)));
        r
    }
}

impl ProverError {
    /// The text that reports this error.
    pub open spec fn text(&self) -> Seq<char> {
        match self {
            ProverError::BufferTooLarge { name } => name@ + " buffer size is too large"@,
            ProverError::BufferSizeOverflow { name } => name@ + " buffer size overflowed"@,
            ProverError::OutputExceedsBuffer { name, size, buffer_len } => name@ + " output size "@
                + decimal_text(*size as nat) + " exceeds buffer size "@ + decimal_text(
                *buffer_len as nat,
            ),
            ProverError::OutputNotUtf8 { name, valid_up_to, error_len } => match error_len {
                Some(n) => name@ + " output is not valid UTF-8: invalid utf-8 sequence of "@
                    + decimal_text(*n as nat) + " bytes from index "@ + decimal_text(
                    *valid_up_to as nat,
                ),
                None => name@ + " output is not valid UTF-8: incomplete utf-8 byte sequence from index "@
                    + decimal_text(*valid_up_to as nat),
            },
            ProverError::PublicSizeFailed { message } => "Public signal buffer size calculation failed: "@
                + message@,
            ProverError::ProofGenerationFailed { message } => "Proof generation failed: "@ + message@,
            ProverError::VerificationFailed { message } => "Proof verification failed: "@ + message@,
        }
    }

    /// The text that reports this error.
    pub fn message(&self) -> (r: String)
        ensures
            r@ == self.text(),
    {
        match self {
            ProverError::BufferTooLarge { name } => name.clone().concat(" buffer size is too large"),
            ProverError::BufferSizeOverflow { name } => name.clone().concat(" buffer size overflowed"),
            ProverError::OutputExceedsBuffer { name, size, buffer_len } => {
                let size_text = decimal_string(*size);
                let len_text = decimal_string(*buffer_len);
                name.clone().concat(" output size ").concat(size_text.as_str()).concat(
                    " exceeds buffer size ",
                ).concat(len_text.as_str())
            },
            ProverError::OutputNotUtf8 { name, valid_up_to, error_len } => {
                let index_text = decimal_string(*valid_up_to);
                match error_len {
                    Some(n) => {
                        let len_text = decimal_string(*n);
                        name.clone().concat(
                            " output is not valid UTF-8: invalid utf-8 sequence of ",
                        ).concat(len_text.as_str()).concat(" bytes from index ").concat(
                            index_text.as_str(),
                        )
                    },
                    None => name.clone().concat(
                        " output is not valid UTF-8: incomplete utf-8 byte sequence from index ",
                    ).concat(index_text.as_str()),
                }
            },
            ProverError::PublicSizeFailed { message } => "Public signal buffer size calculation failed: ".to_owned().concat(
                message.as_str(),
            ),
            ProverError::ProofGenerationFailed { message } => "Proof generation failed: ".to_owned().concat(
                message.as_str(),
            ),
            ProverError::VerificationFailed { message } => "Proof verification failed: ".to_owned().concat(
                message.as_str(),
            ),
        }
    }
}

/// The bytes of `s` before its first NUL, or all of `s` where it has none.
pub open spec fn text_before_nul(s: Seq<u8>) -> Seq<u8>
    decreases s.len(),
{
    if s.len() == 0 || s[0] == 0 {
        Seq::empty()
    } else {
        seq![s[0]] + text_before_nul(s.drop_first())
    }
}

/// What `String::from_utf8_lossy` makes of the given bytes.
pub uninterp spec fn utf8_lossy(bytes: Seq<u8>) -> Seq<char>;

/// True when the UTF-8 encoding of `c` stands somewhere in `bytes`.
pub open spec fn encoding_occurs_in(c: char, bytes: Seq<u8>) -> bool {
    exists|j: int|
        0 <= j && j + encode_scalar(c as u32).len() <= bytes.len() && #[trigger] bytes.subrange(
            j,
            j + encode_scalar(c as u32).len(),
        ) == encode_scalar(c as u32)
}

/// `String::from_utf8_lossy`, made owned: the bytes decoded as UTF-8, each invalid
/// sequence replaced by U+FFFD. Its result is named `utf8_lossy`; beyond the name,
/// this states that valid UTF-8 comes back decoded as it is, that the text has no
/// more characters than the input has bytes, and that every character is U+FFFD or
/// one whose encoding stands in the input. How invalid sequences are cut is left
/// unsaid.
#[verifier::external_body]
fn lossy_string(bytes: &[u8]) -> (r: String)
    ensures
        r@ == utf8_lossy(bytes@),
        r@.len() <= bytes@.len(),
        forall|i: int|
            0 <= i < r@.len() ==> #[trigger] r@[i] == '\u{FFFD}' || encoding_occurs_in(r@[i], bytes@),
        valid_utf8(bytes@) ==> r@ == decode_utf8(bytes@),
{
    String::from_utf8_lossy(bytes).into_owned()
}

/// True when `k` is the length of the longest prefix of `bytes` that is valid UTF-8.
pub open spec fn longest_valid_utf8_prefix(bytes: Seq<u8>, k: int) -> bool {
    &&& 0 <= k <= bytes.len()
    &&& valid_utf8(bytes.take(k))
    &&& forall|j: int| k < j <= bytes.len() ==> !valid_utf8(#[trigger] bytes.take(j))
}

/// What `Utf8Error::error_len` reports for the error of `String::from_utf8` on
/// the given bytes.
pub uninterp spec fn utf8_error_len(bytes: Seq<u8>) -> Option<usize>;

/// What the documentation gives of `Utf8Error::valid_up_to` and `error_len` for
/// `bytes`: `k` is the length of the longest prefix that is valid UTF-8; `el` is
/// `None` where the input ends inside a sequence, 1 to 3 bytes after `k`, and
/// otherwise the length, 1 to 3, of the invalid sequence at `k`.
pub open spec fn utf8_error_at(bytes: Seq<u8>, k: int, el: Option<usize>) -> bool {
    &&& longest_valid_utf8_prefix(bytes, k)
    &&& match el {
        None => 1 <= bytes.len() - k <= 3,
        Some(n) => 1 <= n <= 3 && k + n <= bytes.len(),
    }
}

/// `String::from_utf8`; on failure, the error is read out by `FromUtf8Error::utf8_error`
/// as `Utf8Error::valid_up_to` and `Utf8Error::error_len`. It succeeds exactly on
/// valid UTF-8, with the decoded text. `valid_up_to` is the length of the longest
/// valid prefix; `error_len` is named by `utf8_error_len`, and of it this states
/// what its documentation gives: `None` where the input ends 1 to 3 bytes after
/// `valid_up_to`, and otherwise 1 to 3 bytes that lie in the input. Which of the two
/// cases holds for given bytes is left unsaid.
#[verifier::external_body]
fn utf8_string(bytes: Vec<u8>) -> (r: Result<String, (usize, Option<usize>)>)
    ensures
        r is Ok <==> valid_utf8(bytes@),
        r matches Ok(s) ==> s@ == decode_utf8(bytes@),
        r matches Err((k, el)) ==> el == utf8_error_len(bytes@) && utf8_error_at(bytes@, k as int, el),
{
    match String::from_utf8(bytes) {
        Ok(s) => Ok(s),
        Err(e) => Err((e.utf8_error().valid_up_to(), e.utf8_error().error_len())),
    }
}

proof fn lemma_text_before_nul(s: Seq<u8>, k: int)
    requires
        0 <= k <= s.len(),
        forall|j: int| 0 <= j < k ==> s[j] != 0,
        k == s.len() || s[k] == 0,
    ensures
        text_before_nul(s) == s.take(k),
    decreases k,
{
    if k == 0 {
        assert(s.take(0) =~= Seq::<u8>::empty());
    } else {
        let t = s.drop_first();
        assert forall|j: int| 0 <= j < k - 1 implies t[j] != 0 by {
            assert(t[j] == s[j + 1]);
        }
        lemma_text_before_nul(t, k - 1);
        assert(s.take(k) =~= seq![s[0]] + t.take(k - 1));
    }
}

/// The text of a NUL-terminated message buffer: the bytes before the first NUL
/// (all of them where there is none), decoded as UTF-8 with invalid sequences
/// replaced.
pub fn error_message(error_msg: &[u8]) -> (r: String)
    ensures
        r@ == utf8_lossy(text_before_nul(error_msg@)),
        r@.len() <= text_before_nul(error_msg@).len(),
        forall|i: int| 0 <= i < r@.len() ==> #[trigger] r@[i] != '\0',
        valid_utf8(text_before_nul(error_msg@)) ==> r@ == decode_utf8(text_before_nul(error_msg@)),
{
    let len = error_msg.len();
    let mut end: usize = 0;
    while end < len && error_msg[end] != 0
        invariant
            len == error_msg@.len(),
            end <= len,
            forall|j: int| 0 <= j < end ==> error_msg@[j] != 0,
        decreases len - end,
    {
        end = end + 1;
    }
    proof {
        lemma_text_before_nul(error_msg@, end as int);
    }
    let r = lossy_string(slice_subrange(error_msg, 0, end));
    proof {
        let text = error_msg@.take(end as int);
        assert((0u32 & 0x7Fu32) == 0u32) by (bit_vector);
        assert(encode_scalar('\0' as u32) =~= seq![0u8]);
        assert forall|i: int| 0 <= i < r@.len() implies #[trigger] r@[i] != '\0' by {
            if r@[i] == '\0' {
                let j = choose|j: int|
                    0 <= j && j + encode_scalar(r@[i] as u32).len() <= text.len()
                        && #[trigger] text.subrange(j, j + encode_scalar(r@[i] as u32).len())
                        == encode_scalar(r@[i] as u32);
                assert(text.subrange(j, j + 1)[0] == text[j]);
            }
        }
    }
    r
}

/// True when `size` plus one, room for a terminating NUL, fits in `usize`.
pub open spec fn fits_with_null(size: u64) -> bool {
    size + 1 <= usize::MAX
}

/// True when `e` is the error for a size that does not fit: `size` plus one
/// overflows `u64`, or else does not fit in `usize`; `name` names the buffer.
pub open spec fn sizing_error(e: ProverError, size: u64, name: Seq<char>) -> bool {
    if size == u64::MAX {
        e matches ProverError::BufferSizeOverflow { name: n } && n@ == name
    } else {
        e matches ProverError::BufferTooLarge { name: n } && n@ == name
    }
}

/// A buffer size reported by the prover, as a `usize`.
pub fn buffer_len(size: u64, name: &str) -> (r: Result<usize, ProverError>)
    ensures
        size <= usize::MAX ==> r == Ok::<usize, ProverError>(size as usize),
        size > usize::MAX ==> (r matches Err(ProverError::BufferTooLarge { name: n }) && n@ == name@),
{
    if size <= usize::MAX as u64 {
        Ok(size as usize)
    } else {
        Err(ProverError::BufferTooLarge { name: name.to_owned() })
    }
}

/// The length of a buffer that holds `size` bytes and a terminating NUL.
pub fn buffer_len_with_null(size: u64, name: &str) -> (r: Result<usize, ProverError>)
    ensures
        fits_with_null(size) ==> r == Ok::<usize, ProverError>((size + 1) as usize),
        !fits_with_null(size) ==> (r matches Err(e) && sizing_error(e, size, name@)),
{
    match size.checked_add(1) {
        Some(size) => buffer_len(size, name),
        None => Err(ProverError::BufferSizeOverflow { name: name.to_owned() }),
    }
}

/// True when `size` bytes of `buffer` are there and form valid UTF-8.
pub open spec fn output_ok(buffer: Seq<u8>, size: u64) -> bool {
    &&& size <= usize::MAX
    &&& size <= buffer.len()
    &&& valid_utf8(buffer.take(size as int))
}

/// The text in the first `size` bytes of `buffer`.
pub open spec fn output_text(buffer: Seq<u8>, size: u64) -> Seq<char> {
    decode_utf8(buffer.take(size as int))
}

/// True when `e` is the error for the output `name` of `size` bytes in `buffer`,
/// where `output_ok` does not hold.
pub open spec fn output_error(e: ProverError, name: Seq<char>, buffer: Seq<u8>, size: u64) -> bool {
    if size > usize::MAX {
        e matches ProverError::BufferTooLarge { name: n } && n@ == name
    } else if size > buffer.len() {
        e matches ProverError::OutputExceedsBuffer { name: n, size: s, buffer_len: l } && n@ == name
            && s == size && l == buffer.len()
    } else {
        e matches ProverError::OutputNotUtf8 { name: n, valid_up_to: k, error_len: el } && n@ == name
            && el == utf8_error_len(buffer.take(size as int)) && utf8_error_at(
            buffer.take(size as int),
            k as int,
            el,
        )
    }
}

/// The text that the prover wrote into `buffer`, of which it reported `size` bytes.
pub fn output_string(name: &str, buffer: &[u8], size: u64) -> (r: Result<String, ProverError>)
    ensures
        output_ok(buffer@, size) ==> (r matches Ok(s) && s@ == output_text(buffer@, size)),
        !output_ok(buffer@, size) ==> (r matches Err(e) && output_error(e, name@, buffer@, size)),
{
    let size = match buffer_len(size, name) {
        Ok(size) => size,
        Err(e) => return Err(e),
    };
    if size > buffer.len() {
        return Err(
            ProverError::OutputExceedsBuffer {
                name: name.to_owned(),
                size,
                buffer_len: buffer.len(),
            },
        );
    }
    match utf8_string(slice_to_vec(slice_subrange(buffer, 0, size))) {
        Ok(s) => Ok(s),
        Err((valid_up_to, error_len)) => Err(
            ProverError::OutputNotUtf8 { name: name.to_owned(), valid_up_to, error_len },
        ),
    }
}

/// The lengths of the output buffers for one run of the prover.
#[derive(Debug)]
pub struct ProverBuffers {
    pub proof_len: usize,
    pub public_len: usize,
}

/// Which run of the prover has just returned.
#[derive(Debug)]
pub enum ProverAttempt {
    First,
    Retry,
}

/// What follows a run of the prover: another run with longer buffers, or the end.
#[derive(Debug)]
pub enum ProverStep {
    RunAgain(ProverBuffers),
    Done(Result<ProofResult, ProverError>),
}

/// True when `e` is the error for the first of two output sizes, of the proof and
/// of the public signals, for which a buffer with room for a NUL does not fit.
pub open spec fn sizing_failure(e: ProverError, proof_size: u64, public_size: u64) -> bool {
    if !fits_with_null(proof_size) {
        sizing_error(e, proof_size, "proof"@)
    } else {
        !fits_with_null(public_size) && sizing_error(e, public_size, "public signals"@)
    }
}

/// True when `r` sizes buffers for outputs of `proof_size` and `public_size` bytes:
/// each one byte longer, for the terminating NUL, or the error for the first size
/// that does not fit.
pub open spec fn buffers_sized(r: Result<ProverBuffers, ProverError>, proof_size: u64, public_size: u64) -> bool {
    match r {
        Ok(b) => fits_with_null(proof_size) && fits_with_null(public_size) && b.proof_len
            == proof_size + 1 && b.public_len == public_size + 1,
        Err(e) => sizing_failure(e, proof_size, public_size),
    }
}

fn size_buffers(proof_size: u64, public_size: u64) -> (r: Result<ProverBuffers, ProverError>)
    ensures
        buffers_sized(r, proof_size, public_size),
{
    let proof_len = match buffer_len_with_null(proof_size, "proof") {
        Ok(n) => n,
        Err(e) => return Err(e),
    };
    let public_len = match buffer_len_with_null(public_size, "public signals") {
        Ok(n) => n,
        Err(e) => return Err(e),
    };
    Ok(ProverBuffers { proof_len, public_len })
}

/// The buffers for the first run of the prover, from the proof size and the
/// public signals size that the prover reported (`status` is the status of the
/// latter query, `error_msg` its message buffer).
pub fn buffers_for_prover(status: i32, proof_size: u64, public_size: u64, error_msg: &[u8]) -> (r: Result<
    ProverBuffers,
    ProverError,
>)
    ensures
        status != PROVER_OK ==> (r matches Err(ProverError::PublicSizeFailed { message })
            && message@ == utf8_lossy(text_before_nul(error_msg@))),
        status == PROVER_OK ==> buffers_sized(r, proof_size, public_size),
{
    if status != PROVER_OK {
        return Err(ProverError::PublicSizeFailed { message: error_message(error_msg) });
    }
    size_buffers(proof_size, public_size)
}

/// True when `r` is the result read out of the outputs of a successful run.
pub open spec fn outputs_read(
    r: Result<ProofResult, ProverError>,
    proof_buffer: Seq<u8>,
    proof_size: u64,
    public_buffer: Seq<u8>,
    public_size: u64,
) -> bool {
    if !output_ok(proof_buffer, proof_size) {
        r matches Err(e) && output_error(e, "proof"@, proof_buffer, proof_size)
    } else if !output_ok(public_buffer, public_size) {
        r matches Err(e) && output_error(e, "public signals"@, public_buffer, public_size)
    } else {
        r matches Ok(p) && p.proof@ == output_text(proof_buffer, proof_size) && p.public_signals@
            == output_text(public_buffer, public_size)
    }
}

/// What to do after a run of the prover on buffers in memory, given its status,
/// its outputs with the sizes it reported, and its message buffer. After a first
/// run that found the buffers too short, run once more with buffers sized as the
/// prover asked; otherwise stop, with the proof or the error.
pub fn after_prover_run(
    attempt: ProverAttempt,
    status: i32,
    proof_buffer: &[u8],
    proof_size: u64,
    public_buffer: &[u8],
    public_size: u64,
    error_msg: &[u8],
) -> (r: ProverStep)
    ensures
        attempt is First && status == PROVER_ERROR_SHORT_BUFFER ==> match r {
            ProverStep::RunAgain(b) => buffers_sized(Ok(b), proof_size, public_size),
            ProverStep::Done(res) => res matches Err(e) && sizing_failure(e, proof_size, public_size),
        },
        attempt is Retry ==> r is Done,
        !(attempt is First && status == PROVER_ERROR_SHORT_BUFFER) && status != PROVER_OK ==> (r matches ProverStep::Done(
            Err(ProverError::ProofGenerationFailed { message }),
        ) && message@ == utf8_lossy(text_before_nul(error_msg@))),
        status == PROVER_OK ==> (r matches ProverStep::Done(res) && outputs_read(
            res,
            proof_buffer@,
            proof_size,
            public_buffer@,
            public_size,
        )),
{
    if status == PROVER_ERROR_SHORT_BUFFER {
        if let ProverAttempt::First = attempt {
            return match size_buffers(proof_size, public_size) {
                Ok(b) => ProverStep::RunAgain(b),
                Err(e) => ProverStep::Done(Err(e)),
            };
        }
    }
    if status != PROVER_OK {
        return ProverStep::Done(
            Err(ProverError::ProofGenerationFailed { message: error_message(error_msg) }),
        );
    }
    let proof = match output_string("proof", proof_buffer, proof_size) {
        Ok(s) => s,
        Err(e) => return ProverStep::Done(Err(e)),
    };
    let public_signals = match output_string("public signals", public_buffer, public_size) {
        Ok(s) => s,
        Err(e) => return ProverStep::Done(Err(e)),
    };
    ProverStep::Done(Ok(ProofResult { proof, public_signals }))
}

/// The result of proving from a zkey file, from the prover's status and the
/// NUL-terminated texts it left in its buffers.
pub fn zkey_file_proof_result(
    status: i32,
    proof_buffer: &[u8],
    public_buffer: &[u8],
    error_msg: &[u8],
) -> (r: Result<ProofResult, ProverError>)
    ensures
        status != PROVER_OK ==> (r matches Err(ProverError::ProofGenerationFailed { message })
            && message@ == utf8_lossy(text_before_nul(error_msg@))),
        status == PROVER_OK ==> (r matches Ok(p) && p.proof@ == utf8_lossy(
            text_before_nul(proof_buffer@),
        ) && p.public_signals@ == utf8_lossy(text_before_nul(public_buffer@))),
{
    if status != PROVER_OK {
        return Err(ProverError::ProofGenerationFailed { message: error_message(error_msg) });
    }
    let proof = error_message(proof_buffer);
    let public_signals = error_message(public_buffer);
    Ok(ProofResult { proof, public_signals })
}

/// The result of verifying a proof, from the verifier's status and message buffer:
/// an error where it could not check the proof, and otherwise whether the proof
/// is valid.
pub fn verification_result(status: i32, error_msg: &[u8]) -> (r: Result<bool, ProverError>)
    ensures
        status == VERIFIER_ERROR ==> (r matches Err(ProverError::VerificationFailed { message })
            && message@ == utf8_lossy(text_before_nul(error_msg@))),
        status != VERIFIER_ERROR ==> r == Ok::<bool, ProverError>(status == 0),
{
    if status == VERIFIER_ERROR {
        return Err(ProverError::VerificationFailed { message: error_message(error_msg) });
    }
    Ok(status == 0)
}

} // verus!
