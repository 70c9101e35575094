use vstd::prelude::*;
use crate::codec::{
    candidate_name, candidate_text, decode_name, decode_spec, encode_name, free_of,
    lemma_decode_encode, name_text, positions, DecodedName, VerifyError,
};
use crate::digest::{digest, is_hex_digest, is_lower_hex, md5_hex};
use crate::generator::{all_alphanumeric, generate, random_content};
use crate::policy::{next_file_size, reserve, MAX_FILE_SIZE, MIN_FILE_SIZE};
use crate::text::dec;

verus! {

/// Why a file could not be created (besides the errors of the filesystem).
#[derive(Clone, Copy, Debug, PartialEq, Eq, Structural)]
pub enum CreateError {
    /// Free space is at or below the reserve: time to verify and prune.
    NoRoom,
    /// The plain name and every suffixed one are taken.
    NamingExhausted,
}

/// How many suffixed names (`.0` up to `.49`) are tried after the plain one.
pub const NAME_ATTEMPTS: u64 = 50;

/// The content of a new file and the name that describes it.
pub struct PlannedFile {
    pub data: String,
    pub name: String,
    pub seed: u64,
    pub size: u64,
}

/// Verification of a file named `name`, `disk_len` bytes long, holding `data`.
pub open spec fn verify_spec(name: Seq<char>, disk_len: u64, data: Seq<char>) -> Result<
    (Seq<char>, Seq<char>, u64),
    VerifyError,
> {
    match decode_spec(name) {
        Err(e) => Err(e),
        Ok(rec) => if rec.2 != disk_len {
            Err(VerifyError::SizeMismatch)
        } else if md5_hex(data) != rec.0 {
            Err(VerifyError::ContentMismatch)
        } else {
            Ok(rec)
        },
    }
}

/// Attempt `k` is the first, among the plain name and its `NAME_ATTEMPTS`
/// suffixed forms, whose entry in `taken` says it is free.
pub open spec fn is_first_free(taken: Seq<bool>, k: int) -> bool {
    &&& 0 <= k < taken.len()
    &&& k <= NAME_ATTEMPTS
    &&& !taken[k]
    &&& forall|j: int| 0 <= j < k ==> #[trigger] taken[j]
}

proof fn lemma_hex_free(h: Seq<char>)
    requires
        is_hex_digest(h),
    ensures
        free_of(h, '-'),
        free_of(h, ':'),
{
    assert forall|i: int| 0 <= i < h.len() implies h[i] != '-' && h[i] != ':' by {
        assert(is_lower_hex(h[i]));
    }
}

/// A file written as created verifies: its name decodes, its length is the
/// declared size and its content has the recorded digest, whichever
/// disambiguation suffix its name got. The digests are those the hasher wrote.
pub proof fn lemma_created_file_verifies(seed: u64, size: u64, data: Seq<char>, attempt: nat)
    requires
        data.len() == size,
        is_hex_digest(md5_hex(data)),
        is_hex_digest(md5_hex(crate::codec::base_text(md5_hex(data), seed, size))),
    ensures
        verify_spec(candidate_text(name_text(md5_hex(data), seed, size), attempt), size, data)
            == Ok::<(Seq<char>, Seq<char>, u64), VerifyError>((md5_hex(data), dec(seed as nat), size)),
{
    lemma_hex_free(md5_hex(data));
    lemma_decode_encode(md5_hex(data), seed, size, attempt);
}

/// Tampering is caught. Against a file that verifies: a different length
/// fails with a size mismatch; content of the same length with another
/// digest fails with a content mismatch; a name that does not split into
/// three `:`-separated fields fails as malformed.
pub proof fn lemma_tamper_detected(
    name: Seq<char>,
    disk_len: u64,
    data: Seq<char>,
    other_len: u64,
    other_data: Seq<char>,
    other_name: Seq<char>,
)
    requires
        verify_spec(name, disk_len, data) is Ok,
    ensures
        other_len != disk_len ==> verify_spec(name, other_len, other_data) == Err::<
            (Seq<char>, Seq<char>, u64),
            VerifyError,
        >(VerifyError::SizeMismatch),
        md5_hex(other_data) != md5_hex(data) ==> verify_spec(name, disk_len, other_data) == Err::<
            (Seq<char>, Seq<char>, u64),
            VerifyError,
        >(VerifyError::ContentMismatch),
        positions(other_name, ':').len() != 2 ==> verify_spec(other_name, disk_len, data) == Err::<
            (Seq<char>, Seq<char>, u64),
            VerifyError,
        >(VerifyError::MalformedName),
{
}

/// The content and the name of a new file generated from `seed` with `size`
/// bytes. Its name decodes back to the record, and the file verifies when
/// written as planned.
pub fn plan_file(seed: u64, size: usize) -> (r: PlannedFile)
    ensures
        r.seed == seed,
        r.size == size,
        r.data@ == random_content(seed, size as nat),
        r.data@.len() == size,
        all_alphanumeric(r.data@),
        r.name@ == name_text(md5_hex(r.data@), seed, size as u64),
        verify_spec(r.name@, size as u64, r.data@) == Ok::<(Seq<char>, Seq<char>, u64), VerifyError>(
            (md5_hex(r.data@), dec(seed as nat), size as u64),
        ),
{
    let data = generate(seed, size);
    let content_hash = digest(data.as_str());
    let name = encode_name(content_hash.as_str(), seed, size as u64);
    proof {
        lemma_hex_free(content_hash@);
    }
    PlannedFile { data, name, seed, size: size as u64 }
}

/// Picks the name of a new file: the first attempt (the plain name, then
/// `.0` up to `.49`) whose entry in `taken` is false. Entries past the
/// attempts are ignored; an attempt without an entry counts as taken.
pub fn pick_name(name: &str, taken: &Vec<bool>) -> (r: Result<String, CreateError>)
    ensures
        r is Err ==> r == Err::<String, CreateError>(CreateError::NamingExhausted),
        r is Err <==> !(exists|k: int| is_first_free(taken@, k)),
        r matches Ok(n) ==> exists|k: int|
            is_first_free(taken@, k) && n@ == candidate_text(name@, k as nat),
{
    let mut k: u64 = 0;
    while k <= NAME_ATTEMPTS && (k as usize) < taken.len()
        invariant
            k <= NAME_ATTEMPTS + 1,
            forall|j: int| 0 <= j < k ==> #[trigger] taken@[j],
            k <= taken@.len(),
        decreases NAME_ATTEMPTS + 1 - k,
    {
        if !taken[k as usize] {
            let n = candidate_name(name, k);
            assert(is_first_free(taken@, k as int));
            return Ok(n);
        }
        k = k + 1;
    }
    assert forall|i: int| !is_first_free(taken@, i) by {
        if is_first_free(taken@, i) {
            assert(taken@[i]);
        }
    }
    Err(CreateError::NamingExhausted)
}

/// The size of a file to create: the given one, or the policy's choice for
/// the volume's total and free space (`NoRoom` when the policy refuses).
pub fn resolve_size(total_space: u64, free_space: u64, size: Option<usize>) -> (r: Result<
    usize,
    CreateError,
>)
    ensures
        size matches Some(s) ==> r == Ok::<usize, CreateError>(s),
        size is None ==> (r is Err <==> free_space <= reserve(total_space)),
        size is None && r is Err ==> r == Err::<usize, CreateError>(CreateError::NoRoom),
        size is None ==> (r matches Ok(s) ==> s <= free_space - reserve(total_space) && s
            < MAX_FILE_SIZE && (s >= MIN_FILE_SIZE || s == free_space - reserve(total_space))),
{
    match size {
        Some(s) => Ok(s),
        None => match next_file_size(total_space, free_space) {
            Some(s) => Ok(s as usize),
            None => Err(CreateError::NoRoom),
        },
    }
}

/// Relies on time's `get_time`: the wall clock, of which nothing is promised.
#[verifier::external_body]
fn now_seconds() -> u64 {
    time::get_time().sec as u64
}

/// The seed of a file to create: the given one, or the clock's seconds.
pub fn resolve_seed(seed: Option<u64>) -> (r: u64)
    ensures
        seed matches Some(s) ==> r == s,
{
    match seed {
        Some(s) => s,
        None => now_seconds(),
    }
}

/// Checks a file against the record in its name: the name's structure and
/// check field, then its length, then the digest of its content.
pub fn verify_contents(name: &str, disk_len: u64, data: &str) -> (r: Result<
    DecodedName,
    VerifyError,
>)
    ensures
        match r {
            Ok(d) => verify_spec(name@, disk_len, data@) == Ok::<
                (Seq<char>, Seq<char>, u64),
                VerifyError,
            >(d@),
            Err(e) => verify_spec(name@, disk_len, data@) == Err::<
                (Seq<char>, Seq<char>, u64),
                VerifyError,
            >(e),
        },
{
    let d = decode_name(name)?;
    if d.declared_size != disk_len {
        return Err(VerifyError::SizeMismatch);
    }
    let computed = digest(data);
    if computed != d.content_hash {
        return Err(VerifyError::ContentMismatch);
    }
    Ok(d)
}

/// The exit status of a single-file verification: 0 when it validates,
/// 2 when it is corrupt.
pub fn verify_exit_code(r: &Result<DecodedName, VerifyError>) -> (code: i32)
    ensures
        r is Ok ==> code == 0,
        r is Err ==> code == 2,
{
    match r {
        Ok(_) => 0,
        Err(_) => 2,
    }
}

} // verus!
