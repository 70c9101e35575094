use vstd::prelude::*;
use crate::digest::{digest, is_hex_digest, is_lower_hex, md5_hex};
use crate::text::{
    append_str, chars_of, dec, decimal_text, is_digit, lemma_dec_digits, lemma_parse_dec, parse_dec, parse_range,
    push_char, string_of_range,
};

verus! {

/// Why a file fails verification.
#[derive(Clone, Copy, Debug, PartialEq, Eq, Structural)]
pub enum VerifyError {
    /// The name does not split into the expected fields.
    MalformedName,
    /// The third field of the name does not start with the tool's marker.
    BadMarker,
    /// The check field of the name does not match the digest of its record.
    MetadataCorrupt,
    /// The file's length differs from the size recorded in its name.
    SizeMismatch,
    /// The digest of the file's content differs from the one recorded in its name.
    ContentMismatch,
}

/// The record read back from a file name.
pub struct DecodedName {
    pub content_hash: String,
    pub seed: String,
    pub declared_size: u64,
}

impl View for DecodedName {
    type V = (Seq<char>, Seq<char>, u64);

    open spec fn view(&self) -> (Seq<char>, Seq<char>, u64) {
        (self.content_hash@, self.seed@, self.declared_size)
    }
}

/// The literal that tags every file of this tool.
pub open spec fn marker() -> Seq<char> {
    seq!['i', 'n', 't', 'e', 'g', 'r', 'i', 't', 'y']
}

/// The indices at which `c` occurs in `s`, in increasing order.
pub open spec fn positions(s: Seq<char>, c: char) -> Seq<int>
    decreases s.len(),
{
    if s.len() == 0 {
        Seq::<int>::empty()
    } else if s.last() == c {
        positions(s.drop_last(), c).push(s.len() - 1)
    } else {
        positions(s.drop_last(), c)
    }
}

pub open spec fn free_of(s: Seq<char>, c: char) -> bool {
    forall|i: int| 0 <= i < s.len() ==> #[trigger] s[i] != c
}

/// Three fields joined by a separator.
pub open spec fn join3(a: Seq<char>, b: Seq<char>, c: Seq<char>, sep: char) -> Seq<char> {
    a + seq![sep] + b + seq![sep] + c
}

/// The record part of a name: `content_hash-seed-size`.
pub open spec fn base_text(content_hash: Seq<char>, seed: u64, size: u64) -> Seq<char> {
    join3(content_hash, dec(seed as nat), dec(size as nat), '-')
}

/// A full name: `record:digest(record):integrity`.
pub open spec fn name_text(content_hash: Seq<char>, seed: u64, size: u64) -> Seq<char> {
    let base = base_text(content_hash, seed, size);
    join3(base, md5_hex(base), marker(), ':')
}

/// The name tried at a given attempt: the plain name first, then the name
/// followed by `.0`, `.1`, and so on.
pub open spec fn candidate_text(name: Seq<char>, attempt: nat) -> Seq<char> {
    if attempt == 0 {
        name
    } else {
        name + seq!['.'] + dec((attempt - 1) as nat)
    }
}

pub open spec fn starts_with(s: Seq<char>, prefix: Seq<char>) -> bool {
    s.len() >= prefix.len() && s.subrange(0, prefix.len() as int) == prefix
}

/// Splits a record `content_hash-seed-size` into its fields.
pub open spec fn decode_base(base: Seq<char>) -> Result<(Seq<char>, Seq<char>, u64), VerifyError> {
    let d = positions(base, '-');
    if d.len() != 2 {
        Err(VerifyError::MalformedName)
    } else {
        match parse_dec(base.subrange(d[1] + 1, base.len() as int)) {
            Some(size) => Ok((base.subrange(0, d[0]), base.subrange(d[0] + 1, d[1]), size)),
            None => Err(VerifyError::MalformedName),
        }
    }
}

/// What decoding a name yields: its record, or the first check that fails.
pub open spec fn decode_spec(s: Seq<char>) -> Result<(Seq<char>, Seq<char>, u64), VerifyError> {
    let p = positions(s, ':');
    if p.len() != 2 {
        Err(VerifyError::MalformedName)
    } else {
        let base = s.subrange(0, p[0]);
        let stored = s.subrange(p[0] + 1, p[1]);
        let ext = s.subrange(p[1] + 1, s.len() as int);
        if !starts_with(ext, marker()) {
            Err(VerifyError::BadMarker)
        } else if md5_hex(base) != stored {
            Err(VerifyError::MetadataCorrupt)
        } else {
            decode_base(base)
        }
    }
}

proof fn lemma_positions_bounds(s: Seq<char>, c: char)
    ensures
        forall|k: int|
            0 <= k < positions(s, c).len() ==> 0 <= #[trigger] positions(s, c)[k] < s.len()
                && s[positions(s, c)[k]] == c,
        forall|k: int, l: int|
            0 <= k < l < positions(s, c).len() ==> #[trigger] positions(s, c)[k]
                < #[trigger] positions(s, c)[l],
    decreases s.len(),
{
    if s.len() > 0 {
        let t = s.drop_last();
        lemma_positions_bounds(t, c);
        let p = positions(t, c);
        let q = positions(s, c);
        assert forall|k: int| 0 <= k < p.len() implies q[k] == p[k] && s[p[k]] == t[p[k]] by {}
        assert forall|k: int| 0 <= k < q.len() implies 0 <= #[trigger] q[k] < s.len() && s[q[k]]
            == c by {
            if k < p.len() {
                assert(q[k] == p[k]);
            }
        }
        assert forall|k: int, l: int| 0 <= k < l < q.len() implies #[trigger] q[k] < #[trigger] q[l] by {
            assert(q[k] == p[k]);
            if l < p.len() {
                assert(q[l] == p[l]);
            }
        }
    }
}

proof fn lemma_positions_free(s: Seq<char>, c: char)
    requires
        free_of(s, c),
    ensures
        positions(s, c) == Seq::<int>::empty(),
    decreases s.len(),
{
    if s.len() > 0 {
        lemma_positions_free(s.drop_last(), c);
    }
}

proof fn lemma_positions_concat(a: Seq<char>, b: Seq<char>, c: char)
    ensures
        positions(a + b, c) == positions(a, c) + positions(b, c).map_values(|x: int| x + a.len()),
    decreases b.len(),
{
    if b.len() == 0 {
        assert(a + b == a);
        assert(positions(b, c).map_values(|x: int| x + a.len()) == Seq::<int>::empty());
    } else {
        lemma_positions_concat(a, b.drop_last(), c);
        assert((a + b).drop_last() == a + b.drop_last());
        let pb = positions(b.drop_last(), c);
        if b.last() == c {
            assert(pb.push(b.len() - 1).map_values(|x: int| x + a.len())
                == pb.map_values(|x: int| x + a.len()).push(b.len() - 1 + a.len()));
        }
    }
}

/// Where the separators of `join3(a, b, c, sep)` stand, and the fields between them.
proof fn lemma_join3(a: Seq<char>, b: Seq<char>, c: Seq<char>, sep: char)
    requires
        free_of(a, sep),
        free_of(b, sep),
        free_of(c, sep),
    ensures
        ({
            let s = join3(a, b, c, sep);
            let p = positions(s, sep);
            &&& p == seq![a.len() as int, a.len() as int + 1 + b.len()]
            &&& s.subrange(0, p[0]) == a
            &&& s.subrange(p[0] + 1, p[1]) == b
            &&& s.subrange(p[1] + 1, s.len() as int) == c
        }),
{
    let one = seq![sep];
    lemma_positions_free(a, sep);
    lemma_positions_free(b, sep);
    lemma_positions_free(c, sep);
    assert(free_of(Seq::<char>::empty(), sep));
    lemma_positions_free(Seq::<char>::empty(), sep);
    assert(one.drop_last() == Seq::<char>::empty());
    assert(positions(one, sep) == seq![0int]);
    lemma_positions_concat(a, one, sep);
    lemma_positions_concat(a + one, b, sep);
    lemma_positions_concat(a + one + b, one, sep);
    lemma_positions_concat(a + one + b + one, c, sep);
    let s = join3(a, b, c, sep);
    assert(positions(s, sep) =~= seq![a.len() as int, a.len() as int + 1 + b.len()]);
    assert(s.subrange(0, a.len() as int) =~= a);
    assert(s.subrange(a.len() as int + 1, a.len() as int + 1 + b.len()) =~= b);
    assert(s.subrange(a.len() as int + 2 + b.len(), s.len() as int) =~= c);
}

proof fn lemma_dec_free(n: nat, c: char)
    requires
        !is_digit(c),
    ensures
        free_of(dec(n), c),
{
    lemma_dec_digits(n);
    assert forall|i: int| 0 <= i < dec(n).len() implies #[trigger] dec(n)[i] != c by {
        assert(is_digit(dec(n)[i]));
    }
}

/// Decoding a name built by the encoder recovers the record it was built
/// from, whatever disambiguation suffix was appended. The record's digest
/// must be one the hasher wrote, and the content hash free of separators.
pub proof fn lemma_decode_encode(content_hash: Seq<char>, seed: u64, size: u64, attempt: nat)
    requires
        free_of(content_hash, '-'),
        free_of(content_hash, ':'),
        is_hex_digest(md5_hex(base_text(content_hash, seed, size))),
    ensures
        decode_spec(candidate_text(name_text(content_hash, seed, size), attempt)) == Ok::<
            (Seq<char>, Seq<char>, u64),
            VerifyError,
        >((content_hash, dec(seed as nat), size)),
{
    let base = base_text(content_hash, seed, size);
    let h = md5_hex(base);
    lemma_dec_free(seed as nat, '-');
    lemma_dec_free(size as nat, '-');
    lemma_dec_free(seed as nat, ':');
    lemma_dec_free(size as nat, ':');
    lemma_join3(content_hash, dec(seed as nat), dec(size as nat), '-');
    assert(free_of(base, ':'));
    assert(free_of(h, ':')) by {
        assert forall|i: int| 0 <= i < h.len() implies h[i] != ':' by {
            assert(is_lower_hex(h[i]));
        }
    }
    let m = marker();
    let ext = if attempt == 0 {
        m
    } else {
        m + seq!['.'] + dec((attempt - 1) as nat)
    };
    if attempt > 0 {
        lemma_dec_free((attempt - 1) as nat, ':');
    }
    assert(free_of(ext, ':'));
    assert(candidate_text(name_text(content_hash, seed, size), attempt) =~= join3(base, h, ext, ':'));
    lemma_join3(base, h, ext, ':');
    assert(ext.subrange(0, m.len() as int) =~= m);
    lemma_parse_dec(size);
}

/// The marker as characters.
fn marker_chars() -> (r: Vec<char>)
    ensures
        r@ == marker(),
{
    let r = vec!['i', 'n', 't', 'e', 'g', 'r', 'i', 't', 'y'];
    assert(r@ =~= marker());
    r
}

/// The indices below `hi` at which `c` occurs in `s`.
fn positions_of(s: &Vec<char>, hi: usize, c: char) -> (r: Vec<usize>)
    requires
        hi <= s@.len(),
    ensures
        r@.len() == positions(s@.subrange(0, hi as int), c).len(),
        forall|k: int| 0 <= k < r@.len() ==> r@[k] as int == #[trigger] positions(s@.subrange(0, hi as int), c)[k],
{
    let mut r: Vec<usize> = Vec::new();
    let mut i: usize = 0;
    while i < hi
        invariant
            i <= hi <= s@.len(),
            r@.len() == positions(s@.subrange(0, i as int), c).len(),
            forall|k: int| 0 <= k < r@.len() ==> r@[k] as int == #[trigger] positions(s@.subrange(0, i as int), c)[k],
        decreases hi - i,
    {
        assert(s@.subrange(0, i + 1).drop_last() == s@.subrange(0, i as int));
        if s[i] == c {
            r.push(i);
        }
        i = i + 1;
    }
    r
}

/// Whether the characters of `s` from `lo` on start with the marker.
fn has_marker(s: &Vec<char>, lo: usize) -> (r: bool)
    requires
        lo <= s@.len(),
    ensures
        r == starts_with(s@.subrange(lo as int, s@.len() as int), marker()),
{
    let m = marker_chars();
    let ext = Ghost(s@.subrange(lo as int, s@.len() as int));
    assert(m@.len() == 9);
    let n = s.len();
    if n - lo < m.len() {
        return false;
    }
    assert(lo + 9 <= s@.len());
    let mut i: usize = 0;
    while i < m.len()
        invariant
            i <= 9,
            m@.len() == 9,
            lo + 9 <= s@.len(),
            n == s@.len(),
            m@ == marker(),
            ext@ == s@.subrange(lo as int, s@.len() as int),
            forall|k: int| 0 <= k < i ==> s@[lo + k] == #[trigger] m@[k],
        decreases m@.len() - i,
    {
        assert(lo + i < s@.len());
        if s[lo + i] != m[i] {
            assert(ext@.subrange(0, 9)[i as int] != marker()[i as int]);
            return false;
        }
        i = i + 1;
    }
    assert(ext@.subrange(0, 9) =~= marker());
    true
}

/// Reads the record out of a file name, checking its structure, marker and
/// check field.
pub fn decode_name(name: &str) -> (r: Result<DecodedName, VerifyError>)
    ensures
        match r {
            Ok(d) => decode_spec(name@) == Ok::<(Seq<char>, Seq<char>, u64), VerifyError>(d@),
            Err(e) => decode_spec(name@) == Err::<(Seq<char>, Seq<char>, u64), VerifyError>(e),
        },
{
    let s = chars_of(name);
    assert(s@.subrange(0, s@.len() as int) == s@);
    let colons = positions_of(&s, s.len(), ':');
    if colons.len() != 2 {
        return Err(VerifyError::MalformedName);
    }
    proof {
        lemma_positions_bounds(s@, ':');
    }
    let i = colons[0];
    let j = colons[1];
    assert(i < j < s@.len()) by {
        assert(positions(s@, ':')[0] < positions(s@, ':')[1]);
    }
    if !has_marker(&s, j + 1) {
        return Err(VerifyError::BadMarker);
    }
    let base = string_of_range(&s, 0, i);
    let stored = string_of_range(&s, i + 1, j);
    let computed = digest(base.as_str());
    if computed != stored {
        return Err(VerifyError::MetadataCorrupt);
    }
    let dashes = positions_of(&s, i, '-');
    if dashes.len() != 2 {
        return Err(VerifyError::MalformedName);
    }
    let ghost b = s@.subrange(0, i as int);
    proof {
        lemma_positions_bounds(b, '-');
        assert(positions(b, '-')[0] < positions(b, '-')[1]);
    }
    let d0 = dashes[0];
    let d1 = dashes[1];
    assert(b.subrange(d1 + 1, b.len() as int) == s@.subrange(d1 + 1, i as int));
    match parse_range(&s, d1 + 1, i) {
        Some(size) => {
            let content_hash = string_of_range(&s, 0, d0);
            let seed = string_of_range(&s, d0 + 1, d1);
            assert(b.subrange(0, d0 as int) == content_hash@);
            assert(b.subrange(d0 + 1, d1 as int) == seed@);
            Ok(DecodedName { content_hash, seed, declared_size: size })
        },
        None => Err(VerifyError::MalformedName),
    }
}

/// The record part of a name, `content_hash-seed-size`.
pub fn encode_base(content_hash: &str, seed: u64, size: u64) -> (r: String)
    ensures
        r@ == base_text(content_hash@, seed, size),
{
    let mut r = String::new();
    append_str(&mut r, content_hash);
    push_char(&mut r, '-');
    let seed_text = decimal_text(seed);
    append_str(&mut r, seed_text.as_str());
    push_char(&mut r, '-');
    let size_text = decimal_text(size);
    append_str(&mut r, size_text.as_str());
    assert(r@ =~= base_text(content_hash@, seed, size));
    r
}

/// The name of a file whose content has digest `content_hash`, generated
/// from `seed` with `size` bytes. When the content hash is free of the
/// separators, decoding the name gives the record back.
pub fn encode_name(content_hash: &str, seed: u64, size: u64) -> (r: String)
    ensures
        r@ == name_text(content_hash@, seed, size),
        free_of(content_hash@, '-') && free_of(content_hash@, ':') ==> decode_spec(r@) == Ok::<
            (Seq<char>, Seq<char>, u64),
            VerifyError,
        >((content_hash@, dec(seed as nat), size)),
{
    let mut r = encode_base(content_hash, seed, size);
    let check = digest(r.as_str());
    proof {
        if free_of(content_hash@, '-') && free_of(content_hash@, ':') {
            lemma_decode_encode(content_hash@, seed, size, 0);
        }
    }
    push_char(&mut r, ':');
    append_str(&mut r, check.as_str());
    push_char(&mut r, ':');
    let m = marker_chars();
    crate::text::append_range(&mut r, &m, 0, m.len());
    assert(m@.subrange(0, 9) == m@);
    assert(r@ =~= name_text(content_hash@, seed, size));
    r
}

/// The name tried at `attempt`: `name` itself at attempt 0, else `name.<attempt - 1>`.
pub fn candidate_name(name: &str, attempt: u64) -> (r: String)
    ensures
        r@ == candidate_text(name@, attempt as nat),
{
    let mut r = String::new();
    append_str(&mut r, name);
    if attempt > 0 {
        push_char(&mut r, '.');
        let n = decimal_text(attempt - 1);
        append_str(&mut r, n.as_str());
    }
    assert(r@ =~= candidate_text(name@, attempt as nat));
    r
}

} // verus!
