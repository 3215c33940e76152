//! Checking downloaded files against their published SHA-1 digests.
use vstd::prelude::*;
use vstd::string::*;
use crate::text::{digit_char, text_eq, push_text};

verus! {

/// The SHA-1 digest of `data`, as the `sha1` crate computes it.
pub uninterp spec fn sha1_of(data: Seq<u8>) -> Seq<u8>;

/// The lower-case hexadecimal digit for a value below sixteen.
pub open spec fn hex_digit(n: nat) -> char
    recommends
        n < 16,
{
    if n < 10 {
        digit_char(n)
    } else {
        ((n - 10 + 97) as u32) as char
    }
}

/// Bytes written as lower-case hexadecimal text, two digits per byte, high
/// digit first.
pub open spec fn hex_lower(data: Seq<u8>) -> Seq<char>
    decreases data.len(),
{
    if data.len() == 0 {
        Seq::empty()
    } else {
        seq![hex_digit((data[0] / 16) as nat), hex_digit((data[0] % 16) as nat)] + hex_lower(
            data.drop_first(),
        )
    }
}

/// Whether `content` has the given lower-case hexadecimal SHA-1 digest.
pub open spec fn sha1_matches(content: Seq<u8>, expected: Seq<char>) -> bool {
    hex_lower(sha1_of(content)) == expected
}

/// Calls `sha1::Sha1::digest`: the 20-byte SHA-1 digest of `data`.
#[verifier::external_body]
fn sha1_digest(data: &[u8]) -> (r: Vec<u8>)
    ensures
        r@ == sha1_of(data@),
        r@.len() == 20,
{
    <sha1::Sha1 as sha1::Digest>::digest(data).to_vec()
}

/// The one-character text of a hexadecimal digit.
fn hex_digit_text(n: u8) -> (r: &'static str)
    requires
        n < 16,
    ensures
        r@ == seq![hex_digit(n as nat)],
{
    let all = "0123456789abcdef";
    proof {
        reveal_strlit("0123456789abcdef");
    }
    let r = all.substring_char(n as usize, (n + 1) as usize);
    assert(r@ =~= seq![hex_digit(n as nat)]);
    r
}

/// Bytes written as lower-case hexadecimal text, two digits per byte, high
/// digit first.
pub fn hex_text(data: &[u8]) -> (r: String)
    ensures
        r@ == hex_lower(data@),
{
    let mut r = String::new();
    let mut i: usize = 0;
    assert(data@.subrange(0, data@.len() as int) =~= data@);
    while i < data.len()
        invariant
            i <= data@.len(),
            r@ + hex_lower(data@.subrange(i as int, data@.len() as int)) == hex_lower(data@),
        decreases data.len() - i,
    {
        let b = data[i];
        let ghost rest = data@.subrange(i as int, data@.len() as int);
        assert(rest.drop_first() =~= data@.subrange(i + 1, data@.len() as int));
        assert(rest[0] == b);
        let ghost before = r@;
        push_text(&mut r, hex_digit_text(b / 16));
        push_text(&mut r, hex_digit_text(b % 16));
        assert(r@ =~= before + seq![hex_digit((b / 16) as nat), hex_digit((b % 16) as nat)]);
        assert(r@ + hex_lower(data@.subrange(i + 1, data@.len() as int)) =~= before + hex_lower(rest));
        i = i + 1;
    }
    assert(data@.subrange(i as int, data@.len() as int) =~= Seq::<u8>::empty());
    assert(r@ + hex_lower(Seq::<u8>::empty()) =~= r@);
    r
}

/// The lower-case hexadecimal SHA-1 digest of `content`.
pub fn sha1_hex(content: &[u8]) -> (r: String)
    ensures
        r@ == hex_lower(sha1_of(content@)),
{
    let digest = sha1_digest(content);
    hex_text(digest.as_slice())
}

/// Whether `content` has the given lower-case hexadecimal SHA-1 digest.
pub fn matches_sha1(content: &[u8], expected_sha1: &str) -> (r: bool)
    ensures
        r == sha1_matches(content@, expected_sha1@),
{
    let actual = sha1_hex(content);
    text_eq(actual.as_str(), expected_sha1)
}

/// Why a download was rejected.
#[derive(Debug, Clone, PartialEq, Eq)]
pub enum DownloadError {
    /// The downloaded bytes do not have the published digest.
    Sha1Mismatch,
}

impl DownloadError {
    /// The text that reports this error.
    pub fn message(&self) -> (r: String)
        ensures
            r@ == "SHA1 verification failed"@,
    {
        match self {
            DownloadError::Sha1Mismatch => crate::text::text_from("SHA1 verification failed"),
        }
    }
}

/// Whether a file must be fetched: it must unless it already exists (its
/// content is given) and has the published digest.
pub open spec fn must_fetch(existing: Option<Seq<u8>>, expected_sha1: Seq<char>) -> bool {
    match existing {
        Some(content) => !sha1_matches(content, expected_sha1),
        None => true,
    }
}

/// Whether a file must be fetched, given its current content if it exists.
pub fn needs_download(existing: Option<&[u8]>, expected_sha1: &str) -> (r: bool)
    ensures
        r == must_fetch(
            match existing {
                Some(content) => Some(content@),
                None => None,
            },
            expected_sha1@,
        ),
{
    match existing {
        Some(content) => !matches_sha1(content, expected_sha1),
        None => true,
    }
}

/// Accepts freshly downloaded bytes only when they have the published digest.
pub fn check_download(content: &[u8], expected_sha1: &str) -> (r: Result<(), DownloadError>)
    ensures
        r is Ok <==> sha1_matches(content@, expected_sha1@),
        r matches Err(e) ==> e == DownloadError::Sha1Mismatch,
{
    if matches_sha1(content, expected_sha1) {
        Ok(())
    } else {
        Err(DownloadError::Sha1Mismatch)
    }
}

/// Running again fetches nothing twice: a file whose download was accepted is
/// not fetched again while its content stays the same.
pub proof fn lemma_accepted_download_is_kept(content: Seq<u8>, expected_sha1: Seq<char>)
    requires
        sha1_matches(content, expected_sha1),
    ensures
        !must_fetch(Some(content), expected_sha1),
{
}

} // verus!
