//! What was seen of files, and fingerprints that tell whether one has changed.
use sha2::Digest;
use vstd::prelude::*;

use crate::error::{Error, Failure};
use crate::text::same_text;

verus! {

/// What was seen at a path. `Bytes` and `Text` are `Vec<u8>` and `String` in running code and
/// sequences in contracts.
#[derive(Debug)]
pub enum FileState<Bytes, Text> {
    /// There is nothing.
    Missing,
    /// There is a file with these contents.
    Regular(Bytes),
    /// There is something else, such as a directory: its length and, where it is known, the time
    /// of its last change in nanoseconds since the start of 1970.
    Special(u64, Option<u128>),
    /// There is something that could not be read: the reason.
    Unreadable(Text),
}

/// What was seen at a path, in running code.
pub type Sighting = FileState<Vec<u8>, String>;

/// What was seen at a path, in contracts.
pub type SightingModel = FileState<Seq<u8>, Seq<char>>;

impl View for FileState<Vec<u8>, String> {
    type V = FileState<Seq<u8>, Seq<char>>;

    open spec fn view(&self) -> FileState<Seq<u8>, Seq<char>> {
        match *self {
            FileState::Missing => FileState::Missing,
            FileState::Regular(bytes) => FileState::Regular(bytes@),
            FileState::Special(length, modified) => FileState::Special(length, modified),
            FileState::Unreadable(reason) => FileState::Unreadable(reason@),
        }
    }
}

/// The paths that were looked at and what was seen there. Of a path that was not looked at,
/// nothing was seen.
#[derive(Debug)]
pub struct Files {
    pub seen: Vec<(String, Sighting)>,
}

/// What the first sighting of `path` saw.
pub open spec fn first_sighting(seen: Seq<(String, Sighting)>, path: Seq<char>) -> SightingModel
    decreases seen.len(),
{
    if seen.len() == 0 {
        FileState::Missing
    } else if seen[0].0@ == path {
        seen[0].1@
    } else {
        first_sighting(seen.drop_first(), path)
    }
}

impl Files {
    /// What was seen at `path`.
    pub open spec fn sighting(self, path: Seq<char>) -> SightingModel {
        first_sighting(self.seen@, path)
    }

    /// What was seen at `path`, where it was looked at.
    pub fn look_up(&self, path: &str) -> (r: Option<&Sighting>)
        ensures
            self.sighting(path@) == match r {
                Some(sighting) => sighting@,
                None => FileState::Missing,
            },
    {
        let mut i: usize = 0;
        proof {
            assert(self.seen@.skip(0) =~= self.seen@);
        }
        while i < self.seen.len()
            invariant
                i <= self.seen@.len(),
                self.sighting(path@) == first_sighting(self.seen@.skip(i as int), path@),
            decreases self.seen@.len() - i,
        {
            proof {
                assert(self.seen@.skip(i as int)[0] == self.seen@[i as int]);
                assert(self.seen@.skip(i as int).drop_first() =~= self.seen@.skip(i + 1));
            }
            if same_text(&self.seen[i].0, path) {
                return Some(&self.seen[i].1);
            }
            i = i + 1;
        }
        None
    }

    /// Whether there is something at `path`.
    pub fn is_there(&self, path: &str) -> (r: bool)
        ensures
            r == !(self.sighting(path@) is Missing),
    {
        match self.look_up(path) {
            Some(FileState::Missing) => false,
            Some(_) => true,
            None => false,
        }
    }
}

/// The SHA-256 digest of a sequence of bytes.
pub uninterp spec fn sha256(bytes: Seq<u8>) -> Seq<u8>;

/// Calls `sha2::Sha256::digest`. The digest depends on the bytes alone and has 32 of them.
#[verifier::external_body]
fn sha256_of(bytes: &[u8]) -> (r: Vec<u8>)
    ensures
        r@ == sha256(bytes@),
        r@.len() == 32,
{
    sha2::Sha256::digest(bytes).to_vec()
}

/// The small letter or digit that writes four bits.
pub open spec fn hex_digit(n: int) -> char {
    if n < 10 {
        (('0' as u8) + n) as char
    } else {
        (('a' as u8) + (n - 10)) as char
    }
}

/// Two digits for each byte, the higher four bits first.
pub open spec fn hex(bytes: Seq<u8>) -> Seq<char> {
    Seq::new(
        2 * bytes.len(),
        |i: int|
            if i % 2 == 0 {
                hex_digit(bytes[i / 2] as int / 16)
            } else {
                hex_digit(bytes[i / 2] as int % 16)
            },
    )
}

/// Calls `hex::encode`, which writes two digits in small letters for each byte.
#[verifier::external_body]
fn hex_of(bytes: &Vec<u8>) -> (r: String)
    ensures
        r@ == hex(bytes@),
{
    hex::encode(bytes)
}

/// The lowest `count` bytes of `n`, the lowest first.
pub open spec fn little_endian(n: int, count: nat) -> Seq<u8>
    decreases count,
{
    if count == 0 {
        Seq::empty()
    } else {
        seq![(n % 256) as u8] + little_endian(n / 256, (count - 1) as nat)
    }
}

/// Appends the lowest `count` bytes of `n`, the lowest first.
fn push_little_endian(out: &mut Vec<u8>, n: u128, count: usize)
    ensures
        final(out)@ == old(out)@ + little_endian(n as int, count as nat),
{
    let ghost start = out@;
    let mut rest: u128 = n;
    let mut left: usize = count;
    while left > 0
        invariant
            start + little_endian(n as int, count as nat) == out@ + little_endian(
                rest as int,
                left as nat,
            ),
        decreases left,
    {
        let ghost before = out@;
        let ghost tail = little_endian(rest as int / 256, (left - 1) as nat);
        out.push((rest % 256) as u8);
        proof {
            assert(before + (seq![(rest as int % 256) as u8] + tail) =~= out@ + tail);
        }
        rest = rest / 256;
        left = left - 1;
    }
    proof {
        assert(out@ + little_endian(rest as int, 0) =~= out@);
    }
}

/// The bytes that the fingerprint of something other than a file is made of: its length and,
/// where it is known, the time of its last change.
pub open spec fn special_bytes(length: u64, modified: Option<u128>) -> Seq<u8> {
    little_endian(length as int, 8) + match modified {
        Some(nanos) => little_endian(nanos as int, 16),
        None => Seq::empty(),
    }
}

/// The fingerprint of what was seen; nothing has none, and of what cannot be read none can be
/// made.
pub open spec fn fingerprint(state: SightingModel) -> Result<Option<Seq<char>>, Failure<Seq<char>>> {
    match state {
        FileState::Missing => Ok(None),
        FileState::Regular(bytes) => Ok(Some(hex(sha256(bytes)))),
        FileState::Special(length, modified) => Ok(
            Some(hex(sha256(special_bytes(length, modified)))),
        ),
        FileState::Unreadable(reason) => Err(Failure::FileUnreadable(reason)),
    }
}

/// Whether a result of fingerprinting is what a contract says of it.
pub open spec fn fingerprint_agrees(
    r: Result<Option<String>, Error>,
    expected: Result<Option<Seq<char>>, Failure<Seq<char>>>,
) -> bool {
    match r {
        Ok(print) => expected == Ok::<Option<Seq<char>>, Failure<Seq<char>>>(
            crate::model::optional(print),
        ),
        Err(error) => expected == Err::<Option<Seq<char>>, Failure<Seq<char>>>(error@),
    }
}

/// The fingerprint of what was seen at `path`: 64 digits, where one can be made. That of a file is
/// the digest of its whole contents.
pub fn fingerprint_file(path: &str, files: &Files) -> (r: Result<Option<String>, Error>)
    ensures
        fingerprint_agrees(r, fingerprint(files.sighting(path@))),
        r matches Ok(Some(print)) ==> print@.len() == 64,
        files.sighting(path@) is Missing ==> r is Ok && r->Ok_0 is None,
        files.sighting(path@) is Unreadable ==> r is Err,
        files.sighting(path@) matches FileState::Regular(contents) ==> r is Ok && r->Ok_0 is Some
            && r->Ok_0->Some_0@ == hex(sha256(contents)),
{
    match files.look_up(path) {
        None => Ok(None),
        Some(sighting) => match sighting {
            FileState::Missing => Ok(None),
            FileState::Regular(bytes) => Ok(Some(hex_of(&sha256_of(bytes.as_slice())))),
            FileState::Special(length, modified) => {
                let mut bytes: Vec<u8> = Vec::new();
                push_little_endian(&mut bytes, *length as u128, 8);
                if let Some(nanos) = modified {
                    push_little_endian(&mut bytes, *nanos, 16);
                }
                proof {
                    assert(bytes@ =~= special_bytes(*length, *modified));
                }
                Ok(Some(hex_of(&sha256_of(bytes.as_slice()))))
            },
            FileState::Unreadable(reason) => Err(Failure::FileUnreadable(reason.clone())),
        },
    }
}

} // verus!
