//! The library's trusted boundary: declarations of outside types and the thin
//! wrappers through which verified code calls outside functions. Each contract
//! here is believed, not proved; the doc comment of each says what it claims.
use std::path::PathBuf;
use std::sync::mpsc::{Receiver, SendError, Sender, TryRecvError};
use std::time::Duration;

use sha1::Digest;
use vstd::prelude::*;

verus! {

/// `std::path::PathBuf`, carried through opaquely.
#[verifier::external_type_specification]
#[verifier::external_body]
pub struct ExPathBuf(PathBuf);

/// The parent of a path, as `Path::parent` gives it: `None` for a root or an
/// empty path.
pub uninterp spec fn parent_of(p: PathBuf) -> Option<PathBuf>;

/// `Path::parent`, owned: the same for the same path.
#[verifier::external_body]
pub(crate) fn path_parent(p: &PathBuf) -> (r: Option<PathBuf>)
    ensures
        r == parent_of(*p),
{
    match p.parent() {
        Some(q) => Some(q.to_path_buf()),
        None => None,
    }
}

/// `String::push`: appends one character at the end of the string.
#[verifier::external_body]
pub(crate) fn push_char(s: &mut String, c: char)
    ensures
        final(s)@ == old(s)@.push(c),
{
    s.push(c)
}

/// `PathBuf::clone`: a path equal to the one cloned.
pub assume_specification[ <PathBuf as Clone>::clone ](p: &PathBuf) -> (r: PathBuf)
    ensures
        r == *p,
;

/// `Duration::clone`: the same duration (`Duration` is `Copy`).
pub assume_specification[ <Duration as Clone>::clone ](d: &Duration) -> (r: Duration)
    ensures
        r == *d,
;

/// The duration of `ms` milliseconds.
pub uninterp spec fn millis_duration(ms: u64) -> Duration;

/// The duration of `s` seconds.
pub uninterp spec fn secs_duration(s: u64) -> Duration;

/// `Duration::from_millis`: the duration of `ms` milliseconds, the same for the same `ms`.
#[verifier::external_body]
pub(crate) fn duration_from_millis(ms: u64) -> (d: Duration)
    ensures
        d == millis_duration(ms),
{
    Duration::from_millis(ms)
}

/// `Duration::from_secs`: the duration of `s` seconds, the same for the same `s`.
#[verifier::external_body]
pub(crate) fn duration_from_secs(s: u64) -> (d: Duration)
    ensures
        d == secs_duration(s),
{
    Duration::from_secs(s)
}

/// `Duration::as_millis`: the whole milliseconds of `d`; of a duration made
/// from a count of milliseconds or seconds, that count in milliseconds.
#[verifier::external_body]
pub(crate) fn duration_millis(d: &Duration) -> (r: u128)
    ensures
        forall|ms: u64| *d == #[trigger] millis_duration(ms) ==> r == ms,
        forall|s: u64| *d == #[trigger] secs_duration(s) ==> r == s * 1000,
{
    d.as_millis()
}

/// `serde_json::Error`, carried through opaquely.
#[verifier::external_type_specification]
#[verifier::external_body]
pub struct ExJsonError(serde_json::Error);

/// A running SHA-1 computation (`sha1::Sha1`); Verus sees only what was fed to it.
#[verifier::external_body]
pub struct Sha1Hasher {
    inner: sha1::Sha1,
}

/// A running SHA-256 computation (`sha2::Sha256`); Verus sees only what was fed to it.
#[verifier::external_body]
pub struct Sha256Hasher {
    inner: sha2::Sha256,
}

/// The bytes fed to a SHA-1 computation so far.
pub uninterp spec fn sha1_fed(h: Sha1Hasher) -> Seq<u8>;

/// The bytes fed to a SHA-256 computation so far.
pub uninterp spec fn sha256_fed(h: Sha256Hasher) -> Seq<u8>;

/// The SHA-1 digest of `bytes`.
pub uninterp spec fn sha1_digest(bytes: Seq<u8>) -> Seq<u8>;

/// The SHA-256 digest of `bytes`.
pub uninterp spec fn sha256_digest(bytes: Seq<u8>) -> Seq<u8>;

/// `Sha1::new`: a computation fed nothing yet.
#[verifier::external_body]
pub(crate) fn sha1_start() -> (h: Sha1Hasher)
    ensures
        sha1_fed(h) == Seq::<u8>::empty(),
{
    Sha1Hasher { inner: sha1::Sha1::new() }
}

/// `Digest::update` on SHA-1: `chunk` is fed after what came before.
#[verifier::external_body]
pub(crate) fn sha1_feed(h: &mut Sha1Hasher, chunk: &[u8])
    ensures
        sha1_fed(*final(h)) == sha1_fed(*old(h)) + chunk@,
{
    h.inner.update(chunk)
}

/// `Digest::finalize` on SHA-1: the 20-byte digest of everything fed.
#[verifier::external_body]
pub(crate) fn sha1_finish(h: Sha1Hasher) -> (d: Vec<u8>)
    ensures
        d@ == sha1_digest(sha1_fed(h)),
        d@.len() == 20,
{
    h.inner.finalize().to_vec()
}

/// `Sha256::new`: a computation fed nothing yet.
#[verifier::external_body]
pub(crate) fn sha256_start() -> (h: Sha256Hasher)
    ensures
        sha256_fed(h) == Seq::<u8>::empty(),
{
    Sha256Hasher { inner: sha2::Sha256::new() }
}

/// `Digest::update` on SHA-256: `chunk` is fed after what came before.
#[verifier::external_body]
pub(crate) fn sha256_feed(h: &mut Sha256Hasher, chunk: &[u8])
    ensures
        sha256_fed(*final(h)) == sha256_fed(*old(h)) + chunk@,
{
    h.inner.update(chunk)
}

/// `Digest::finalize` on SHA-256: the 32-byte digest of everything fed.
#[verifier::external_body]
pub(crate) fn sha256_finish(h: Sha256Hasher) -> (d: Vec<u8>)
    ensures
        d@ == sha256_digest(sha256_fed(h)),
        d@.len() == 32,
{
    h.inner.finalize().to_vec()
}

/// A lowercase hexadecimal digit for `n` below 16.
pub open spec fn hex_digit(n: int) -> char {
    if n < 10 {
        (48 + n) as char
    } else {
        (87 + n) as char
    }
}

/// Each byte as two lowercase hexadecimal digits, high half first.
pub open spec fn lower_hex(bytes: Seq<u8>) -> Seq<char>
    decreases bytes.len(),
{
    if bytes.len() == 0 {
        Seq::empty()
    } else {
        lower_hex(bytes.drop_last()) + seq![
            hex_digit(bytes.last() as int / 16),
            hex_digit(bytes.last() as int % 16),
        ]
    }
}

/// `hex::encode`: each byte as two lowercase hexadecimal digits, high half first.
#[verifier::external_body]
pub(crate) fn hex_lower(bytes: &[u8]) -> (r: String)
    ensures
        r@ == lower_hex(bytes@),
{
    hex::encode(bytes)
}

/// `Path::eq` for two paths that are not identical values: whether they have
/// the same components.
pub uninterp spec fn path_components_equal(a: PathBuf, b: PathBuf) -> bool;

/// Whether two paths are equal as `PathBuf`'s `==` compares them.
pub open spec fn same_path(a: PathBuf, b: PathBuf) -> bool {
    a == b || path_components_equal(a, b)
}

/// `PathBuf == PathBuf`: true for identical values (it is reflexive), else as
/// the component comparison decides.
#[verifier::external_body]
pub(crate) fn paths_equal(a: &PathBuf, b: &PathBuf) -> (r: bool)
    ensures
        r == (*a == *b || path_components_equal(*a, *b)),
{
    a == b
}

/// The path with `suffix` appended to its last component's text.
pub uninterp spec fn suffixed_path(path: PathBuf, suffix: Seq<char>) -> PathBuf;

/// Appends `suffix` to the path's text (`OsString::push` on a copy of it).
#[verifier::external_body]
pub(crate) fn path_with_suffix(path: &PathBuf, suffix: &str) -> (r: PathBuf)
    ensures
        r == suffixed_path(*path, suffix@),
{
    let mut value = path.as_os_str().to_os_string();
    value.push(suffix);
    PathBuf::from(value)
}

/// `std::io::Error`, carried through opaquely.
#[verifier::external_type_specification]
#[verifier::external_body]
pub struct ExIoError(std::io::Error);

/// `std::sync::mpsc::Sender`, carried through opaquely.
#[verifier::external_type_specification]
#[verifier::external_body]
#[verifier::reject_recursive_types(T)]
pub struct ExSender<T>(Sender<T>);

/// `std::sync::mpsc::Receiver`, carried through opaquely.
#[verifier::external_type_specification]
#[verifier::external_body]
#[verifier::reject_recursive_types(T)]
pub struct ExReceiver<T>(Receiver<T>);

/// `std::sync::mpsc::SendError`, carried through opaquely.
#[verifier::external_type_specification]
#[verifier::external_body]
#[verifier::reject_recursive_types(T)]
pub struct ExSendError<T>(SendError<T>);

/// `std::sync::mpsc::TryRecvError`, carried through opaquely.
#[verifier::external_type_specification]
#[verifier::external_body]
pub struct ExTryRecvError(TryRecvError);

/// `Sender::clone`: another sender into the same channel; nothing is claimed of it.
pub assume_specification<T>[ <Sender<T> as Clone>::clone ](s: &Sender<T>) -> Sender<T>;

/// `std::sync::mpsc::channel`: a new channel; nothing is claimed of its ends.
#[verifier::external_body]
pub(crate) fn new_channel<T>() -> (Sender<T>, Receiver<T>) {
    std::sync::mpsc::channel()
}

/// `Sender::send`: hands `value` to the receiving end; fails once that end is
/// gone. Whether it is gone depends on other code, so nothing is claimed.
#[verifier::external_body]
pub(crate) fn send_value<T>(sender: &Sender<T>, value: T) -> Result<(), SendError<T>> {
    sender.send(value)
}

/// `Receiver::try_recv`: the next waiting value, if any; what is waiting depends
/// on other code, so nothing is claimed.
#[verifier::external_body]
pub(crate) fn try_receive<T>(receiver: &Receiver<T>) -> Result<T, TryRecvError> {
    receiver.try_recv()
}

/// `Receiver::try_recv`, with "nothing waiting" and "sender gone" both as `None`.
#[verifier::external_body]
pub(crate) fn receive_now<T>(receiver: &Receiver<T>) -> Option<T> {
    receiver.try_recv().ok()
}

} // verus!
