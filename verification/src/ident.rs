//! Random identifiers for visitors and rooms, checked against the directory
//! they are meant for.
use crate::directory::Directory;
use base64::engine::general_purpose::URL_SAFE;
use base64::Engine;
use rand_core::OsRng;
use rand_core::RngCore;
use vstd::prelude::*;

verus! {

/// How often [`gen_rand_id_safe`] draws before it gives up.
pub const ID_ATTEMPTS: usize = 64;

/// The padded URL-safe base64 text of `bytes`, as the `base64` crate's
/// `URL_SAFE` engine writes it.
pub uninterp spec fn url_safe_base64(bytes: Seq<u8>) -> Seq<char>;

/// Whether `c` may stand in a URL or a cookie without escaping: a letter or
/// digit of ASCII, a hyphen or an underscore.
pub open spec fn is_url_safe(c: char) -> bool {
    ||| 'A' <= c <= 'Z'
    ||| 'a' <= c <= 'z'
    ||| '0' <= c <= '9'
    ||| c == '-'
    ||| c == '_'
}

/// Whether `s` has the shape of an identifier: 28 URL-safe characters, which
/// is what 21 bytes encode to.
pub open spec fn is_id(s: Seq<char>) -> bool {
    &&& s.len() == 28
    &&& forall|i: int| 0 <= i < s.len() ==> is_url_safe(#[trigger] s[i])
}

/// `OsRng.fill_bytes` of `rand_core` on 21 bytes: 168 bits from the operating
/// system's random source. Nothing is claimed of the bytes. Where the system
/// cannot supply them the call aborts the process.
#[verifier::external_body]
fn random_key() -> (key: [u8; 21]) {
    let mut key = [0u8; 21];
    OsRng.fill_bytes(&mut key);
    key
}

/// `URL_SAFE.encode` of `base64` on 21 bytes. The text is a function of the
/// bytes alone. As 21 is a multiple of three the engine writes 28 characters
/// of its alphabet and no padding.
#[verifier::external_body]
fn encode_key(key: &[u8; 21]) -> (id: String)
    ensures
        id@ == url_safe_base64(key@),
        is_id(id@),
{
    URL_SAFE.encode(key)
}

/// A random identifier: 168 random bits in URL-safe text.
pub fn gen_rand_id() -> (id: String)
    ensures
        is_id(id@),
{
    let key = random_key();
    encode_key(&key)
}

/// Accepts `candidate` as a new identifier for `map` unless `map` already
/// holds it.
pub fn accept_id<T: View>(map: &Directory<T>, candidate: String) -> (id: Option<String>)
    requires
        map.wf(),
    ensures
        id.deep_view() == if map@.contains(candidate@) {
            None
        } else {
            Some(candidate@)
        },
{
    if map.contains_key(&candidate) {
        None
    } else {
        Some(candidate)
    }
}

/// A random identifier that `map` does not hold yet. A draw that collides is
/// thrown away and drawn again, up to [`ID_ATTEMPTS`] times; `None` says that
/// every draw collided, which takes a key of an identifier's shape in `map`.
pub fn gen_rand_id_safe<T: View>(map: &Directory<T>) -> (id: Option<String>)
    requires
        map.wf(),
    ensures
        id matches Some(fresh) ==> is_id(fresh@) && !map@.contains(fresh@),
        id is None ==> holds_id(map@),
{
    let mut left: usize = ID_ATTEMPTS;
    while left > 0
        invariant
            map.wf(),
            left == ID_ATTEMPTS || holds_id(map@),
        decreases left,
    {
        let candidate = gen_rand_id();
        let ghost drawn = candidate@;
        match accept_id(map, candidate) {
            Some(fresh) => {
                return Some(fresh);
            },
            None => {
                assert(map@.contains(drawn) && is_id(drawn));
            },
        }
        left = left - 1;
    }
    None
}

/// Whether `map` holds a key of the shape of an identifier. Only such a key
/// can collide with a draw: a directory without one, an empty one above all,
/// takes the first draw.
pub open spec fn holds_id<V>(map: crate::directory::DirectoryModel<V>) -> bool {
    exists|key: Seq<char>| #[trigger] map.contains(key) && is_id(key)
}

} // verus!
