use vstd::prelude::*;
use vstd::utf8::*;
use vstd::string::StringSliceAdditionalSpecFns;
use crate::error::TailError;

verus! {

broadcast use vstd::utf8::group_utf8_lib;

/// Size in bytes of the trailing window that a snapshot reads.
pub const SNAPSHOT_WINDOW: u64 = 1024;

/// The line feed byte.
pub const NEWLINE: u8 = 10;

/// Offset at which the trailing window of a file of `len` bytes starts.
pub open spec fn window_start(len: nat) -> nat {
    if len > SNAPSHOT_WINDOW {
        (len - SNAPSHOT_WINDOW) as nat
    } else {
        0
    }
}

pub open spec fn has_newline(s: Seq<u8>) -> bool {
    exists|i: int| 0 <= i < s.len() && s[i] == NEWLINE
}

/// `i` is the position of the first line feed in `s`.
pub open spec fn is_first_newline(s: Seq<u8>, i: int) -> bool {
    &&& 0 <= i < s.len()
    &&& s[i] == NEWLINE
    &&& forall|j: int| 0 <= j < i ==> s[j] != NEWLINE
}

pub open spec fn first_newline(s: Seq<u8>) -> int {
    choose|i: int| is_first_newline(s, i)
}

/// The window with everything up to and including its first line feed
/// dropped; the window itself when it holds no line feed.
pub open spec fn line_aligned(w: Seq<u8>) -> Seq<u8> {
    if has_newline(w) {
        w.skip(first_newline(w) + 1)
    } else {
        w
    }
}

/// Bytes of the snapshot text for a window read from `offset`: a window that
/// starts the file is already line aligned and is kept whole.
pub open spec fn snapshot_bytes(offset: nat, w: Seq<u8>) -> Seq<u8> {
    if offset > 0 {
        line_aligned(w)
    } else {
        w
    }
}

/// A first line feed exists wherever a line feed does.
pub proof fn lemma_first_newline_exists(s: Seq<u8>)
    requires
        has_newline(s),
    ensures
        is_first_newline(s, first_newline(s)),
    decreases s.len(),
{
    let i = choose|i: int| 0 <= i < s.len() && s[i] == NEWLINE;
    if exists|j: int| 0 <= j < i && s[j] == NEWLINE {
        let t = s.take(i);
        assert(has_newline(t)) by {
            let j = choose|j: int| 0 <= j < i && s[j] == NEWLINE;
            assert(t[j] == NEWLINE);
        }
        lemma_first_newline_exists(t);
        let k = first_newline(t);
        assert forall|j: int| 0 <= j < k implies s[j] != NEWLINE by {
            assert(t[j] == s[j]);
        }
        assert(s[k] == t[k]);
        assert(is_first_newline(s, k));
    } else {
        assert(is_first_newline(s, i));
    }
}

/// Only one position can be the first line feed.
pub proof fn lemma_first_newline_unique(s: Seq<u8>, i: int)
    requires
        is_first_newline(s, i),
    ensures
        first_newline(s) == i,
{
    let k = first_newline(s);
    assert(is_first_newline(s, k));
    if k < i {
        assert(s[k] != NEWLINE);
    } else if i < k {
        assert(s[i] != NEWLINE);
    }
}

/// A window holding a line feed splits into a discarded prefix that ends at
/// its first line feed and the line-aligned rest, which together give the
/// window back unchanged.
pub proof fn lemma_snapshot_boundary(offset: nat, w: Seq<u8>)
    requires
        offset > 0,
        has_newline(w),
    ensures
        ({
            let k = first_newline(w) + 1;
            &&& w.take(k) + snapshot_bytes(offset, w) == w
            &&& w.take(k).last() == NEWLINE
            &&& forall|j: int| 0 <= j < k - 1 ==> w.take(k)[j] != NEWLINE
        }),
{
    lemma_first_newline_exists(w);
    let k = first_newline(w) + 1;
    assert(w.take(k) + w.skip(k) =~= w);
}

/// Offset of the trailing window of a file of `len` bytes.
pub fn snapshot_offset(len: u64) -> (r: u64)
    ensures
        r == window_start(len as nat),
{
    if len > SNAPSHOT_WINDOW {
        len - SNAPSHOT_WINDOW
    } else {
        0
    }
}

/// Position of the first line feed in `b`, if any.
pub fn find_newline(b: &[u8]) -> (r: Option<usize>)
    ensures
        r matches Some(i) ==> is_first_newline(b@, i as int),
        r is None <==> !has_newline(b@),
{
    let mut i: usize = 0;
    while i < b.len()
        invariant
            i <= b@.len(),
            forall|j: int| 0 <= j < i ==> b@[j] != NEWLINE,
        decreases b@.len() - i,
    {
        if b[i] == NEWLINE {
            return Some(i);
        }
        i = i + 1;
    }
    None
}

/// Relies on std::str::from_utf8: it succeeds exactly on valid UTF-8 and then
/// views the same bytes as text.
#[verifier::external_body]
pub(crate) fn decode_text(b: &[u8]) -> (r: Option<&str>)
    ensures
        r is Some <==> valid_utf8(b@),
        r matches Some(s) ==> s.spec_bytes() == b@,
{
    std::str::from_utf8(b).ok()
}

/// The snapshot text of a trailing window read from `offset`: the whole
/// window when it starts the file, else the window after its first line feed
/// (the whole window when it holds none). Fails with `Decode` exactly when
/// the window is not valid UTF-8.
pub fn snapshot_text(offset: u64, window: &[u8]) -> (r: Result<String, TailError>)
    ensures
        r is Ok <==> valid_utf8(window@),
        r is Err ==> r == Err::<String, TailError>(TailError::Decode),
        r matches Ok(t) ==> encode_utf8(t@) == snapshot_bytes(offset as nat, window@),
{
    let text = match decode_text(window) {
        Some(s) => s,
        None => return Err(TailError::Decode),
    };
    if offset == 0 {
        return Ok(text.to_owned());
    }
    match find_newline(window) {
        None => Ok(text.to_owned()),
        Some(i) => {
            let ghost bytes = window@;
            proof {
                lemma_first_newline_unique(bytes, i as int);
                assert(is_leading_byte_width_1(NEWLINE));
                assert(is_char_boundary(bytes, i as int));
            }
            let (_, rest) = text.split_at(i);
            proof {
                let rb = rest.spec_bytes();
                assert(rb[0] == NEWLINE);
                assert(length_of_first_scalar(rb) == 1);
                reveal_with_fuel(is_char_boundary, 2);
                assert(is_char_boundary(rb, 1));
            }
            let (_, tail) = rest.split_at(1);
            assert(tail.spec_bytes() =~= bytes.skip(i + 1));
            Ok(tail.to_owned())
        },
    }
}

} // verus!
