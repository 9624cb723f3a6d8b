//! Path syntax: which paths the filesystem accepts, and how they name nodes.

use vstd::prelude::*;
use vstd::string::*;
use crate::fs::vfs::VfsError;

verus! {

/// Longest accepted path, in bytes.
pub const MAX_PATH_LENGTH: usize = 256;

pub const SLASH: u8 = 0x2F;
pub const DOT: u8 = 0x2E;

/// Bytes a path may contain: ASCII letters and digits, '/', '_', '-', '.'.
pub open spec fn allowed_byte(c: u8) -> bool {
    c == SLASH || c == 0x5F || c == 0x2D || c == DOT || (0x61 <= c <= 0x7A) || (0x41 <= c <= 0x5A) || (0x30
        <= c <= 0x39)
}

/// Two slashes follow each other somewhere in `b`.
pub open spec fn has_double_slash(b: Seq<u8>) -> bool {
    exists|i: int| 0 <= i < b.len() - 1 && b[i] == SLASH && #[trigger] b[i + 1] == SLASH
}

/// Some component of `b` is ".", or starts with "..".
pub open spec fn has_traversal(b: Seq<u8>) -> bool {
    exists|i: int|
        1 <= i < b.len() && b[i - 1] == SLASH && #[trigger] b[i] == DOT && (i + 1 == b.len() || b[i + 1]
            == SLASH || b[i + 1] == DOT)
}

/// Why the path with bytes `b` is refused (`ascii`: its characters are all
/// ASCII), or `None` when it is accepted. The checks come in this order: it
/// must be non-empty and start with '/'; it must hold no NUL byte; it must be
/// ASCII of at most 256 bytes from the allowed set, without "//"; no
/// component may be "." or start with "..".
pub open spec fn path_error(b: Seq<u8>, ascii: bool) -> Option<VfsError> {
    if b.len() == 0 || b[0] != SLASH {
        Some(VfsError::InvalidPath)
    } else if b.contains(0u8) {
        Some(VfsError::NullByteInjection)
    } else if !ascii || b.len() > MAX_PATH_LENGTH || has_double_slash(b) || !(forall|i: int|
        0 <= i < b.len() ==> allowed_byte(#[trigger] b[i])) {
        Some(VfsError::InvalidPath)
    } else if has_traversal(b) {
        Some(VfsError::PathTraversal)
    } else {
        None
    }
}

/// The key naming the node of an accepted path: the path without a
/// trailing slash ("/" names the root, the empty key).
pub open spec fn path_key(b: Seq<u8>) -> Seq<u8> {
    if b.len() > 0 && b.last() == SLASH {
        b.drop_last()
    } else {
        b
    }
}

/// No path that climbs with a `..` component is ever accepted.
pub proof fn lemma_traversal_refused(b: Seq<u8>, ascii: bool)
    requires
        has_traversal(b),
    ensures
        path_error(b, ascii) is Some,
{
}

/// Checks a path against `path_error`.
pub fn check_path(path: &str) -> (r: Result<(), VfsError>)
    ensures
        r is Ok <==> path_error(path.spec_bytes(), is_ascii(path)) is None,
        r matches Err(e) ==> path_error(path.spec_bytes(), is_ascii(path)) == Some(e),
{
    let b = path.as_bytes();
    if b.len() == 0 || b[0] != SLASH {
        return Err(VfsError::InvalidPath);
    }
    let mut i: usize = 0;
    while i < b.len()
        invariant
            i <= b@.len(),
            b@ == path.spec_bytes(),
            b@.len() > 0 && b@[0] == SLASH,
            forall|j: int| 0 <= j < i ==> b@[j] != 0u8,
        decreases b@.len() - i,
    {
        if b[i] == 0 {
            assert(b@.contains(0u8));
            return Err(VfsError::NullByteInjection);
        }
        i += 1;
    }
    assert(!b@.contains(0u8));
    if !path.is_ascii() || b.len() > MAX_PATH_LENGTH {
        return Err(VfsError::InvalidPath);
    }
    let mut i: usize = 0;
    while i < b.len()
        invariant
            i <= b@.len(),
            b@ == path.spec_bytes(),
            b@.len() > 0 && b@[0] == SLASH,
            !b@.contains(0u8),
            is_ascii(path),
            b@.len() <= MAX_PATH_LENGTH,
            forall|j: int| 0 <= j < i ==> allowed_byte(#[trigger] b@[j]),
            forall|j: int| 0 <= j < i && j + 1 < b@.len() ==> !(b@[j] == SLASH && #[trigger] b@[j + 1] == SLASH),
        decreases b@.len() - i,
    {
        let c = b[i];
        let ok = c == SLASH || c == 0x5F || c == 0x2D || c == DOT || (0x61 <= c && c <= 0x7A) || (0x41 <= c
            && c <= 0x5A) || (0x30 <= c && c <= 0x39);
        if !ok {
            return Err(VfsError::InvalidPath);
        }
        if i + 1 < b.len() && c == SLASH && b[i + 1] == SLASH {
            assert(has_double_slash(b@));
            return Err(VfsError::InvalidPath);
        }
        i += 1;
    }
    assert(!has_double_slash(b@));
    let mut i: usize = 1;
    while i < b.len()
        invariant
            1 <= i <= b@.len(),
            b@ == path.spec_bytes(),
            b@.len() > 0 && b@[0] == SLASH,
            !b@.contains(0u8),
            is_ascii(path),
            b@.len() <= MAX_PATH_LENGTH,
            forall|j: int| 0 <= j < b@.len() ==> allowed_byte(#[trigger] b@[j]),
            !has_double_slash(b@),
            forall|j: int|
                1 <= j < i ==> !(b@[j - 1] == SLASH && #[trigger] b@[j] == DOT && (j + 1 == b@.len() || b@[j
                    + 1] == SLASH || b@[j + 1] == DOT)),
        decreases b@.len() - i,
    {
        if b[i - 1] == SLASH && b[i] == DOT && (i + 1 == b.len() || b[i + 1] == SLASH || b[i + 1] == DOT) {
            assert(has_traversal(b@));
            return Err(VfsError::PathTraversal);
        }
        i += 1;
    }
    Ok(())
}

} // verus!
