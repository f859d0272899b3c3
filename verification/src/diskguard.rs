//! Free-space guard for the dump volume.

use vstd::prelude::*;

verus! {

/// Bytes in a megabyte.
pub const MB: u64 = 1048576;

/// `(ok, free_mb)` for a threshold of `min_free_mb` megabytes, `free_bytes`
/// being what the system reported free on the dump volume (`None` when the
/// query failed). A threshold of zero or less disables the guard: `(true, 0)`.
/// A failed query fails open: `(true, -1)`.
pub fn check_free_space(min_free_mb: i64, free_bytes: Option<u64>) -> (r: (bool, i64))
    ensures
        min_free_mb <= 0 ==> r == (true, 0i64),
        min_free_mb > 0 ==> match free_bytes {
            None => r == (true, -1i64),
            Some(f) => r.1 == f / MB && r.0 == (f / MB >= min_free_mb),
        },
{
    if min_free_mb <= 0 {
        return (true, 0);
    }
    match free_bytes {
        None => (true, -1),
        Some(f) => {
            let free_mb = (f / MB) as i64;
            (free_mb >= min_free_mb, free_mb)
        },
    }
}

} // verus!
