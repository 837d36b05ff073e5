use vstd::prelude::*;

verus! {

/// Number of reported errors after which compilation gives up.
pub const MAX_ERROR_COUNT: usize = 100;

/// Records that one more compilation error happened.
///
/// Compilation keeps going after an error so that as many errors as possible get
/// reported; once the count reaches `MAX_ERROR_COUNT` the caller is told to stop
/// (`None`), and it is then up to the caller to report "too many errors".
pub fn bump_error_count(error_count: &mut usize) -> (r: Option<()>)
    requires
        *old(error_count) < usize::MAX,
    ensures
        *final(error_count) == *old(error_count) + 1,
        r is None <==> *final(error_count) >= MAX_ERROR_COUNT,
{
    *error_count += 1;
    if *error_count >= MAX_ERROR_COUNT {
        return None;
    }
    Some(())
}

} // verus!
