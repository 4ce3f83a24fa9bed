//! Paging of review content into a fixed-size, null-terminated display
//! buffer, and the capability that review screens consume.

use vstd::prelude::*;
use crate::apdu_errors::ApduError;

verus! {

/// Errors a display backend can signal while rendering review content.
#[derive(Clone, Copy, PartialEq, Eq, Structural, Debug)]
pub enum ViewError {
    Unknown,
    NoData,
    Reject,
}

/// Capability consumed by review screens: render one item of reviewable
/// content, one page at a time, into fixed-size title and message buffers.
///
/// Implementors live outside this library (each reviewable operation
/// provides its own); the review machinery only calls through this
/// interface.
pub trait DisplayableItem {
    /// The number of items to display.
    fn num_items(&self) -> usize;

    /// Render page `page` of item `item_n` into `title` and `message`,
    /// returning the total page count for that item, or an
    /// out-of-range/no-data signal.
    fn render_item(&self, item_n: u8, title: &mut Vec<u8>, message: &mut Vec<u8>, page: u8) -> (r:
        Result<u8, ViewError>);
}

/// Map a view error to the status returned to the host.
pub fn view_error_to_apdu(e: ViewError) -> (r: ApduError)
    ensures
        r == ApduError::ExecutionError,
{
    match e {
        ViewError::Unknown | ViewError::NoData | ViewError::Reject => ApduError::ExecutionError,
    }
}

/// Copy one page of `input` into `out`, null-terminated.
///
/// The page size is `out.len() - 1` (one byte is reserved for the null
/// terminator). When the input fits in a single page it is copied whole and
/// the page count is 1, whatever `page` was asked for; otherwise page
/// `page` is copied and the count is `input.len()` divided by the page
/// size. `None` means the requested page is out of range. Bytes past the
/// terminator are left untouched.
pub fn handle_message(input: &[u8], out: &mut Vec<u8>, page: u8) -> (r: Option<u8>)
    requires
        old(out)@.len() >= 2,
    ensures
        final(out)@.len() == old(out)@.len(),
        r is None ==> final(out)@ == old(out)@,
        ({
            let m_len = old(out)@.len() - 1;
            let start = page as int * m_len;
            if m_len <= input@.len() {
                let end = if start + m_len <= input@.len() {
                    start + m_len
                } else {
                    input@.len() as int
                };
                let n_pages = input@.len() as int / m_len;
                &&& (r is None <==> start >= input@.len())
                &&& (r is Some ==> final(out)@.subrange(0, end - start) == input@.subrange(
                    start,
                    end,
                ))
                &&& (r is Some ==> final(out)@[end - start] == 0u8)
                &&& (r is Some ==> forall|i: int|
                    end - start < i < final(out)@.len() ==> final(out)@[i] == old(out)@[i])
                &&& (r is Some && n_pages <= 255 ==> r == Some(n_pages as u8))
            } else {
                &&& r == Some(1u8)
                &&& final(out)@.subrange(0, input@.len() as int) == input@
                &&& final(out)@[input@.len() as int] == 0u8
                &&& forall|i: int|
                    input@.len() < i < final(out)@.len() ==> final(out)@[i] == old(out)@[i]
            }
        }),
{
    let ghost out0 = out@;
    let m_len = out.len() - 1;
    if m_len <= input.len() {
        let start_opt = (page as usize).checked_mul(m_len);
        let in_range = match start_opt {
            Some(s) => s < input.len(),
            None => false,
        };
        if !in_range {
            return None;
        }
        let start = match start_opt {
            Some(s) => s,
            None => 0,
        };
        let end = if m_len <= input.len() - start {
            start + m_len
        } else {
            input.len()
        };
        let clen = end - start;

        let mut i: usize = 0;
        while i < clen
            invariant
                out@.len() == out0.len(),
                start + clen <= input@.len(),
                input@.len() <= usize::MAX,
                clen < out@.len(),
                i <= clen,
                forall|j: int| 0 <= j < i ==> out@[j] == input@[start + j],
                forall|j: int| i <= j < out@.len() ==> out@[j] == out0[j],
            decreases clen - i,
        {
            out.set(i, input[start + i]);
            i += 1;
        }
        out.set(clen, 0);

        let n_pages = input.len() / m_len;
        proof {
            assert(out@.subrange(0, clen as int) =~= input@.subrange(
                start as int,
                end as int,
            ));
        }
        Some(#[verifier::truncate] (n_pages as u8))
    } else {
        let clen = input.len();
        let mut i: usize = 0;
        while i < clen
            invariant
                out@.len() == out0.len(),
                clen < out0.len() - 1,
                clen == input@.len(),
                i <= clen,
                forall|j: int| 0 <= j < i ==> out@[j] == input@[j],
                forall|j: int| i <= j < out@.len() ==> out@[j] == out0[j],
            decreases clen - i,
        {
            out.set(i, input[i]);
            i += 1;
        }
        out.set(clen, 0);
        proof {
            assert(out@.subrange(0, clen as int) =~= input@);
        }
        Some(1)
    }
}

} // verus!
