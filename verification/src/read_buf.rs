//! The buffer that datagrams are received into.
use tokio::io::ReadBuf;
use vstd::prelude::*;

verus! {

#[verifier::external_type_specification]
#[verifier::external_body]
pub struct ExReadBuf<'a>(ReadBuf<'a>);

/// The bytes of the initialized part of a buffer.
pub uninterp spec fn read_buf_initialized(buf: ReadBuf<'_>) -> Seq<u8>;

/// How many bytes, from the first on, of a buffer are filled.
pub uninterp spec fn read_buf_filled_len(buf: ReadBuf<'_>) -> nat;

/// The bytes that a buffer is filled with.
pub open spec fn read_buf_filled(buf: ReadBuf<'_>) -> Seq<u8> {
    read_buf_initialized(buf).take(read_buf_filled_len(buf) as int)
}

/// `tokio::io::ReadBuf::advance` adds the next `n` bytes to the filled part, which must not
/// outgrow the initialized part, and changes no byte.
pub assume_specification<'a>[ ReadBuf::<'a>::advance ](buf: &mut ReadBuf<'a>, n: usize)
    requires
        read_buf_filled_len(*old(buf)) + n <= read_buf_initialized(*old(buf)).len(),
    ensures
        read_buf_initialized(*final(buf)) == read_buf_initialized(*old(buf)),
        read_buf_filled_len(*final(buf)) == read_buf_filled_len(*old(buf)) + n,
;

/// `tokio::io::ReadBuf::filled` gives the filled part, which lies in the initialized part.
pub assume_specification<'a, 'b>[ ReadBuf::<'a>::filled ](buf: &'b ReadBuf<'a>) -> (r: &'b [u8])
    ensures
        r@ == read_buf_filled(*buf),
        r@.len() == read_buf_filled_len(*buf),
        r@.len() <= read_buf_initialized(*buf).len(),
;

/// `tokio::io::ReadBuf::initialized` gives the initialized part.
pub assume_specification<'a, 'b>[ ReadBuf::<'a>::initialized ](buf: &'b ReadBuf<'a>) -> (r: &'b [u8])
    ensures
        r@ == read_buf_initialized(*buf),
;

} // verus!
