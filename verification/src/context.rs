//! Preparing a message for sending: the bytes of the head and of the body.
use vstd::prelude::*;
use crate::body::body::{HttpBody, all_identity};
use crate::body::error::BodyError;
use crate::body::serialize::{body_bytes, declared_encoding};
use crate::meta::HttpMeta;
use crate::meta::serialize::spec_represent;
use crate::util::encoding::codings_of;

verus! {

/// Serialises the body (filling the metadata it implies, see
/// [`HttpBody::into_static`]) and then the head, as they are sent: first
/// the head, then the body bytes.
pub fn prepare_send(meta: &mut HttpMeta, body: HttpBody) -> (r: Result<(String, Vec<u8>), BodyError>)
    ensures
        final(meta).start_line == old(meta).start_line,
        final(meta).header == old(meta).header,
        all_identity(codings_of(declared_encoding(*old(meta)).1)) ==> (r matches Ok((head, bin))
            && head@ == spec_represent(*final(meta))
            && (body_bytes(body) matches Some(b) ==> bin@ == b)),
        !all_identity(codings_of(declared_encoding(*old(meta)).1)) ==> r == Err::<(String, Vec<u8>), BodyError>(BodyError::InvalidEncoding),
{
    let bin = match body.into_static(meta) {
        Ok(b) => b,
        Err(e) => return Err(e),
    };
    let head = meta.represent();
    Ok((head, bin))
}

} // verus!
