use vstd::prelude::*;
use vstd::utf8::{decode_utf8, valid_utf8};
use crate::dispatch::{dispatched, slot_after, Dispatcher, GeneratedService};
use crate::message::{text_from_bytes, text_of};

verus! {

/// Relies on `std::str::from_utf8`: it accepts exactly the valid UTF-8
/// sequences and then reads them as they stand.
#[verifier::external_body]
fn strict_text(b: &[u8]) -> (r: Option<String>)
    ensures
        r is Some <==> valid_utf8(b@),
        r matches Some(s) ==> s@ == decode_utf8(b@),
{
    std::str::from_utf8(b).ok().map(|s| s.to_owned())
}

/// The method name that the bytes of a C string stand for: the empty name
/// where the pointer was null or the bytes are not valid UTF-8.
pub open spec fn method_text(raw: Option<Seq<u8>>) -> Seq<char> {
    match raw {
        Some(b) => if valid_utf8(b) {
            decode_utf8(b)
        } else {
            Seq::empty()
        },
        None => Seq::empty(),
    }
}

/// Reads a method name from the bytes of a C string (`None` for a null
/// pointer); a null or invalid name reads as the empty name.
pub fn c_str_to_str(raw: Option<&[u8]>) -> (r: String)
    ensures
        r@ == method_text(
            match raw {
                Some(b) => Some(b@),
                None => None,
            },
        ),
{
    match raw {
        Some(b) => match strict_text(b) {
            Some(s) => s,
            None => String::new(),
        },
        None => String::new(),
    }
}

/// The text of a C string for display: `null` for a null pointer, else its
/// bytes read as UTF-8 with invalid sequences replaced.
pub fn c_str_to_string(raw: Option<&[u8]>) -> (r: String)
    ensures
        r@ == match raw {
            Some(b) => text_of(b@),
            None => "null"@,
        },
{
    match raw {
        Some(b) => text_from_bytes(b),
        None => "null".to_owned(),
    }
}

/// Reads the method name from the bytes of a C string and hands it, with
/// the request view, to the dispatcher; the response bytes come back, and
/// every failure, of either kind, comes back as `None`.
pub fn invoke_backend<S: GeneratedService>(
    dispatcher: &mut Dispatcher<S>,
    method: Option<&[u8]>,
    data: &[u8],
) -> (r: Option<Vec<u8>>)
    ensures
        ({
            let name = method_text(
                match method {
                    Some(b) => Some(b@),
                    None => None,
                },
            );
            &&& match dispatched(old(dispatcher)@, name, data@) {
                Ok(b) => r matches Some(v) && v@ == b,
                Err(_) => r is None,
            }
            &&& final(dispatcher)@ == slot_after(old(dispatcher)@, name, data@)
        }),
{
    let name = c_str_to_str(method);
    match dispatcher.invoke(name.as_str(), data) {
        Ok(v) => Some(v),
        Err(_) => None,
    }
}

/// What the streaming entry points, not provided by this core, report in
/// place of a stream identifier.
pub const STREAM_UNAVAILABLE: i64 = -1;

/// What the entry points with nothing to do report: success.
pub const NO_OP_STATUS: i32 = 0;

} // verus!
