//! The response envelope the boundary attaches to every API verdict.
//!
//! The shape is a fixed external contract: `{"ok":true}` on success,
//! `{"ok":false,"error":"<message>"}` on failure.

use vstd::prelude::*;
use vstd::utf8::{encode_utf8, is_ascii_chars};

use crate::bytesutil::lemma_ascii_bytes_valid_utf8;
use crate::codec::bytes_to_string;
use crate::jsonenc::{escape_into, lemma_escape_ascii, spec_escape};

verus! {

/// An API status: `ok`, with an error message exactly when not ok.
#[derive(Clone, Debug)]
pub struct ApiStatus {
    ok: bool,
    error: Option<String>,
}

/// The opening of the envelope, `{"ok":` followed by the boolean.
pub open spec fn spec_status_open(ok: bool) -> Seq<u8> {
    seq![123u8, 34u8, 111u8, 107u8, 34u8, 58u8] + (if ok {
        seq![116u8, 114u8, 117u8, 101u8]
    } else {
        seq![102u8, 97u8, 108u8, 115u8, 101u8]
    })
}

/// The text `,"error":"` that precedes the message.
pub open spec fn spec_error_key() -> Seq<u8> {
    seq![44u8, 34u8, 101u8, 114u8, 114u8, 111u8, 114u8, 34u8, 58u8, 34u8]
}

/// The whole envelope for a status with this flag and message.
pub open spec fn spec_status_json(ok: bool, error: Option<Seq<u8>>) -> Seq<u8> {
    match error {
        None => spec_status_open(ok) + seq![125u8],
        Some(m) => spec_status_open(ok) + spec_error_key() + spec_escape(m) + seq![34u8, 125u8],
    }
}

impl ApiStatus {
    /// Whether the status reports success.
    pub closed spec fn spec_ok(&self) -> bool {
        self.ok
    }

    /// The attached error message, if any.
    pub closed spec fn spec_error(&self) -> Option<Seq<char>> {
        match self.error {
            Some(m) => Some(m@),
            None => None,
        }
    }

    /// The success status: no message.
    pub fn ok() -> (r: ApiStatus)
        ensures
            r.spec_ok(),
            r.spec_error() is None,
    {
        ApiStatus { ok: true, error: None }
    }

    /// A failure status carrying this message.
    pub fn error(message: String) -> (r: ApiStatus)
        ensures
            !r.spec_ok(),
            r.spec_error() == Some(message@),
    {
        ApiStatus { ok: false, error: Some(message) }
    }

    /// Whether the status reports success.
    pub fn is_ok(&self) -> (r: bool)
        ensures
            r == self.spec_ok(),
    {
        self.ok
    }

    /// Render the envelope.  For the messages this library produces — all
    /// ASCII — the output is stated exactly.
    pub fn to_json(&self) -> (r: String)
        ensures
            self.spec_error() is None ==> encode_utf8(r@) == spec_status_json(
                self.spec_ok(),
                None,
            ),
            self.spec_error() matches Some(m) ==> (is_ascii_chars(m) ==> encode_utf8(r@)
                == spec_status_json(self.spec_ok(), Some(encode_utf8(m)))),
    {
        let mut v: Vec<u8> = Vec::new();
        v.push(123);
        v.push(34);
        v.push(111);
        v.push(107);
        v.push(34);
        v.push(58);
        if self.ok {
            v.push(116);
            v.push(114);
            v.push(117);
            v.push(101);
        } else {
            v.push(102);
            v.push(97);
            v.push(108);
            v.push(115);
            v.push(101);
        }
        proof {
            assert(v@ =~= spec_status_open(self.spec_ok()));
        }
        let ghost opened = v@;
        match &self.error {
            None => {
                v.push(125);
                proof {
                    assert(v@ =~= spec_status_json(self.spec_ok(), None));
                    assert(forall|i: int| 0 <= i < v@.len() ==> #[trigger] v@[i] < 128);
                    lemma_ascii_bytes_valid_utf8(v@);
                }
            },
            Some(m) => {
                v.push(44);
                v.push(34);
                v.push(101);
                v.push(114);
                v.push(114);
                v.push(111);
                v.push(114);
                v.push(34);
                v.push(58);
                v.push(34);
                proof {
                    assert(v@ =~= opened + spec_error_key());
                }
                let mb = vstd::string::StrSliceExecFns::as_bytes_vec(m.as_str());
                escape_into(&mb, &mut v);
                v.push(34);
                v.push(125);
                proof {
                    assert(v@ =~= opened + spec_error_key() + spec_escape(mb@) + seq![
                        34u8,
                        125u8,
                    ]);
                    assert(v@ == spec_status_json(self.spec_ok(), Some(encode_utf8(m@))));
                    if is_ascii_chars(m@) {
                        vstd::utf8::is_ascii_chars_encode_utf8(m@);
                        assert(forall|i: int|
                            0 <= i < mb@.len() ==> #[trigger] mb@[i] < 128);
                        lemma_escape_ascii(mb@);
                        assert(forall|i: int| 0 <= i < v@.len() ==> #[trigger] v@[i] < 128);
                        lemma_ascii_bytes_valid_utf8(v@);
                    }
                }
            },
        }
        let ghost built = v@;
        match bytes_to_string(v) {
            Some(s) => {
                proof {
                    if vstd::utf8::valid_utf8(built) {
                        vstd::utf8::decode_utf8_encode_utf8(built);
                    }
                }
                s
            },
            None => String::new(),
        }
    }
}

} // verus!
