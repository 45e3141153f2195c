//! Binary data, sent as base64 text.

use vstd::prelude::*;
use crate::errors::{Error, ErrorView};
use crate::json::{Json, JsonView, size_json};
use crate::types::{bad_value, json_result, new_members, push_size, push_type, size_range_error,
    size_range_message, type_member, unless_zero, TypeInfo, TypeLaws, is_zero};

verus! {

/// The base64 text that `base64::encode` writes for the given bytes.
pub uninterp spec fn base64_text_of(data: Seq<u8>) -> Seq<char>;

/// The bytes that `base64::decode` reads from a text, or nothing where
/// the text is not base64.
pub uninterp spec fn base64_bytes_of(text: Seq<char>) -> Option<Seq<u8>>;

/// Encodes bytes as base64.
///
/// Trusted: calls `base64::encode`; the contract gives the text the name
/// `base64_text_of`, a function of the bytes alone.
#[verifier::external_body]
fn base64_encode(data: &Vec<u8>) -> (r: String)
    ensures
        r@ == base64_text_of(data@),
{
    base64::encode(data)
}

/// Decodes base64 text.
///
/// Trusted: calls `base64::decode` and drops its error; the contract gives
/// the outcome the name `base64_bytes_of`, a function of the text alone.
#[verifier::external_body]
fn base64_decode(text: &str) -> (r: Option<Vec<u8>>)
    ensures
        match r {
            Some(bytes) => base64_bytes_of(text@) == Some(bytes@),
            None => base64_bytes_of(text@) is None,
        },
{
    base64::decode(text).ok()
}

/// Byte strings whose length lies between `minbytes` and `maxbytes`.
pub struct Blob {
    pub minbytes: usize,
    pub maxbytes: usize,
}

/// The start of the message that refuses a blob of the wrong length.
pub open spec fn blob_encode_prefix() -> Seq<char> {
    "expected blob with length between "@
}

/// The start of the message that refuses a JSON value as a blob.
pub open spec fn blob_decode_prefix() -> Seq<char> {
    "expected base64 coded string with decoded length between "@
}

impl Blob {
    /// Byte strings of up to 1024 bytes.
    pub fn new() -> (r: Self)
        ensures
            r.minbytes == 0,
            r.maxbytes == 1024,
    {
        Self { minbytes: 0, maxbytes: 1024 }
    }

    /// The same type with the least length `val`.
    pub fn minbytes(self, val: usize) -> (r: Self)
        ensures
            r.minbytes == val,
            r.maxbytes == self.maxbytes,
    {
        Self { minbytes: val, maxbytes: self.maxbytes }
    }

    /// The same type with the greatest length `val`.
    pub fn maxbytes(self, val: usize) -> (r: Self)
        ensures
            r.minbytes == self.minbytes,
            r.maxbytes == val,
    {
        Self { minbytes: self.minbytes, maxbytes: val }
    }

    /// What a decoded text is worth: the bytes, where there are any and
    /// their number is within the bounds.
    pub open spec fn checked(&self, bytes: Option<Seq<u8>>) -> Result<Seq<u8>, ErrorView> {
        match bytes {
            Some(b) if self.minbytes <= b.len() && b.len() <= self.maxbytes => Ok(b),
            _ => Err(
                bad_value(size_range_message(blob_decode_prefix(), self.minbytes, self.maxbytes)),
            ),
        }
    }

    /// Accepts the bytes that were decoded from a text if there are any and
    /// their number is within the bounds.
    pub fn check_decoded(&self, bytes: Option<Vec<u8>>) -> (r: Result<Vec<u8>, Error>)
        ensures
            match r {
                Ok(b) => self.checked(
                    match bytes {
                        Some(v) => Some(v@),
                        None => None,
                    },
                ) == Ok::<Seq<u8>, ErrorView>(b@),
                Err(e) => self.checked(
                    match bytes {
                        Some(v) => Some(v@),
                        None => None,
                    },
                ) == Err::<Seq<u8>, ErrorView>(e@),
            },
    {
        match bytes {
            Some(v) => {
                if v.len() >= self.minbytes && v.len() <= self.maxbytes {
                    Ok(v)
                } else {
                    Err(
                        size_range_error(
                            "expected base64 coded string with decoded length between ",
                            self.minbytes,
                            self.maxbytes,
                        ),
                    )
                }
            },
            None => Err(
                size_range_error(
                    "expected base64 coded string with decoded length between ",
                    self.minbytes,
                    self.maxbytes,
                ),
            ),
        }
    }
}

impl TypeInfo for Blob {
    type Repr = Vec<u8>;

    open spec fn datainfo(&self) -> JsonView {
        JsonView::Object(
            seq![type_member("blob"@)] + unless_zero("minbytes"@, self.minbytes as nat) + seq![
                ("maxbytes"@, size_json(self.maxbytes as nat)),
            ],
        )
    }

    open spec fn encoded(&self, val: Seq<u8>) -> Result<JsonView, ErrorView> {
        if self.minbytes <= val.len() && val.len() <= self.maxbytes {
            Ok(JsonView::Str(base64_text_of(val)))
        } else {
            Err(bad_value(size_range_message(blob_encode_prefix(), self.minbytes, self.maxbytes)))
        }
    }

    open spec fn decoded(&self, val: JsonView) -> Result<Seq<u8>, ErrorView> {
        match val {
            JsonView::Str(s) => self.checked(base64_bytes_of(s)),
            _ => self.checked(None),
        }
    }

    open spec fn faithful(&self, val: Seq<u8>) -> bool {
        base64_bytes_of(base64_text_of(val)) == Some(val)
    }

    fn describe(&self) -> (r: Json) {
        let mut members = new_members();
        push_type(&mut members, "blob");
        if !is_zero(&self.minbytes) {
            push_size(&mut members, "minbytes", self.minbytes);
        }
        push_size(&mut members, "maxbytes", self.maxbytes);
        let r = Json::object(members);
        assert(r@->Object_0 =~= self.datainfo()->Object_0);
        r
    }

    fn to_json(&self, val: Vec<u8>) -> (r: Result<Json, Error>) {
        assert(val.deep_view() =~= val@);
        if val.len() >= self.minbytes && val.len() <= self.maxbytes {
            Ok(Json::Str(base64_encode(&val)))
        } else {
            Err(
                size_range_error(
                    "expected blob with length between ",
                    self.minbytes,
                    self.maxbytes,
                ),
            )
        }
    }

    fn from_json(&self, val: &Json) -> (r: Result<Vec<u8>, Error>) {
        let decoded: Option<Vec<u8>> = match val.as_str() {
            Some(s) => base64_decode(s.as_str()),
            None => None,
        };
        let r = self.check_decoded(decoded);
        proof {
            if let Ok(b) = &r {
                assert(b.deep_view() =~= b@);
            }
        }
        r
    }
}

impl TypeLaws for Blob {
    proof fn lemma_decode_encode(&self, val: Seq<u8>) {
    }

    proof fn lemma_encode_error(&self, val: Seq<u8>) {
    }

    proof fn lemma_decode_error(&self, val: JsonView) {
    }
}

} // verus!
