use vstd::prelude::*;
use crate::codec::string_from_utf8;
use crate::error::SerdeError;
use vstd::string::{StrSliceExecFns, StringSliceAdditionalSpecFns};
use vstd::utf8::{valid_utf8, decode_utf8, is_ascii_chars, is_ascii_chars_encode_utf8, pop_first_scalar};

verus! {

/// A byte that may appear in a username: a lowercase ASCII letter, an ASCII
/// digit, `_` or `.`.
pub open spec fn is_username_byte(b: u8) -> bool {
    (97 <= b && b <= 122)  // 'a' ..= 'z'
    || (48 <= b && b <= 57)  // '0' ..= '9'
    || b == 95  // '_'
    || b == 46  // '.'
}

/// A character that may appear in a username.
pub open spec fn is_username_char(c: char) -> bool {
    ('a' <= c && c <= 'z') || ('0' <= c && c <= '9') || c == '_' || c == '.'
}

/// A well-formed username as a byte string: length within bounds, every byte
/// from the allowed set.
pub open spec fn valid_username_bytes(s: Seq<u8>) -> bool {
    &&& 3 <= s.len() <= 255
    &&& forall|i: int| 0 <= i < s.len() ==> is_username_byte(#[trigger] s[i])
}

/// A well-formed username as a character string.
pub open spec fn valid_username(s: Seq<char>) -> bool {
    &&& 3 <= s.len() <= 255
    &&& forall|i: int| 0 <= i < s.len() ==> is_username_char(#[trigger] s[i])
}

/// The characters read off a byte string one byte at a time.
pub open spec fn chars_of_bytes(s: Seq<u8>) -> Seq<char> {
    Seq::new(s.len(), |i: int| s[i] as char)
}

/// The bytes of a character string taken one byte per character; faithful
/// only for ASCII strings.
pub open spec fn bytes_of_chars(s: Seq<char>) -> Seq<u8> {
    Seq::new(s.len(), |i: int| s[i] as u8)
}

/// A validated username: 3 to 255 bytes, each a lowercase ASCII letter, an
/// ASCII digit, `_` or `.`. The sole identity key of the whole service.
#[derive(Debug, Hash)]
pub struct ShortIdStr(String);

impl View for ShortIdStr {
    type V = Seq<char>;

    closed spec fn view(&self) -> Seq<char> {
        self.0@
    }
}

impl Clone for ShortIdStr {
    fn clone(&self) -> (r: Self)
        ensures
            r@ == self@,
    {
        ShortIdStr(self.0.clone())
    }
}

impl PartialEq for ShortIdStr {
    fn eq(&self, other: &Self) -> bool {
        self.0 == other.0
    }
}

impl vstd::std_specs::cmp::PartialEqSpecImpl for ShortIdStr {
    open spec fn obeys_eq_spec() -> bool {
        true
    }

    open spec fn eq_spec(&self, other: &Self) -> bool {
        self@ == other@
    }
}

impl ShortIdStr {
    /// The username's validity, as a predicate on its characters.
    pub open spec fn wf(&self) -> bool {
        valid_username(self@)
    }

    /// Validates a string as a username.
    pub fn new(s: &str) -> (r: Result<ShortIdStr, SerdeError>)
        ensures
            r is Ok <==> valid_username(s@),
            r matches Ok(u) ==> u@ == s@ && u.wf(),
            r matches Err(e) ==> e is ParsingError,
    {
        let bytes = s.as_bytes_vec();
        proof {
            lemma_username_bytes_chars(s@, bytes@);
        }
        Self::from_bytes(bytes)
    }

    /// Validates a byte string as a username.
    pub fn from_bytes(bytes: Vec<u8>) -> (r: Result<ShortIdStr, SerdeError>)
        ensures
            r is Ok <==> valid_username_bytes(bytes@),
            r matches Ok(u) ==> u@ == chars_of_bytes(bytes@) && u.wf(),
            r matches Err(e) ==> e is ParsingError,
    {
        if bytes.len() > 255 {
            return Err(Self::error("string length exceeded 255 characters"));
        }
        if bytes.len() < 3 {
            return Err(Self::error("string length below 3 characters"));
        }
        let mut i: usize = 0;
        while i < bytes.len()
            invariant
                i <= bytes@.len(),
                forall|j: int| 0 <= j < i ==> is_username_byte(#[trigger] bytes@[j]),
            decreases bytes@.len() - i,
        {
            let b = bytes[i];
            if !((97 <= b && b <= 122) || (48 <= b && b <= 57) || b == 95 || b == 46) {
                return Err(Self::error(
                    "invalid character, note: only lowercase alphabetic, digits, '.' and '_' are valid characters for `ShortIdStr`",
                ));
            }
            i += 1;
        }
        proof {
            lemma_ascii_bytes_decode(bytes@);
        }
        match string_from_utf8(bytes) {
            Some(s) => Ok(ShortIdStr(s)),
            None => {
                proof {
                    assert(false);
                }
                Err(SerdeError::InvalidUTF8)
            },
        }
    }

    /// The username as a string slice.
    pub fn as_str(&self) -> (r: &str)
        ensures
            r@ == self@,
    {
        self.0.as_str()
    }

    /// The username's length; for a well-formed username, bytes and characters
    /// agree.
    pub fn byte_len(&self) -> (n: usize)
        requires
            self.wf(),
        ensures
            n == self@.len(),
    {
        let r = self.0.as_str();
        proof {
            lemma_valid_username_ascii(self@);
            assert(vstd::string::is_ascii(r));
            vstd::string::is_ascii_spec_bytes(r);
            assert(r.spec_bytes().len() == self@.len());
        }
        r.len()
    }

    /// The username's bytes; one byte per character, as the username is ASCII.
    pub fn username_bytes(&self) -> (b: &[u8])
        requires
            self.wf(),
        ensures
            b@ =~= bytes_of_chars(self@),
    {
        let r = self.0.as_str();
        proof {
            lemma_valid_username_ascii(self@);
            assert(vstd::string::is_ascii(r));
            vstd::string::is_ascii_spec_bytes(r);
        }
        r.as_bytes()
    }

    fn error(error: &str) -> (e: SerdeError)
        ensures
            e is ParsingError,
    {
        SerdeError::ParsingError { ty_name: "ShortIdStr", error: error.to_owned() }
    }
}

/// Where a username's public-key record lives in the identity store: the
/// first two characters, then the next two (or the one remaining, for the
/// shortest names), then the full username, as path segments.
pub open spec fn spec_record_path(s: Seq<char>) -> Seq<char>
    recommends
        valid_username(s),
{
    if s.len() > 3 {
        s.subrange(0, 2) + seq!['/'] + s.subrange(2, 4) + seq!['/'] + s
    } else {
        s.subrange(0, 2) + seq!['/'] + s.subrange(2, 3) + seq!['/'] + s
    }
}

/// Builds the identity-store path of a username's record.
pub fn record_path(username: &ShortIdStr) -> (r: String)
    requires
        username.wf(),
    ensures
        r@ == spec_record_path(username@),
{
    let st = username.as_str();
    proof {
        lemma_valid_username_ascii(username@);
        assert(vstd::string::is_ascii(st));
    }
    let len = username.byte_len();
    let mut out = String::new();
    out.append(st.substring_ascii(0, 2));
    out.append("/");
    if len > 3 {
        out.append(st.substring_ascii(2, 4));
    } else {
        out.append(st.substring_ascii(2, 3));
    }
    out.append("/");
    out.append(st);
    proof {
        reveal_strlit("/");
        assert(out@ =~= spec_record_path(username@));
    }
    out
}

/// A well-formed username is ASCII.
pub proof fn lemma_valid_username_ascii(s: Seq<char>)
    requires
        valid_username(s),
    ensures
        is_ascii_chars(s),
{
    assert forall|i| 0 <= i < s.len() implies '\0' <= #[trigger] s[i] <= '\u{7f}' by {
        assert(is_username_char(s[i]));
    }
}

/// Bytes below 0x80 are valid UTF-8 and decode one character per byte.
pub proof fn lemma_ascii_bytes_decode(bytes: Seq<u8>)
    requires
        forall|i: int| 0 <= i < bytes.len() ==> #[trigger] bytes[i] < 0x80,
    ensures
        valid_utf8(bytes),
        decode_utf8(bytes) == chars_of_bytes(bytes),
    decreases bytes.len(),
{
    if bytes.len() == 0 {
        assert(decode_utf8(bytes) =~= chars_of_bytes(bytes));
    } else {
        let b0 = bytes[0];
        assert(b0 & 0x7f == b0) by (bit_vector)
            requires
                b0 < 0x80,
        ;
        assert(pop_first_scalar(bytes) =~= bytes.drop_first());
        lemma_ascii_bytes_decode(bytes.drop_first());
        assert(decode_utf8(bytes) =~= chars_of_bytes(bytes));
    }
}

/// For a valid username, taking one byte per character yields a valid
/// username byte string that reads back as the same characters.
pub proof fn lemma_username_chars_bytes(s: Seq<char>)
    requires
        valid_username(s),
    ensures
        valid_username_bytes(bytes_of_chars(s)),
        chars_of_bytes(bytes_of_chars(s)) == s,
{
    let bytes = bytes_of_chars(s);
    assert forall|i: int| 0 <= i < bytes.len() implies is_username_byte(#[trigger] bytes[i]) by {
        assert(is_username_char(s[i]));
    }
    assert forall|i: int| 0 <= i < s.len() implies chars_of_bytes(bytes)[i] == s[i] by {
        assert(is_username_char(s[i]));
        vstd::utf8::char_u32_cast(s[i], s[i] as u32);
    }
    assert(chars_of_bytes(bytes) =~= s);
}

/// For a valid username byte string, reading characters off the bytes and
/// taking them back as bytes yields the original bytes.
pub proof fn lemma_username_bytes_roundtrip(s: Seq<u8>)
    requires
        valid_username_bytes(s),
    ensures
        bytes_of_chars(chars_of_bytes(s)) == s,
        valid_username(chars_of_bytes(s)),
{
    assert forall|i: int| 0 <= i < s.len() implies is_username_char(
        #[trigger] chars_of_bytes(s)[i],
    ) by {
        assert(is_username_byte(s[i]));
    }
    lemma_username_chars_bytes(chars_of_bytes(s));
    assert forall|i: int| 0 <= i < s.len() implies bytes_of_chars(chars_of_bytes(s))[i] == s[i] by {
        assert(is_username_byte(s[i]));
    }
    assert(bytes_of_chars(chars_of_bytes(s)) =~= s);
}

/// A character string is valid as a username exactly when its UTF-8 byte
/// string is, and then the bytes read back as the same characters.
proof fn lemma_username_bytes_chars(s: Seq<char>, bytes: Seq<u8>)
    requires
        bytes == vstd::utf8::encode_utf8(s),
    ensures
        valid_username_bytes(bytes) <==> valid_username(s),
        valid_username_bytes(bytes) ==> chars_of_bytes(bytes) == s,
{
    if valid_username(s) {
        lemma_valid_username_ascii(s);
        is_ascii_chars_encode_utf8(s);
        assert forall|i: int| 0 <= i < bytes.len() implies is_username_byte(#[trigger] bytes[i]) by {
            assert(is_username_char(s[i]));
            assert(s[i] as u8 == bytes[i]);
        }
        assert(valid_username_bytes(bytes));
    }
    if valid_username_bytes(bytes) {
        assert forall|i: int| 0 <= i < bytes.len() implies #[trigger] bytes[i] < 0x80 by {
            assert(is_username_byte(bytes[i]));
        }
        lemma_ascii_bytes_decode(bytes);
        broadcast use vstd::utf8::encode_utf8_decode_utf8;

        assert(s == chars_of_bytes(bytes));
        assert forall|i: int| 0 <= i < s.len() implies is_username_char(#[trigger] s[i]) by {
            assert(is_username_byte(bytes[i]));
            assert(s[i] == bytes[i] as char);
        }
        assert(valid_username(s));
    }
}

} // verus!
