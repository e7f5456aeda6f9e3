//! A byte sink that decodes what it receives into a `String`.
use vstd::prelude::*;
use vstd::string::*;
use vstd::utf8::*;

verus! {

#[verifier::external_type_specification]
#[verifier::external_body]
pub struct ExIoError(std::io::Error);

#[verifier::external_type_specification]
#[verifier::external_body]
pub struct ExUtf8Error(std::str::Utf8Error);

/// Relies on `std::str::from_utf8`: `Ok` exactly on valid UTF-8, holding the
/// same bytes.
#[verifier::external_body]
fn decode_utf8_bytes(data: &[u8]) -> (r: Result<&str, std::str::Utf8Error>)
    ensures
        r is Ok <==> valid_utf8(data@),
        r matches Ok(s) ==> s.spec_bytes() == data@,
{
    std::str::from_utf8(data)
}

/// Relies on `std::io::Error::new`: an error of kind `Other` with a message.
#[verifier::external_body]
pub(crate) fn other_io_error(msg: &str) -> (r: std::io::Error) {
    std::io::Error::new(std::io::ErrorKind::Other, msg)
}

/// Relies on the `Display` impl of `std::str::Utf8Error`: describes the failure.
#[verifier::external_body]
fn describe_utf8_error(e: std::str::Utf8Error) -> (r: String) {
    format!("Cannot decode utf8 string : {}", e)
}

/// Relies on `String::push`: appends one character.
#[verifier::external_body]
pub(crate) fn push_char(s: &mut String, c: char)
    ensures
        final(s)@ == old(s)@.push(c),
{
    s.push(c)
}

/// Collects written text into a `String`.
pub struct StringWriter {
    string: String,
}

impl View for StringWriter {
    type V = Seq<char>;

    closed spec fn view(&self) -> Seq<char> {
        self.string@
    }
}

impl StringWriter {
    /// An empty writer.
    pub fn new() -> (r: StringWriter)
        ensures
            r@ == Seq::<char>::empty(),
    {
        StringWriter { string: String::new() }
    }

    /// The text written so far.
    pub fn as_string(&self) -> (r: &str)
        ensures
            r@ == self@,
    {
        self.string.as_str()
    }

    /// Appends `text`.
    pub fn push_text(&mut self, text: &str)
        ensures
            final(self)@ == old(self)@ + text@,
    {
        self.string.append(text);
    }

    /// Appends `n` copies of `c`.
    pub fn push_repeated(&mut self, c: char, n: usize)
        ensures
            final(self)@ == old(self)@ + Seq::new(n as nat, |_i: int| c),
    {
        let mut k: usize = 0;
        while k < n
            invariant
                k <= n,
                self@ == old(self)@ + Seq::new(k as nat, |_i: int| c),
            decreases n - k,
        {
            push_char(&mut self.string, c);
            k = k + 1;
            assert(self@ =~= old(self)@ + Seq::new(k as nat, |_i: int| c));
        }
    }
}

impl std::io::Write for StringWriter {
    fn write(&mut self, data: &[u8]) -> (r: Result<usize, std::io::Error>)
        ensures
            r is Ok <==> valid_utf8(data@),
            r matches Ok(n) ==> n == data@.len() && final(self)@ == old(self)@ + decode_utf8(data@),
            r is Err ==> final(self)@ == old(self)@,
    {
        match decode_utf8_bytes(data) {
            Ok(s) => {
                proof {
                    decode_utf8_encode_utf8(data@);
                    encode_utf8_decode_utf8(s@);
                }
                self.string.append(s);
                Ok(data.len())
            },
            Err(e) => {
                let msg = describe_utf8_error(e);
                Err(other_io_error(msg.as_str()))
            },
        }
    }

    fn flush(&mut self) -> (r: Result<(), std::io::Error>)
        ensures
            r is Ok,
            final(self)@ == old(self)@,
    {
        Ok(())
    }
}

} // verus!
