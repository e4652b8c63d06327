//! Selection and decoding of the readable body of a parsed message.
use vstd::prelude::*;

use crate::classify::{spec_is_log_only, NotificationCategory};

verus! {

/// The content-transfer-encoding a MIME part declares.
#[derive(Clone, Copy, Debug, PartialEq, Eq, Structural)]
pub enum TransferEncoding {
    SevenBit,
    EightBit,
    Base64,
    QuotedPrintable,
    Unsupported,
}

/// One MIME part: its transfer-encoding, the charset of its text, and its raw bytes.
#[derive(Clone, Debug)]
pub struct MimePart {
    pub encoding: TransferEncoding,
    pub charset: String,
    pub raw: Vec<u8>,
}

/// A message as parsed by the mailbox side: its headers in order, its MIME subparts in order,
/// and its top-level body, used when it has no subparts.
#[derive(Clone, Debug)]
pub struct ParsedEmail {
    pub headers: Vec<(String, String)>,
    pub subparts: Vec<MimePart>,
    pub body: MimePart,
}

/// Why no document is produced for a message.
#[derive(Clone, Copy, Debug, PartialEq, Eq, Structural)]
pub enum Skip {
    /// The category records the subject line only.
    LogOnly,
    /// The part that the category selects does not exist.
    MissingPart,
    /// The selected part has an encoding that is not decoded.
    UnsupportedEncoding,
    /// The selected part could not be decoded.
    Undecodable,
    /// A header that the message needs is absent.
    MissingHeader,
    /// The `Date` header gives no usable year.
    UnreadableDate,
}

/// The text that `mailparse` decodes from `raw` under a transfer-encoding name and a
/// charset label, if it decodes.
pub uninterp spec fn decoded_text(encoding: Seq<char>, charset: Seq<char>, raw: Seq<u8>) -> Option<
    Seq<char>,
>;

pub open spec fn text_view(t: Option<String>) -> Option<Seq<char>> {
    match t {
        Some(s) => Some(s@),
        None => None,
    }
}

/// Relies on `mailparse::body::Body::new`, which picks the decoder for the transfer-encoding
/// name, and on `EncodedBody::get_decoded_as_string` and `TextBody::get_as_string`, which
/// decode the bytes and convert them to text from the charset.
#[verifier::external_body]
fn mailparse_decode(encoding: &str, charset: &str, raw: &[u8]) -> (r: Option<String>)
    ensures
        text_view(r) == decoded_text(encoding@, charset@, raw@),
{
    let ctype = mailparse::ParsedContentType {
        charset: charset.to_string(),
        ..mailparse::ParsedContentType::default()
    };
    match mailparse::body::Body::new(raw, &ctype, &Some(encoding.to_string())) {
        mailparse::body::Body::Base64(b) => b.get_decoded_as_string().ok(),
        mailparse::body::Body::QuotedPrintable(b) => b.get_decoded_as_string().ok(),
        mailparse::body::Body::SevenBit(b) => b.get_as_string().ok(),
        mailparse::body::Body::EightBit(b) => b.get_as_string().ok(),
        mailparse::body::Body::Binary(_) => None,
    }
}

/// The header name of a supported transfer-encoding.
pub open spec fn encoding_name(e: TransferEncoding) -> Seq<char> {
    match e {
        TransferEncoding::SevenBit => "7bit"@,
        TransferEncoding::EightBit => "8bit"@,
        TransferEncoding::Base64 => "base64"@,
        TransferEncoding::QuotedPrintable => "quoted-printable"@,
        TransferEncoding::Unsupported => Seq::empty(),
    }
}

fn encoding_label(e: TransferEncoding) -> (r: &'static str)
    requires
        e != TransferEncoding::Unsupported,
    ensures
        r@ == encoding_name(e),
{
    match e {
        TransferEncoding::SevenBit => "7bit",
        TransferEncoding::EightBit => "8bit",
        TransferEncoding::Base64 => "base64",
        _ => "quoted-printable",
    }
}

/// The text of a part: verbatim for 7bit and 8bit, decoded for base64 and quoted-printable.
pub open spec fn decode_spec(p: MimePart) -> Result<Seq<char>, Skip> {
    if p.encoding == TransferEncoding::Unsupported {
        Err(Skip::UnsupportedEncoding)
    } else {
        match decoded_text(encoding_name(p.encoding), p.charset@, p.raw@) {
            Some(t) => Ok(t),
            None => Err(Skip::Undecodable),
        }
    }
}

/// Decodes one part to text.
pub fn decode_part(p: &MimePart) -> (r: Result<String, Skip>)
    ensures
        match r {
            Ok(t) => decode_spec(*p) == Ok::<Seq<char>, Skip>(t@),
            Err(k) => decode_spec(*p) == Err::<Seq<char>, Skip>(k),
        },
{
    if p.encoding == TransferEncoding::Unsupported {
        return Err(Skip::UnsupportedEncoding);
    }
    let label = encoding_label(p.encoding);
    match mailparse_decode(label, p.charset.as_str(), p.raw.as_slice()) {
        Some(t) => Ok(t),
        None => Err(Skip::Undecodable),
    }
}

/// The part that holds the readable body of a category: the second subpart for documents and
/// administrator messages; for `Other` the last subpart, or the top-level body when there are
/// no subparts. `None` when that part does not exist or the category has no body.
pub open spec fn selected_part(email: ParsedEmail, c: NotificationCategory) -> Option<MimePart> {
    match c {
        NotificationCategory::DocumentAdded
        | NotificationCategory::AdminMessageEvent
        | NotificationCategory::AdminMessageGroup => if email.subparts@.len() > 1 {
            Some(email.subparts@[1])
        } else {
            None
        },
        NotificationCategory::Other => if email.subparts@.len() > 0 {
            Some(email.subparts@.last())
        } else {
            Some(email.body)
        },
        _ => None,
    }
}

/// The decoded body of a message of a category, or why there is none.
pub open spec fn extract_spec(email: ParsedEmail, c: NotificationCategory) -> Result<
    Seq<char>,
    Skip,
> {
    if spec_is_log_only(c) {
        Err(Skip::LogOnly)
    } else {
        match selected_part(email, c) {
            None => Err(Skip::MissingPart),
            Some(p) => decode_spec(p),
        }
    }
}

/// Selects and decodes the part of the message that holds its readable body.
pub fn extract(email: &ParsedEmail, category: NotificationCategory) -> (r: Result<String, Skip>)
    ensures
        match r {
            Ok(t) => extract_spec(*email, category) == Ok::<Seq<char>, Skip>(t@),
            Err(k) => extract_spec(*email, category) == Err::<Seq<char>, Skip>(k),
        },
{
    if category.is_log_only() {
        return Err(Skip::LogOnly);
    }
    let n: usize = email.subparts.len();
    match category {
        NotificationCategory::Other => {
            if n > 0 {
                decode_part(&email.subparts[n - 1])
            } else {
                decode_part(&email.body)
            }
        },
        _ => {
            if n > 1 {
                decode_part(&email.subparts[1])
            } else {
                Err(Skip::MissingPart)
            }
        },
    }
}

/// A character with ASCII upper case folded to lower case, as a code point.
pub open spec fn fold_ascii(c: char) -> u32 {
    let n = c as u32;
    if 65 <= n <= 90 {
        (n + 32) as u32
    } else {
        n
    }
}

/// Header names compare equal ignoring ASCII case.
pub open spec fn same_name(a: Seq<char>, b: Seq<char>) -> bool {
    a.len() == b.len() && forall|i: int| 0 <= i < a.len() ==> fold_ascii(a[i]) == fold_ascii(b[i])
}

/// The value of the first header whose name is `name`, ignoring ASCII case.
pub open spec fn first_header(hs: Seq<(String, String)>, name: Seq<char>) -> Option<Seq<char>>
    decreases hs.len(),
{
    if hs.len() == 0 {
        None
    } else if same_name(hs[0].0@, name) {
        Some(hs[0].1@)
    } else {
        first_header(hs.subrange(1, hs.len() as int), name)
    }
}

fn same_name_exec(a: &Vec<char>, b: &Vec<char>) -> (r: bool)
    ensures
        r == same_name(a@, b@),
{
    if a.len() != b.len() {
        return false;
    }
    let mut i: usize = 0;
    while i < a.len()
        invariant
            i <= a.len(),
            a.len() == b.len(),
            forall|k: int| 0 <= k < i ==> fold_ascii(a@[k]) == fold_ascii(b@[k]),
        decreases a.len() - i,
    {
        let x: u32 = a[i] as u32;
        let y: u32 = b[i] as u32;
        let fx: u32 = if 65 <= x && x <= 90 {
            x + 32
        } else {
            x
        };
        let fy: u32 = if 65 <= y && y <= 90 {
            y + 32
        } else {
            y
        };
        if fx != fy {
            return false;
        }
        i += 1;
    }
    true
}

impl ParsedEmail {
    /// The value of the first header named `name`, compared without regard to ASCII case.
    pub fn header(&self, name: &str) -> (r: Option<String>)
        ensures
            text_view(r) == first_header(self.headers@, name@),
    {
        let wanted = crate::text::chars_of(name);
        let mut i: usize = 0;
        assert(self.headers@.subrange(0, self.headers@.len() as int) =~= self.headers@);
        while i < self.headers.len()
            invariant
                i <= self.headers.len(),
                wanted@ == name@,
                first_header(self.headers@, name@) == first_header(
                    self.headers@.subrange(i as int, self.headers@.len() as int),
                    name@,
                ),
            decreases self.headers.len() - i,
        {
            let ghost rest = self.headers@.subrange(i as int, self.headers@.len() as int);
            assert(rest.subrange(1, rest.len() as int) =~= self.headers@.subrange(
                i + 1,
                self.headers@.len() as int,
            ));
            let key = crate::text::chars_of(self.headers[i].0.as_str());
            if same_name_exec(&key, &wanted) {
                return Some(self.headers[i].1.clone());
            }
            i += 1;
        }
        None
    }
}

} // verus!
