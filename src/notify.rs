use vstd::prelude::*;

use vstd::utf8::encode_utf8;

use crate::plan::Mailgun;

verus! {

/// What one notification says: its subject, and the body for each outcome.
#[derive(Clone, Debug)]
pub struct NotifyData {
    pub description: String,
    pub happy_note: String,
    pub disappointing_note: String,
}

/// An HTTP request that delivers one notification: a POST of `body` to `url`,
/// with basic authentication and the given content type.
#[derive(Clone, Debug)]
pub struct MailRequest {
    pub url: String,
    pub user: String,
    pub password: String,
    pub content_type: String,
    pub boundary: Vec<u8>,
    pub body: Vec<u8>,
}

/// The dispatcher did not accept a notification.
#[derive(Clone, Copy, Debug, PartialEq, Eq, Structural)]
pub enum DispatchError {
    Rejected(u16),
}

/// A byte that may stand in a multipart boundary.
pub open spec fn boundary_byte(c: u8) -> bool {
    ('a' as u8 <= c <= 'z' as u8) || ('A' as u8 <= c <= 'Z' as u8) || ('0' as u8 <= c <= '9' as u8)
        || c == '+' as u8 || c == '.' as u8 || c == '-' as u8
}

pub open spec fn is_boundary(b: Seq<u8>) -> bool {
    &&& b.len() == 68
    &&& forall|i: int| 0 <= i < b.len() ==> #[trigger] boundary_byte(b[i])
}

/// Text as it stands in a header value: each CR and each LF becomes a space.
pub open spec fn header_text(s: Seq<char>) -> Seq<char> {
    Seq::new(
        s.len(),
        |i: int|
            if s[i] == '\r' || s[i] == '\n' {
                ' '
            } else {
                s[i]
            },
    )
}

/// One text field of a multipart/form-data body: the boundary line, its
/// two headers (the field's name as a header value), a blank line, then the
/// value as it is, each line ended by CRLF.
pub open spec fn form_part(field: (Seq<char>, Seq<char>), boundary: Seq<u8>) -> Seq<u8> {
    encode_utf8("--"@) + boundary + encode_utf8(
        "\r\nContent-Type: text/plain\r\nContent-Disposition: form-data; name=\""@ + header_text(
            field.0,
        ) + "\"\r\n\r\n"@ + field.1 + "\r\n"@,
    )
}

/// The multipart/form-data body of the text fields `fields` under
/// `boundary`: each field in turn, then the closing boundary.
pub open spec fn form_body_of(fields: Seq<(Seq<char>, Seq<char>)>, boundary: Seq<u8>) -> Seq<u8>
    decreases fields.len(),
{
    if fields.len() == 0 {
        encode_utf8("--"@) + boundary + encode_utf8("--"@)
    } else {
        form_part(fields[0], boundary) + form_body_of(fields.drop_first(), boundary)
    }
}

/// Bytes below 128, read one character each.
pub open spec fn ascii_text(b: Seq<u8>) -> Seq<char> {
    Seq::new(b.len(), |i: int| b[i] as char)
}

pub open spec fn all_ascii(b: Seq<u8>) -> bool {
    forall|i: int| 0 <= i < b.len() ==> #[trigger] b[i] < 128
}

/// A name for what `String::from_utf8_lossy` makes of `b`.
pub uninterp spec fn lossy_text_of(b: Seq<u8>) -> Seq<char>;

/// Relies on formdata::generate_boundary: a 68-byte base64 nonce (time and
/// random bytes) in which `=` became `-` and `/` became `.`.
#[verifier::external_body]
fn new_boundary() -> (r: Vec<u8>)
    ensures
        is_boundary(r@),
{
    formdata::generate_boundary()
}

/// Relies on formdata::write_formdata (through mime_multipart's
/// write_multipart and hyper's headers, kept in the order they were set and
/// written with CR and LF replaced by spaces):
/// with text fields only, written to a `Vec`, it cannot fail, and it writes
/// each field with a `text/plain` type and a `form-data` disposition.
#[verifier::external_body]
fn write_form(fields: &Vec<(String, String)>, boundary: &Vec<u8>) -> (r: Option<Vec<u8>>)
    ensures
        r is Some,
        r->Some_0@ == form_body_of(fields.deep_view(), boundary@),
{
    let form = formdata::FormData { fields: fields.clone(), files: Vec::new() };
    let mut out: Vec<u8> = Vec::new();
    match formdata::write_formdata(&mut out, boundary, &form) {
        Ok(_) => Some(out),
        Err(_) => None,
    }
}

/// Relies on String::from_utf8_lossy: the bytes read as UTF-8 text; valid
/// UTF-8, such as ASCII, is taken as it is.
#[verifier::external_body]
fn lossy_text(b: &Vec<u8>) -> (r: String)
    ensures
        r@ == lossy_text_of(b@),
        all_ascii(b@) ==> r@ == ascii_text(b@),
{
    String::from_utf8_lossy(b).into_owned()
}

pub open spec fn content_type_for(boundary: Seq<u8>) -> Seq<char> {
    "multipart/form-data; boundary="@ + lossy_text_of(boundary)
}

pub open spec fn messages_url(domain: Seq<char>) -> Seq<char> {
    "https://api.mailgun.net/v3/"@ + domain + "/messages"@
}

/// The form fields of a message from `m` with the given subject and text.
pub open spec fn mail_fields(m: Mailgun, subject: Seq<char>, text: Seq<char>) -> Seq<
    (Seq<char>, Seq<char>),
> {
    seq![("from"@, m.from@), ("to"@, m.to@), ("subject"@, subject), ("html"@, text)]
}

/// The body a notification carries.
pub open spec fn chosen_body(changed: bool, data: NotifyData) -> Seq<char> {
    if changed {
        data.happy_note@
    } else {
        data.disappointing_note@
    }
}

/// Subject and body of a notification: the happy note when the status
/// changed, the disappointing one otherwise.
pub fn compose(changed: bool, data: &NotifyData) -> (r: (String, String))
    ensures
        r.0@ == data.description@,
        r.1@ == chosen_body(changed, *data),
{
    let body = if changed {
        data.happy_note.clone()
    } else {
        data.disappointing_note.clone()
    };
    (data.description.clone(), body)
}

/// The multipart body of `fields` under `boundary`, and its content type.
pub fn encode(fields: &Vec<(String, String)>, boundary: &Vec<u8>) -> (r: (Vec<u8>, String))
    ensures
        r.0@ == form_body_of(fields.deep_view(), boundary@),
        r.1@ == content_type_for(boundary@),
        all_ascii(boundary@) ==> r.1@ == "multipart/form-data; boundary="@ + ascii_text(boundary@),
{
    let body = match write_form(fields, boundary) {
        Some(b) => b,
        None => Vec::new(),
    };
    let mut content_type = String::from_str("multipart/form-data; boundary=");
    let text = lossy_text(boundary);
    content_type.append(text.as_str());
    (body, content_type)
}

impl Mailgun {
    /// The form fields of a message with this subject and text.
    pub fn fields(&self, subject: &str, text: &str) -> (r: Vec<(String, String)>)
        ensures
            r.deep_view() == mail_fields(*self, subject@, text@),
    {
        let mut v: Vec<(String, String)> = Vec::new();
        v.push((String::from_str("from"), self.from.clone()));
        v.push((String::from_str("to"), self.to.clone()));
        v.push((String::from_str("subject"), subject.to_owned()));
        v.push((String::from_str("html"), text.to_owned()));
        assert(v.deep_view() =~= mail_fields(*self, subject@, text@));
        v
    }

    /// The request that sends a message with this subject and text, under a
    /// fresh random boundary; the caller performs it.
    pub fn send(&self, subject: &str, text: &str) -> (r: MailRequest)
        ensures
            r.url@ == messages_url(self.domain@),
            r.user@ == "api"@,
            r.password@ == self.api_key@,
            is_boundary(r.boundary@),
            r.body@ == form_body_of(mail_fields(*self, subject@, text@), r.boundary@),
            r.content_type@ == content_type_for(r.boundary@),
            r.content_type@ == "multipart/form-data; boundary="@ + ascii_text(r.boundary@),
    {
        let mut url = String::from_str("https://api.mailgun.net/v3/");
        url.append(self.domain.as_str());
        url.append("/messages");
        let fields = self.fields(subject, text);
        let boundary = new_boundary();
        let (body, content_type) = encode(&fields, &boundary);
        assert(all_ascii(boundary@)) by {
            assert forall|i: int| 0 <= i < boundary@.len() implies #[trigger] boundary@[i] < 128 by {
                assert(boundary_byte(boundary@[i]));
            }
        }
        MailRequest {
            url,
            user: String::from_str("api"),
            password: self.api_key.clone(),
            content_type,
            boundary,
            body,
        }
    }
}

/// The request for one notification: subject the description, body the
/// happy note when `changed`, the disappointing note otherwise.
pub fn notify(changed: bool, data: &NotifyData, mailgun: &Mailgun) -> (r: MailRequest)
    ensures
        r.url@ == messages_url(mailgun.domain@),
        r.user@ == "api"@,
        r.password@ == mailgun.api_key@,
        is_boundary(r.boundary@),
        r.body@ == form_body_of(
            mail_fields(*mailgun, data.description@, chosen_body(changed, *data)),
            r.boundary@,
        ),
        r.content_type@ == content_type_for(r.boundary@),
        r.content_type@ == "multipart/form-data; boundary="@ + ascii_text(r.boundary@),
{
    let (subject, body) = compose(changed, data);
    mailgun.send(subject.as_str(), body.as_str())
}

/// How the dispatcher's HTTP status is read: any 2xx is a delivery.
pub fn delivery_result(status: u16) -> (r: Result<(), DispatchError>)
    ensures
        200 <= status < 300 ==> r is Ok,
        !(200 <= status < 300) ==> r == Err::<(), DispatchError>(DispatchError::Rejected(status)),
{
    if 200 <= status && status < 300 {
        Ok(())
    } else {
        Err(DispatchError::Rejected(status))
    }
}

} // verus!
