use vstd::prelude::*;
use vstd::string::StringExecFns;

verus! {

/// The standard, padded base64 encoding of `bytes`.
pub uninterp spec fn base64_of(bytes: Seq<u8>) -> Seq<char>;

/// The MIME type that content sniffing finds for `bytes`, if any.
pub uninterp spec fn sniffed_mime(bytes: Seq<u8>) -> Option<Seq<char>>;

/// Whether `text` parses as an absolute URL.
pub uninterp spec fn url_parses(text: Seq<char>) -> bool;

/// Bytes whose base64 encoding has a length that fits in `usize`.
pub open spec fn encodable(bytes: Seq<u8>) -> bool {
    bytes.len() <= usize::MAX / 2
}

/// Relies on base64's `STANDARD.encode`: the padded base64 text of the input,
/// a function of the bytes alone, four characters for every three bytes
/// begun (`encoded_len` with padding). It panics only when the encoded
/// length overflows `usize`, which `encodable` rules out.
#[verifier::external_body]
pub(crate) fn encode_base64(bytes: &[u8]) -> (r: String)
    requires
        encodable(bytes@),
    ensures
        r@ == base64_of(bytes@),
        r@.len() == 4 * ((bytes@.len() + 2) / 3),
{
    base64::Engine::encode(&base64::engine::general_purpose::STANDARD, bytes)
}

/// Relies on `infer::get` and `Type::mime_type`: the MIME type of the first
/// known file signature that the bytes match, if any.
#[verifier::external_body]
fn sniff_mime(bytes: &[u8]) -> (r: Option<String>)
    ensures
        r.is_some() == sniffed_mime(bytes@).is_some(),
        r.is_some() ==> r.unwrap()@ == sniffed_mime(bytes@).unwrap(),
{
    infer::get(bytes).map(|kind| kind.mime_type().to_string())
}

/// Relies on `url::Url::parse`: whether the text is a valid absolute URL.
#[verifier::external_body]
pub(crate) fn is_valid_url(input: &str) -> (r: bool)
    ensures
        r == url_parses(input@),
{
    url::Url::parse(input).is_ok()
}

/// How many leading bytes of a file content sniffing looks at.
pub const SNIFF_LIMIT: usize = 8192;

/// The leading bytes of `content` that content sniffing looks at.
pub open spec fn sniff_window(content: Seq<u8>) -> Seq<u8> {
    if content.len() > SNIFF_LIMIT {
        content.take(SNIFF_LIMIT as int)
    } else {
        content
    }
}

/// The MIME type declared for content: the one given, else the one sniffed
/// from its leading bytes, else `application/octet-stream`.
pub open spec fn mime_spec(explicit: Option<Seq<char>>, content: Seq<u8>) -> Seq<char> {
    match explicit {
        Some(m) => m,
        None => match sniffed_mime(sniff_window(content)) {
            Some(m) => m,
            None => "application/octet-stream"@,
        },
    }
}

pub open spec fn data_url_spec(mime: Seq<char>, content: Seq<u8>) -> Seq<char> {
    "data:"@ + mime + ";base64,"@ + base64_of(content)
}

pub open spec fn failed_spec(path: Seq<char>) -> Seq<char> {
    path + "?b64_failed!"@
}

pub open spec fn img_spec(fluff: Seq<char>, mime: Seq<char>, content: Seq<u8>) -> Seq<char> {
    "<img"@ + fluff + "src=\""@ + data_url_spec(mime, content) + "\""@
}

pub open spec fn opt_view(o: Option<&str>) -> Option<Seq<char>> {
    match o {
        Some(s) => Some(s@),
        None => None,
    }
}

/// The MIME type to declare for `content`.
pub fn mime_for(explicit: Option<&str>, content: &[u8]) -> (r: String)
    ensures
        r@ == mime_spec(opt_view(explicit), content@),
{
    match explicit {
        Some(m) => m.to_owned(),
        None => match sniff_mime(
            if content.len() > SNIFF_LIMIT {
                vstd::slice::slice_subrange(content, 0, SNIFF_LIMIT)
            } else {
                content
            },
        ) {
            Some(m) => m,
            None => String::from_str("application/octet-stream"),
        },
    }
}

/// `data:<mime>;base64,<payload>`
pub fn data_url(mime: &str, content: &[u8]) -> (r: String)
    requires
        encodable(content@),
    ensures
        r@ == data_url_spec(mime@, content@),
{
    let mut text = String::from_str("data:");
    text.append(mime);
    text.append(";base64,");
    let payload = encode_base64(content);
    text.append(payload.as_str());
    text
}

/// The visible marker left in place of a reference that could not be
/// resolved.
pub fn failed_data_url(path: &str) -> (r: String)
    ensures
        r@ == failed_spec(path@),
{
    let mut text = path.to_owned();
    text.append("?b64_failed!");
    text
}

/// The text a template's data-URL helper writes for `path`: a data URL of
/// the file's content where it was found (with the MIME type given, or
/// else sniffed), and the failure marker where it was not.
pub fn data_url_reference(path: &str, explicit_mime: Option<&str>, content: Option<&[u8]>) -> (r:
    String)
    requires
        content is Some ==> encodable(content.unwrap()@),
    ensures
        r@ == match content {
            Some(c) => data_url_spec(mime_spec(opt_view(explicit_mime), c@), c@),
            None => failed_spec(path@),
        },
{
    match content {
        Some(c) => {
            let mime = mime_for(explicit_mime, c);
            data_url(mime.as_str(), c)
        },
        None => failed_data_url(path),
    }
}

/// The start of an image tag whose source is the inlined content:
/// `<img{fluff}src="data:..."`.
pub fn inline_img(fluff: &str, content: &[u8]) -> (r: String)
    requires
        encodable(content@),
    ensures
        r@ == img_spec(fluff@, mime_spec(None, content@), content@),
{
    let mime = mime_for(None, content);
    let mut text = String::from_str("<img");
    text.append(fluff);
    text.append("src=\"");
    let url = data_url(mime.as_str(), content);
    text.append(url.as_str());
    text.append("\"");
    text
}

/// What an image tag's match becomes: the tag with the file's content
/// inlined where a file was read, and the match unchanged where none was.
pub fn image_replacement(whole: &str, fluff: &str, content: Option<&[u8]>) -> (r: String)
    requires
        content is Some ==> encodable(content.unwrap()@),
    ensures
        r@ == match content {
            Some(c) => img_spec(fluff@, mime_spec(None, c@), c@),
            None => whole@,
        },
{
    match content {
        Some(c) => inline_img(fluff, c),
        None => whole.to_owned(),
    }
}

/// Which file an image reference is read from: the reference itself when it
/// names an existing file; otherwise, when it is not a URL, the reference
/// taken relative to the document's directory (`joined`) if that exists;
/// otherwise none, and the reference stays as written.
pub open spec fn image_target_spec(
    reference: Seq<char>,
    exists: bool,
    joined: Seq<char>,
    joined_exists: bool,
) -> Option<Seq<char>> {
    if exists {
        Some(reference)
    } else if !url_parses(reference) && joined_exists {
        Some(joined)
    } else {
        None
    }
}

/// Decides which file an image reference is read from; `exists` and
/// `joined_exists` say whether the reference and the joined path name
/// existing files.
pub fn image_target(reference: &str, exists: bool, joined: &str, joined_exists: bool) -> (r:
    Option<String>)
    ensures
        r.is_some() == image_target_spec(reference@, exists, joined@, joined_exists).is_some(),
        r.is_some() ==> r.unwrap()@ == image_target_spec(
            reference@,
            exists,
            joined@,
            joined_exists,
        ).unwrap(),
{
    if exists {
        Some(reference.to_owned())
    } else if !is_valid_url(reference) && joined_exists {
        Some(joined.to_owned())
    } else {
        None
    }
}

} // verus!
