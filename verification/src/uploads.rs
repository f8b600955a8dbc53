//! Upload vetting: deriving a file extension from a file name or MIME
//! type, and the whitelists of image and document formats.

use vstd::prelude::*;
use crate::text::{lower_seq, ascii_lower};
use crate::errors::ApiError;

verus! {

/// A document sent inline as base64 text.
pub struct Base64UploadRequest {
    pub filename: String,
    pub mime_type: Vec<u8>,
    pub data: Vec<u8>,
}

/// Whether `s` holds byte `b` anywhere.
pub open spec fn has_byte(s: Seq<u8>, b: u8) -> bool {
    exists|i: int| 0 <= i < s.len() && s[i] == b
}

/// Everything after the last occurrence of `b` (meaningful when present).
pub open spec fn after_last(s: Seq<u8>, b: u8) -> Seq<u8> {
    let i = choose|i: int| 0 <= i < s.len() && s[i] == b && (forall|j: int| i < j < s.len() ==> s[j] != b);
    s.skip(i + 1)
}

/// The lowercased text after the file name's last dot, or `None` for a
/// name without any dot.
pub fn get_extension_from_filename(name: &[u8]) -> (r: Option<Vec<u8>>)
    ensures
        r is Some <==> has_byte(name@, 0x2e),
        r matches Some(e) ==> e@ == lower_seq(after_last(name@, 0x2e)),
{
    let n = name.len();
    let mut dot: usize = 0;
    let mut dot_found = false;
    for k in 0..n
        invariant
            n == name@.len(),
            dot_found ==> 0 <= dot < n && name@[dot as int] == 0x2e,
            dot_found ==> forall|m: int| dot < m < k ==> name@[m] != 0x2e,
            !dot_found ==> forall|m: int| 0 <= m < k ==> name@[m] != 0x2e,
    {
        if name[k] == 0x2e {
            dot = k;
            dot_found = true;
        }
    }
    if !dot_found {
        return None;
    }
    let tail = vstd::slice::slice_subrange(name, dot + 1, n);
    proof {
        let i = choose|i: int|
            0 <= i < name@.len() && name@[i] == 0x2e && (forall|j: int|
                i < j < name@.len() ==> name@[j] != 0x2e);
        assert(name@[dot as int] == 0x2e && (forall|j: int|
            dot < j < name@.len() ==> name@[j] != 0x2e));
        if i != dot as int {
            if i < dot as int {
                assert(name@[dot as int] != 0x2e);
            } else {
                assert(name@[i] != 0x2e);
            }
        }
        assert(tail@ =~= after_last(name@, 0x2e));
    }
    Some(ascii_lower(tail))
}

/// The extension an upload is filed under, decided the way the upload
/// handlers do: the filename's extension wins; otherwise the content
/// type's standard mapping; otherwise whatever extension the transport
/// layer derived from the content type; otherwise the upload is refused.
pub fn resolve_upload_extension(
    filename: Option<&[u8]>,
    content_type: Option<&[u8]>,
    transport_ext: Option<&[u8]>,
) -> (r: Result<Vec<u8>, ApiError>)
    ensures
        ({
            let from_name = filename matches Some(f) && has_byte(f@, 0x2e);
            let from_ct = content_type matches Some(ct) && (ct@ == mime_image_jpeg() || ct@
                == mime_image_jpg() || ct@ == mime_image_png() || ct@ == mime_image_webp() || ct@
                == mime_application_pdf());
            &&& (r is Ok <==> (from_name || from_ct || transport_ext is Some))
            &&& (from_name ==> (r matches Ok(e) && (filename matches Some(f) && e@ == lower_seq(
                after_last(f@, 0x2e),
            ))))
            &&& (!from_name && !from_ct && transport_ext is Some ==> (r matches Ok(e) && e@
                == lower_seq(transport_ext.unwrap()@)))
            &&& ((r matches Err(err) && err.status == crate::errors::STATUS_BAD_REQUEST)
                || r is Ok)
        }),
{
    if let Some(name) = filename {
        if let Some(ext) = get_extension_from_filename(name) {
            return Ok(ext);
        }
    }
    if let Some(ct) = content_type {
        if let Some(ext) = extension_from_content_type(ct) {
            return Ok(ext);
        }
    }
    if let Some(t) = transport_ext {
        return Ok(ascii_lower(t));
    }
    Err(ApiError {
        status: crate::errors::STATUS_BAD_REQUEST,
        message: "Cannot determine file type".to_owned(),
    })
}

pub open spec fn ext_jpg() -> Seq<u8> {
    seq![0x6au8, 0x70u8, 0x67u8]
}

pub open spec fn ext_jpeg() -> Seq<u8> {
    seq![0x6au8, 0x70u8, 0x65u8, 0x67u8]
}

pub open spec fn ext_png() -> Seq<u8> {
    seq![0x70u8, 0x6eu8, 0x67u8]
}

pub open spec fn ext_webp() -> Seq<u8> {
    seq![0x77u8, 0x65u8, 0x62u8, 0x70u8]
}

pub open spec fn ext_pdf() -> Seq<u8> {
    seq![0x70u8, 0x64u8, 0x66u8]
}

fn is_jpg(s: &[u8]) -> (r: bool)
    ensures
        r == (s@ == ext_jpg()),
{
    let r = s.len() == 3 && s[0] == 0x6a && s[1] == 0x70 && s[2] == 0x67;
    proof {
        assert(r == (s@ =~= ext_jpg()));
    }
    r
}

fn is_jpeg(s: &[u8]) -> (r: bool)
    ensures
        r == (s@ == ext_jpeg()),
{
    let r = s.len() == 4 && s[0] == 0x6a && s[1] == 0x70 && s[2] == 0x65 && s[3] == 0x67;
    proof {
        assert(r == (s@ =~= ext_jpeg()));
    }
    r
}

fn is_png(s: &[u8]) -> (r: bool)
    ensures
        r == (s@ == ext_png()),
{
    let r = s.len() == 3 && s[0] == 0x70 && s[1] == 0x6e && s[2] == 0x67;
    proof {
        assert(r == (s@ =~= ext_png()));
    }
    r
}

fn is_webp(s: &[u8]) -> (r: bool)
    ensures
        r == (s@ == ext_webp()),
{
    let r = s.len() == 4 && s[0] == 0x77 && s[1] == 0x65 && s[2] == 0x62 && s[3] == 0x70;
    proof {
        assert(r == (s@ =~= ext_webp()));
    }
    r
}

fn is_pdf(s: &[u8]) -> (r: bool)
    ensures
        r == (s@ == ext_pdf()),
{
    let r = s.len() == 3 && s[0] == 0x70 && s[1] == 0x64 && s[2] == 0x66;
    proof {
        assert(r == (s@ =~= ext_pdf()));
    }
    r
}

/// Image uploads accept jpg, jpeg, png and webp.
pub fn is_valid_image_extension(ext: &[u8]) -> (r: bool)
    ensures
        r == (ext@ == ext_jpg() || ext@ == ext_jpeg() || ext@ == ext_png() || ext@ == ext_webp()),
{
    is_jpg(ext) || is_jpeg(ext) || is_png(ext) || is_webp(ext)
}

/// Document uploads accept pdf, jpg, jpeg and png.
pub fn is_valid_document_extension(ext: &[u8]) -> (r: bool)
    ensures
        r == (ext@ == ext_pdf() || ext@ == ext_jpg() || ext@ == ext_jpeg() || ext@ == ext_png()),
{
    is_pdf(ext) || is_jpg(ext) || is_jpeg(ext) || is_png(ext)
}

pub open spec fn mime_image_jpeg() -> Seq<u8> {
    seq![0x69u8, 0x6du8, 0x61u8, 0x67u8, 0x65u8, 0x2fu8] + ext_jpeg()
}

pub open spec fn mime_image_jpg() -> Seq<u8> {
    seq![0x69u8, 0x6du8, 0x61u8, 0x67u8, 0x65u8, 0x2fu8] + ext_jpg()
}

pub open spec fn mime_image_png() -> Seq<u8> {
    seq![0x69u8, 0x6du8, 0x61u8, 0x67u8, 0x65u8, 0x2fu8] + ext_png()
}

pub open spec fn mime_image_webp() -> Seq<u8> {
    seq![0x69u8, 0x6du8, 0x61u8, 0x67u8, 0x65u8, 0x2fu8] + ext_webp()
}

pub open spec fn mime_application_pdf() -> Seq<u8> {
    seq![
        0x61u8, 0x70u8, 0x70u8, 0x6cu8, 0x69u8, 0x63u8, 0x61u8, 0x74u8, 0x69u8, 0x6fu8, 0x6eu8,
        0x2fu8,
    ] + ext_pdf()
}

fn mime_prefix_image(s: &[u8]) -> (r: bool)
    ensures
        r == (s@.len() >= 6 && s@.subrange(0, 6) =~= seq![
            0x69u8,
            0x6du8,
            0x61u8,
            0x67u8,
            0x65u8,
            0x2fu8,
        ]),
{
    let r = s.len() >= 6 && s[0] == 0x69 && s[1] == 0x6d && s[2] == 0x61 && s[3] == 0x67 && s[4]
        == 0x65 && s[5] == 0x2f;
    proof {
        if s@.len() >= 6 {
            assert(r == (s@.subrange(0, 6) =~= seq![0x69u8, 0x6du8, 0x61u8, 0x67u8, 0x65u8, 0x2fu8]));
        }
    }
    r
}

/// Extension for a known content type: the four image types and PDF;
/// anything else gives `None`.
pub fn extension_from_content_type(content_type: &[u8]) -> (r: Option<Vec<u8>>)
    ensures
        r is Some <==> (content_type@ == mime_image_jpeg() || content_type@ == mime_image_jpg()
            || content_type@ == mime_image_png() || content_type@ == mime_image_webp()
            || content_type@ == mime_application_pdf()),
        content_type@ == mime_image_jpeg() || content_type@ == mime_image_jpg()
            ==> (r matches Some(e) && e@ == ext_jpg()),
        content_type@ == mime_image_png() ==> (r matches Some(e) && e@ == ext_png()),
        content_type@ == mime_image_webp() ==> (r matches Some(e) && e@ == ext_webp()),
        content_type@ == mime_application_pdf() ==> (r matches Some(e) && e@ == ext_pdf()),
{
    let n = content_type.len();
    if mime_prefix_image(content_type) {
        let tail = vstd::slice::slice_subrange(content_type, 6, n);
        proof {
            assert(content_type@ =~= content_type@.subrange(0, 6) + tail@);
            assert((content_type@ == mime_image_jpeg()) == (tail@ =~= ext_jpeg()));
            assert((content_type@ == mime_image_jpg()) == (tail@ =~= ext_jpg()));
            assert((content_type@ == mime_image_png()) == (tail@ =~= ext_png()));
            assert((content_type@ == mime_image_webp()) == (tail@ =~= ext_webp()));
            assert(content_type@ != mime_application_pdf());
        }
        if is_jpeg(tail) || is_jpg(tail) {
            let mut e: Vec<u8> = Vec::new();
            e.push(0x6a);
            e.push(0x70);
            e.push(0x67);
            proof {
                assert(e@ =~= ext_jpg());
            }
            return Some(e);
        }
        if is_png(tail) {
            let mut e: Vec<u8> = Vec::new();
            e.push(0x70);
            e.push(0x6e);
            e.push(0x67);
            proof {
                assert(e@ =~= ext_png());
            }
            return Some(e);
        }
        if is_webp(tail) {
            let mut e: Vec<u8> = Vec::new();
            e.push(0x77);
            e.push(0x65);
            e.push(0x62);
            e.push(0x70);
            proof {
                assert(e@ =~= ext_webp());
            }
            return Some(e);
        }
        return None;
    }
    let is_app_pdf = n == 15 && content_type[0] == 0x61 && content_type[1] == 0x70
        && content_type[2] == 0x70 && content_type[3] == 0x6c && content_type[4] == 0x69
        && content_type[5] == 0x63 && content_type[6] == 0x61 && content_type[7] == 0x74
        && content_type[8] == 0x69 && content_type[9] == 0x6f && content_type[10] == 0x6e
        && content_type[11] == 0x2f && content_type[12] == 0x70 && content_type[13] == 0x64
        && content_type[14] == 0x66;
    proof {
        assert(is_app_pdf == (content_type@ =~= mime_application_pdf()));
        if !is_app_pdf {
            if content_type@ == mime_image_jpeg() {
                assert(content_type@.subrange(0, 6) =~= seq![
                    0x69u8,
                    0x6du8,
                    0x61u8,
                    0x67u8,
                    0x65u8,
                    0x2fu8,
                ]);
            }
            if content_type@ == mime_image_jpg() {
                assert(content_type@.subrange(0, 6) =~= seq![
                    0x69u8,
                    0x6du8,
                    0x61u8,
                    0x67u8,
                    0x65u8,
                    0x2fu8,
                ]);
            }
            if content_type@ == mime_image_png() {
                assert(content_type@.subrange(0, 6) =~= seq![
                    0x69u8,
                    0x6du8,
                    0x61u8,
                    0x67u8,
                    0x65u8,
                    0x2fu8,
                ]);
            }
            if content_type@ == mime_image_webp() {
                assert(content_type@.subrange(0, 6) =~= seq![
                    0x69u8,
                    0x6du8,
                    0x61u8,
                    0x67u8,
                    0x65u8,
                    0x2fu8,
                ]);
            }
        }
    }
    if is_app_pdf {
        let mut e: Vec<u8> = Vec::new();
        e.push(0x70);
        e.push(0x64);
        e.push(0x66);
        proof {
            assert(e@ =~= ext_pdf());
        }
        return Some(e);
    }
    None
}

/// Extension for a known MIME type; the same mapping as
/// `extension_from_content_type`.
pub fn get_extension_from_mime(mime_type: &[u8]) -> (r: Option<Vec<u8>>)
    ensures
        r is Some <==> (mime_type@ == mime_image_jpeg() || mime_type@ == mime_image_jpg()
            || mime_type@ == mime_image_png() || mime_type@ == mime_image_webp() || mime_type@
            == mime_application_pdf()),
        mime_type@ == mime_image_jpeg() || mime_type@ == mime_image_jpg() ==> (r matches Some(e)
            && e@ == ext_jpg()),
        mime_type@ == mime_image_png() ==> (r matches Some(e) && e@ == ext_png()),
        mime_type@ == mime_image_webp() ==> (r matches Some(e) && e@ == ext_webp()),
        mime_type@ == mime_application_pdf() ==> (r matches Some(e) && e@ == ext_pdf()),
{
    extension_from_content_type(mime_type)
}

/// Base64 document uploads accept JPEG, PNG and PDF MIME types — not
/// webp.
pub fn is_valid_document_mime(mime_type: &[u8]) -> (r: bool)
    ensures
        r == (mime_type@ == mime_image_jpeg() || mime_type@ == mime_image_jpg() || mime_type@
            == mime_image_png() || mime_type@ == mime_application_pdf()),
{
    let n = mime_type.len();
    if mime_prefix_image(mime_type) {
        let tail = vstd::slice::slice_subrange(mime_type, 6, n);
        proof {
            assert(mime_type@ =~= mime_type@.subrange(0, 6) + tail@);
            assert((mime_type@ == mime_image_jpeg()) == (tail@ =~= ext_jpeg()));
            assert((mime_type@ == mime_image_jpg()) == (tail@ =~= ext_jpg()));
            assert((mime_type@ == mime_image_png()) == (tail@ =~= ext_png()));
            assert(mime_type@ != mime_application_pdf());
        }
        return is_jpeg(tail) || is_jpg(tail) || is_png(tail);
    }
    let is_app_pdf = n == 15 && mime_type[0] == 0x61 && mime_type[1] == 0x70 && mime_type[2]
        == 0x70 && mime_type[3] == 0x6c && mime_type[4] == 0x69 && mime_type[5] == 0x63
        && mime_type[6] == 0x61 && mime_type[7] == 0x74 && mime_type[8] == 0x69 && mime_type[9]
        == 0x6f && mime_type[10] == 0x6e && mime_type[11] == 0x2f && mime_type[12] == 0x70
        && mime_type[13] == 0x64 && mime_type[14] == 0x66;
    proof {
        assert(is_app_pdf == (mime_type@ =~= mime_application_pdf()));
        if !is_app_pdf {
            if mime_type@ == mime_image_jpeg() {
                assert(mime_type@.subrange(0, 6) =~= seq![
                    0x69u8,
                    0x6du8,
                    0x61u8,
                    0x67u8,
                    0x65u8,
                    0x2fu8,
                ]);
            }
            if mime_type@ == mime_image_jpg() {
                assert(mime_type@.subrange(0, 6) =~= seq![
                    0x69u8,
                    0x6du8,
                    0x61u8,
                    0x67u8,
                    0x65u8,
                    0x2fu8,
                ]);
            }
            if mime_type@ == mime_image_png() {
                assert(mime_type@.subrange(0, 6) =~= seq![
                    0x69u8,
                    0x6du8,
                    0x61u8,
                    0x67u8,
                    0x65u8,
                    0x2fu8,
                ]);
            }
        }
    }
    is_app_pdf
}

} // verus!
