//! `multipart/form-data` bodies (RFC 7578).

use vstd::prelude::*;
use vstd::utf8::encode_utf8;
use crate::content_disposition::{
    ContentDisposition, DispositionView, Filename, FilenameView, disposition_text, opt_view,
};
use crate::text::{push_str, string_of};

verus! {

/// The MIME type that `mime_guess` gives a path by its extension.
pub uninterp spec fn guessed_mime(path: Seq<char>) -> Option<Seq<char>>;

/// Relies on `mime_guess::from_path(..).first_raw()`: the first known MIME type of
/// the path's extension, if any.
#[verifier::external_body]
fn guess_mime(path: &str) -> (r: Option<String>)
    ensures
        opt_view(r) == guessed_mime(path@),
{
    mime_guess::from_path(path).first_raw().map(String::from)
}

/// UTF-8 of a concatenation is the concatenation of the UTF-8 of the parts.
pub proof fn lemma_encode_utf8_concat(a: Seq<char>, b: Seq<char>)
    ensures
        encode_utf8(a + b) == encode_utf8(a) + encode_utf8(b),
    decreases a.len(),
{
    if a.len() == 0 {
        assert(a + b =~= b);
        assert(encode_utf8(a) =~= Seq::<u8>::empty());
        assert(encode_utf8(a) + encode_utf8(b) =~= encode_utf8(b));
    } else {
        lemma_encode_utf8_concat(a.drop_first(), b);
        assert((a + b).drop_first() =~= a.drop_first() + b);
        assert((a + b)[0] == a[0]);
        assert(encode_utf8(a + b) =~= encode_utf8(a) + encode_utf8(b));
    }
}

/// Text that opens a part: boundary line and `Content-Disposition`.
pub open spec fn part_head(boundary: Seq<char>, disp: DispositionView) -> Seq<char> {
    "--"@ + boundary + "\r\nContent-Disposition: "@ + disposition_text(disp) + "\r\n"@
}

/// Text that closes a part: line break and the boundary line.
pub open spec fn part_tail(boundary: Seq<char>) -> Seq<char> {
    "\r\n--"@ + boundary + "\r\n"@
}

/// Bytes of a simple field.
pub open spec fn field_part(boundary: Seq<char>, name: Seq<char>, data: Seq<u8>) -> Seq<u8> {
    encode_utf8(
        part_head(boundary, DispositionView::FormData(Some(name), FilenameView::Name(None)))
            + "\r\n"@,
    ) + data + encode_utf8(part_tail(boundary))
}

/// Bytes of a file field.
pub open spec fn file_part(
    boundary: Seq<char>,
    field: Seq<char>,
    file: FilenameView,
    mime: Seq<char>,
    data: Seq<u8>,
) -> Seq<u8> {
    encode_utf8(
        part_head(boundary, DispositionView::FormData(Some(field), file)) + "Content-Type: "@
            + mime + "\r\n\r\n"@,
    ) + data + encode_utf8(part_tail(boundary))
}

/// The finished body: the last boundary line closed with `--`.
pub open spec fn finished(storage: Seq<u8>) -> Seq<u8> {
    if storage.len() < 2 {
        storage
    } else {
        storage.subrange(0, storage.len() - 2) + seq![45u8, 45u8, 13u8, 10u8]
    }
}

/// MIME type used for a file whose type cannot be guessed.
pub open spec fn octet_stream() -> Seq<char> {
    "application/octet-stream"@
}

/// MIME type given to a file of this name.
pub open spec fn mime_for(file_name: Option<Seq<char>>) -> Seq<char> {
    match file_name {
        Some(n) => match guessed_mime(n) {
            Some(m) => m,
            None => octet_stream(),
        },
        None => octet_stream(),
    }
}

proof fn lemma_ascii_scalar(v: u32)
    requires
        v < 128,
    ensures
        vstd::utf8::encode_scalar(v) == seq![v as u8],
{
    assert((v & 0x7F) == v) by (bit_vector)
        requires
            v < 128u32,
    ;
}

proof fn lemma_line_end_bytes()
    ensures
        encode_utf8("\r\n"@) == seq![13u8, 10u8],
        encode_utf8("--\r\n"@) == seq![45u8, 45u8, 13u8, 10u8],
{
    reveal_strlit("\r\n");
    reveal_strlit("--\r\n");
    lemma_ascii_scalar(13);
    lemma_ascii_scalar(10);
    lemma_ascii_scalar(45);
    let a = seq!['\r', '\n'];
    let b = seq!['-', '-', '\r', '\n'];
    assert(a.drop_first() =~= seq!['\n']);
    assert(seq!['\n'].drop_first() =~= Seq::<char>::empty());
    assert(b.drop_first() =~= seq!['-', '\r', '\n']);
    assert(seq!['-', '\r', '\n'].drop_first() =~= a);
    assert(encode_utf8(Seq::<char>::empty()) =~= Seq::<u8>::empty());
    assert(encode_utf8(seq!['\n']) =~= seq![10u8]);
    assert(encode_utf8(a) =~= seq![13u8, 10u8]);
    assert(encode_utf8(seq!['-', '\r', '\n']) =~= seq![45u8, 13u8, 10u8]);
    assert(encode_utf8(b) =~= seq![45u8, 45u8, 13u8, 10u8]);
    assert("\r\n"@ =~= a);
    assert("--\r\n"@ =~= b);
}

/// Finishing a form that holds a simple field and then a file field gives both
/// parts in order, the last boundary line being closed with `--`.
pub proof fn lemma_finish_field_and_file(
    boundary: Seq<char>,
    name: Seq<char>,
    data: Seq<u8>,
    field: Seq<char>,
    file: FilenameView,
    mime: Seq<char>,
    file_data: Seq<u8>,
)
    ensures
        finished(
            field_part(boundary, name, data) + file_part(boundary, field, file, mime, file_data),
        ) == field_part(boundary, name, data) + encode_utf8(
            part_head(boundary, DispositionView::FormData(Some(field), file)) + "Content-Type: "@
                + mime + "\r\n\r\n"@,
        ) + file_data + encode_utf8("\r\n--"@ + boundary + "--\r\n"@),
{
    lemma_line_end_bytes();
    let open_line = "\r\n--"@ + boundary;
    assert(part_tail(boundary) =~= open_line + "\r\n"@);
    lemma_encode_utf8_concat(open_line, "\r\n"@);
    lemma_encode_utf8_concat(open_line, "--\r\n"@);
    assert(open_line + "--\r\n"@ =~= "\r\n--"@ + boundary + "--\r\n"@);
    let head = encode_utf8(
        part_head(boundary, DispositionView::FormData(Some(field), file)) + "Content-Type: "@ + mime
            + "\r\n\r\n"@,
    );
    let whole = field_part(boundary, name, data) + file_part(boundary, field, file, mime, file_data);
    let body = field_part(boundary, name, data) + head + file_data + encode_utf8(open_line);
    assert(whole =~= body + seq![13u8, 10u8]);
    assert(whole.subrange(0, whole.len() - 2) =~= body);
    assert(finished(whole) =~= body + seq![45u8, 45u8, 13u8, 10u8]);
}

/// A multipart form under construction.
pub struct Form {
    /// Boundary between parts; ASCII.
    pub boundary: &'static str,
    storage: Vec<u8>,
}

fn push_bytes(v: &mut Vec<u8>, t: &[u8])
    ensures
        final(v)@ == old(v)@ + t@,
{
    let mut i: usize = 0;
    while i < t.len()
        invariant
            0 <= i <= t@.len(),
            v@ == old(v)@ + t@.subrange(0, i as int),
        decreases t@.len() - i,
    {
        v.push(t[i]);
        proof {
            assert(v@ =~= old(v)@ + t@.subrange(0, i + 1));
        }
        i = i + 1;
    }
    proof {
        assert(t@.subrange(0, t@.len() as int) =~= t@);
    }
}

fn push_text(v: &mut Vec<u8>, t: &Vec<char>)
    ensures
        final(v)@ == old(v)@ + encode_utf8(t@),
{
    let s = string_of(t.as_slice());
    push_bytes(v, s.as_str().as_bytes());
}

impl Form {
    /// Bytes written so far.
    pub closed spec fn storage(&self) -> Seq<u8> {
        self.storage@
    }

    /// The boundary, as text.
    pub closed spec fn boundary_text(&self) -> Seq<char> {
        self.boundary@
    }

    /// A form with the boundary `yuki`.
    pub fn new() -> (r: Self)
        ensures
            r.boundary_text() == "yuki"@,
            r.storage() == Seq::<u8>::empty(),
    {
        proof {
            reveal_strlit("yuki");
        }
        Self::with_boundary("yuki")
    }

    /// A form with the given ASCII boundary.
    pub fn with_boundary(boundary: &'static str) -> (r: Self)
        requires
            vstd::string::is_ascii(boundary),
        ensures
            r.boundary_text() == boundary@,
            r.storage() == Seq::<u8>::empty(),
    {
        Form { boundary, storage: Vec::new() }
    }

    /// The boundary.
    pub fn boundary(&self) -> (r: &'static str)
        ensures
            r@ == self.boundary_text(),
    {
        self.boundary
    }

    /// Number of bytes written so far.
    pub fn len(&self) -> (r: usize)
        ensures
            r == self.storage().len(),
    {
        self.storage.len()
    }

    fn push_head(&mut self, disp: &ContentDisposition)
        ensures
            final(self).boundary_text() == old(self).boundary_text(),
            final(self).storage() == old(self).storage() + encode_utf8(
                part_head(old(self).boundary_text(), disp@),
            ),
    {
        let mut head: Vec<char> = Vec::new();
        push_str(&mut head, "--");
        push_str(&mut head, self.boundary);
        push_str(&mut head, "\r\nContent-Disposition: ");
        let d = disp.to_string();
        push_str(&mut head, d.as_str());
        push_str(&mut head, "\r\n");
        proof {
            assert(head@ =~= part_head(self.boundary@, disp@));
        }
        push_text(&mut self.storage, &head);
    }

    fn push_tail(&mut self)
        ensures
            final(self).boundary_text() == old(self).boundary_text(),
            final(self).storage() == old(self).storage() + encode_utf8(
                part_tail(old(self).boundary_text()),
            ),
    {
        let mut tail: Vec<char> = Vec::new();
        push_str(&mut tail, "\r\n--");
        push_str(&mut tail, self.boundary);
        push_str(&mut tail, "\r\n");
        proof {
            assert(tail@ =~= part_tail(self.boundary@));
        }
        push_text(&mut self.storage, &tail);
    }

    /// Adds a simple field.
    pub fn add_field(&mut self, name: String, data: &[u8])
        ensures
            final(self).boundary_text() == old(self).boundary_text(),
            final(self).storage() == old(self).storage() + field_part(
                old(self).boundary_text(),
                name@,
                data@,
            ),
    {
        let ghost name_v = name@;
        let disp = ContentDisposition::FormData(Some(name), Filename::new());
        let ghost before = self.storage();
        self.push_head(&disp);
        let mut blank: Vec<char> = Vec::new();
        push_str(&mut blank, "\r\n");
        push_text(&mut self.storage, &blank);
        push_bytes(&mut self.storage, data);
        self.push_tail();
        proof {
            let disp_v = DispositionView::FormData(Some(name_v), FilenameView::Name(None));
            lemma_encode_utf8_concat(part_head(self.boundary@, disp_v), "\r\n"@);
            assert(self.storage() =~= before + field_part(self.boundary@, name_v, data@));
        }
    }

    /// Adds a file field with a given file name and MIME type.
    pub fn add_file_field(&mut self, field_name: String, file_name: String, mime: &str, data: &[u8])
        ensures
            final(self).boundary_text() == old(self).boundary_text(),
            final(self).storage() == old(self).storage() + file_part(
                old(self).boundary_text(),
                field_name@,
                FilenameView::Name(Some(file_name@)),
                mime@,
                data@,
            ),
    {
        self.add_file_part(field_name, Filename::with_name(file_name), mime, data);
    }

    fn add_file_part(&mut self, field_name: String, file: Filename, mime: &str, data: &[u8])
        ensures
            final(self).boundary_text() == old(self).boundary_text(),
            final(self).storage() == old(self).storage() + file_part(
                old(self).boundary_text(),
                field_name@,
                file@,
                mime@,
                data@,
            ),
    {
        let ghost field_v = field_name@;
        let ghost file_v = file@;
        let disp = ContentDisposition::FormData(Some(field_name), file);
        let ghost before = self.storage();
        self.push_head(&disp);
        let mut ctype: Vec<char> = Vec::new();
        push_str(&mut ctype, "Content-Type: ");
        push_str(&mut ctype, mime);
        push_str(&mut ctype, "\r\n\r\n");
        push_text(&mut self.storage, &ctype);
        push_bytes(&mut self.storage, data);
        self.push_tail();
        proof {
            let disp_v = DispositionView::FormData(Some(field_v), file_v);
            lemma_encode_utf8_concat(part_head(self.boundary@, disp_v), ctype@);
            assert(part_head(self.boundary@, disp_v) + "Content-Type: "@ + mime@ + "\r\n\r\n"@
                =~= part_head(self.boundary@, disp_v) + ctype@);
            assert(self.storage() =~= before + file_part(
                self.boundary@,
                field_v,
                file_v,
                mime@,
                data@,
            ));
        }
    }

    /// Adds the contents of a file: the file name, when there is one, goes into
    /// the part, and the MIME type is guessed from its extension.
    pub fn add_file_data(&mut self, field_name: String, file_name: Option<String>, data: &[u8])
        ensures
            final(self).boundary_text() == old(self).boundary_text(),
            final(self).storage() == old(self).storage() + file_part(
                old(self).boundary_text(),
                field_name@,
                FilenameView::Name(opt_view(file_name)),
                mime_for(opt_view(file_name)),
                data@,
            ),
    {
        let mime = match &file_name {
            Some(n) => match guess_mime(n.as_str()) {
                Some(m) => m,
                None => String::from_str("application/octet-stream"),
            },
            None => String::from_str("application/octet-stream"),
        };
        let file = match file_name {
            Some(n) => Filename::with_name(n),
            None => Filename::new(),
        };
        self.add_file_part(field_name, file, mime.as_str(), data);
    }

    /// Cuts the written bytes back to the first `len`, dropping a part that
    /// could not be completed.
    pub fn truncate(&mut self, len: usize)
        requires
            len <= old(self).storage().len(),
        ensures
            final(self).boundary_text() == old(self).boundary_text(),
            final(self).storage() == old(self).storage().subrange(0, len as int),
    {
        self.storage.truncate(len);
    }

    /// The finished body and its length: the last boundary line is closed with
    /// `--`; an empty form gives an empty body.
    pub fn finish(self) -> (r: (u64, Vec<u8>))
        requires
            self.storage().len() + 2 <= u64::MAX,
        ensures
            r.1@ == finished(self.storage()),
            r.0 == r.1@.len(),
    {
        let mut bytes = self.storage;
        let len = bytes.len();
        if len < 2 {
            return (len as u64, bytes);
        }
        bytes.set(len - 2, 45u8);
        bytes.set(len - 1, 45u8);
        bytes.push(13u8);
        bytes.push(10u8);
        proof {
            assert(bytes@ =~= finished(self.storage@));
        }
        ((len as u64) + 2, bytes)
    }
}

} // verus!
