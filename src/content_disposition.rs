//! The `Content-Disposition` header (RFC 6266) and its `filename` parameter.

use vstd::prelude::*;
use vstd::string::StringSliceAdditionalSpecFns;
use crate::percent::{EncodeSet, percent_encode, utf8_percent_encode};
use crate::text::{
    chars_of, eq_ignore_case, eq_ignore_case_in, find, find_in, push_str, split_two,
    split_two_in, string_in, trim, trim_char, trim_char_in, trim_in,
};

verus! {

/// The `filename` parameter of `Content-Disposition`.
#[derive(Clone, Debug)]
pub enum Filename {
    /// Plain `filename`, possibly without a value.
    Name(Option<String>),
    /// Extended `filename*`: optional language tag and a percent-encoded UTF-8 value.
    Extended(Option<String>, String),
}

/// Abstract value of a [`Filename`].
pub enum FilenameView {
    /// Plain name.
    Name(Option<Seq<char>>),
    /// Language tag and encoded value.
    Extended(Option<Seq<char>>, Seq<char>),
}

/// View of an optional string.
pub open spec fn opt_view(o: Option<String>) -> Option<Seq<char>> {
    match o {
        Some(s) => Some(s@),
        None => None,
    }
}

impl View for Filename {
    type V = FilenameView;

    open spec fn view(&self) -> FilenameView {
        match self {
            Filename::Name(n) => FilenameView::Name(opt_view(*n)),
            Filename::Extended(l, v) => FilenameView::Extended(opt_view(*l), v@),
        }
    }
}

/// A `Content-Disposition` header value.
#[derive(Clone, Debug)]
pub enum ContentDisposition {
    /// Displayed inside the page.
    Inline,
    /// Downloaded, with a file name.
    Attachment(Filename),
    /// A field of a multipart form: field name and file name.
    FormData(Option<String>, Filename),
}

/// Abstract value of a [`ContentDisposition`].
pub enum DispositionView {
    /// `inline`.
    Inline,
    /// `attachment`.
    Attachment(FilenameView),
    /// `form-data`.
    FormData(Option<Seq<char>>, FilenameView),
}

impl View for ContentDisposition {
    type V = DispositionView;

    open spec fn view(&self) -> DispositionView {
        match self {
            ContentDisposition::Inline => DispositionView::Inline,
            ContentDisposition::Attachment(f) => DispositionView::Attachment(f@),
            ContentDisposition::FormData(n, f) => DispositionView::FormData(opt_view(*n), f@),
        }
    }
}

/// Why a `Content-Disposition` value was rejected.
#[derive(Clone, Copy, Debug, PartialEq, Eq, Structural)]
pub enum ParseError {
    /// The type is none of `inline`, `attachment`, `form-data`.
    InvalidDispositionType,
    /// An `attachment` parameter other than `filename[*]`.
    UnknownAttachmentParam,
    /// A `form-data` parameter other than `name` or `filename[*]`.
    UnknownFormParam,
}

impl ParseError {
    /// Human-readable description of the error.
    pub fn to_string(&self) -> String {
        match self {
            ParseError::InvalidDispositionType => String::from_str(
                "Specified disposition type is not valid. Should be inline, attachment or form-data",
            ),
            ParseError::UnknownAttachmentParam => String::from_str(
                "Form-data parameter is invalid. Allowed: filename[*]",
            ),
            ParseError::UnknownFormParam => String::from_str(
                "Form-data parameter is invalid. Allowed: name, filename[*]",
            ),
        }
    }
}

pub open spec fn tok_inline() -> Seq<char> {
    seq!['i', 'n', 'l', 'i', 'n', 'e']
}

pub open spec fn tok_attachment() -> Seq<char> {
    seq!['a', 't', 't', 'a', 'c', 'h', 'm', 'e', 'n', 't']
}

pub open spec fn tok_form_data() -> Seq<char> {
    seq!['f', 'o', 'r', 'm', '-', 'd', 'a', 't', 'a']
}

pub open spec fn tok_name() -> Seq<char> {
    seq!['n', 'a', 'm', 'e']
}

pub open spec fn tok_filename() -> Seq<char> {
    seq!['f', 'i', 'l', 'e', 'n', 'a', 'm', 'e']
}

/// The extended value `charset'lang'value`: language tag and value; `None`
/// without two quote marks.
pub open spec fn ext_value(v: Seq<char>) -> Option<FilenameView> {
    match find(v, '\'') {
        Some(i) => {
            let rest = v.subrange(i + 1, v.len() as int);
            match find(rest, '\'') {
                Some(j) => Some(
                    FilenameView::Extended(
                        Some(rest.subrange(0, j)),
                        rest.subrange(j + 1, rest.len() as int),
                    ),
                ),
                None => None,
            }
        },
        None => None,
    }
}

/// Whether a parameter name is `filename` or `filename*`, in any case.
pub open spec fn is_filename_param(name: Seq<char>) -> bool {
    (name.len() == 8 || (name.len() == 9 && name[8] == '*')) && eq_ignore_case(
        name.subrange(0, 8),
        tok_filename(),
    )
}

/// Outcome of reading one parameter.
pub enum ParamStep {
    /// Go on with this file name (and field name, for forms).
    Next(Option<Seq<char>>, FilenameView),
    /// Stop reading, with this file name.
    Done(FilenameView),
    /// The parameter is not allowed.
    Fail,
}

/// One trimmed `attachment` parameter read with file name `f` so far.
pub open spec fn attachment_param(arg: Seq<char>, f: FilenameView) -> ParamStep {
    let (name, value) = split_two(arg, '=');
    if value.len() == 0 {
        ParamStep::Next(None, f)
    } else if !is_filename_param(name) {
        ParamStep::Fail
    } else {
        let v = trim_char(value, '"');
        if find(name, '*') is Some {
            match ext_value(v) {
                Some(e) => ParamStep::Done(e),
                None => ParamStep::Next(None, f),
            }
        } else {
            ParamStep::Next(None, FilenameView::Name(Some(v)))
        }
    }
}

/// One trimmed `form-data` parameter read with field name `n` and file name `f` so far.
pub open spec fn form_param(arg: Seq<char>, n: Option<Seq<char>>, f: FilenameView) -> ParamStep {
    let (name, value) = split_two(arg, '=');
    if value.len() == 0 {
        ParamStep::Next(n, f)
    } else if eq_ignore_case(name, tok_name()) {
        ParamStep::Next(Some(trim_char(value, '"')), f)
    } else if !is_filename_param(name) {
        ParamStep::Fail
    } else {
        let v = trim_char(value, '"');
        if find(name, '*') is Some {
            match ext_value(v) {
                Some(e) => ParamStep::Next(n, e),
                None => ParamStep::Next(n, f),
            }
        } else if f is Extended {
            ParamStep::Next(n, f)
        } else {
            ParamStep::Next(n, FilenameView::Name(Some(v)))
        }
    }
}

/// The `;`-separated parameters of `attachment`, read from left to right.
pub open spec fn attachment_params(s: Seq<char>, f: FilenameView) -> Result<
    FilenameView,
    ParseError,
>
    decreases s.len(),
{
    let i = match find(s, ';') {
        Some(i) => i,
        None => s.len() as int,
    };
    if 0 <= i < s.len() {
        match attachment_param(trim(s.subrange(0, i)), f) {
            ParamStep::Next(_, g) => attachment_params(s.subrange(i + 1, s.len() as int), g),
            ParamStep::Done(g) => Ok(g),
            ParamStep::Fail => Err(ParseError::UnknownAttachmentParam),
        }
    } else {
        match attachment_param(trim(s), f) {
            ParamStep::Next(_, g) => Ok(g),
            ParamStep::Done(g) => Ok(g),
            ParamStep::Fail => Err(ParseError::UnknownAttachmentParam),
        }
    }
}

/// The `;`-separated parameters of `form-data`, read from left to right.
pub open spec fn form_params(s: Seq<char>, n: Option<Seq<char>>, f: FilenameView) -> Result<
    DispositionView,
    ParseError,
>
    decreases s.len(),
{
    let i = match find(s, ';') {
        Some(i) => i,
        None => s.len() as int,
    };
    if 0 <= i < s.len() {
        match form_param(trim(s.subrange(0, i)), n, f) {
            ParamStep::Next(m, g) => form_params(s.subrange(i + 1, s.len() as int), m, g),
            ParamStep::Done(g) => Ok(DispositionView::FormData(n, g)),
            ParamStep::Fail => Err(ParseError::UnknownFormParam),
        }
    } else {
        match form_param(trim(s), n, f) {
            ParamStep::Next(m, g) => Ok(DispositionView::FormData(m, g)),
            ParamStep::Done(g) => Ok(DispositionView::FormData(n, g)),
            ParamStep::Fail => Err(ParseError::UnknownFormParam),
        }
    }
}

/// What a `Content-Disposition` header value means: its type, then its parameters.
pub open spec fn parse_disposition(text: Seq<char>) -> Result<DispositionView, ParseError> {
    let (kind, args) = split_two(trim(text), ';');
    if eq_ignore_case(kind, tok_inline()) {
        Ok(DispositionView::Inline)
    } else if eq_ignore_case(kind, tok_attachment()) {
        match attachment_params(args, FilenameView::Name(None)) {
            Ok(f) => Ok(DispositionView::Attachment(f)),
            Err(e) => Err(e),
        }
    } else if eq_ignore_case(kind, tok_form_data()) {
        form_params(args, None, FilenameView::Name(None))
    } else {
        Err(ParseError::InvalidDispositionType)
    }
}

/// View of a parse result.
pub open spec fn parsed_view(r: Result<ContentDisposition, ParseError>) -> Result<
    DispositionView,
    ParseError,
> {
    match r {
        Ok(d) => Ok(d@),
        Err(e) => Err(e),
    }
}

/// An optional text, or the empty text.
pub open spec fn or_empty(o: Option<Seq<char>>) -> Seq<char> {
    match o {
        Some(s) => s,
        None => Seq::empty(),
    }
}

/// The `filename` part of a header value, with its leading `; `.
pub open spec fn filename_text(f: FilenameView) -> Seq<char> {
    match f {
        FilenameView::Name(Some(n)) => "; filename=\""@ + n + "\""@,
        FilenameView::Name(None) => Seq::empty(),
        FilenameView::Extended(l, v) => "; filename*=utf-8'"@ + or_empty(l) + "'"@ + v,
    }
}

/// The header value that a disposition is written as.
pub open spec fn disposition_text(d: DispositionView) -> Seq<char> {
    match d {
        DispositionView::Inline => "inline"@,
        DispositionView::Attachment(f) => "attachment"@ + filename_text(f),
        DispositionView::FormData(None, f) => "form-data"@ + filename_text(f),
        DispositionView::FormData(Some(n), f) => "form-data; name=\""@ + n + "\""@ + filename_text(
            f,
        ),
    }
}

/// Splits `text` at the first `sep`: the part before it without trailing
/// whitespace and the part after it without leading whitespace; without `sep`,
/// the whole text and an empty one.
pub fn split_into_two(text: &str, sep: char) -> (r: (String, String))
    ensures
        (r.0@, r.1@) == split_two(text@, sep),
{
    let s = chars_of(text);
    proof {
        assert(s@.subrange(0, s@.len() as int) =~= s@);
    }
    let (a, b, c, d) = split_two_in(&s, 0, s.len(), sep);
    (string_in(&s, a, b), string_in(&s, c, d))
}

/// Exec outcome of reading one parameter.
enum Step {
    Next(Option<String>, Filename),
    Done(Filename),
    Fail,
}

spec fn step_view(s: Step) -> ParamStep {
    match s {
        Step::Next(n, f) => ParamStep::Next(opt_view(n), f@),
        Step::Done(f) => ParamStep::Done(f@),
        Step::Fail => ParamStep::Fail,
    }
}

fn ext_in(s: &Vec<char>, lo: usize, hi: usize) -> (r: Option<Filename>)
    requires
        lo <= hi <= s@.len(),
    ensures
        ext_value(s@.subrange(lo as int, hi as int)) == (match r {
            Some(f) => Some(f@),
            None => None::<FilenameView>,
        }),
{
    let i = find_in(s, lo, hi, '\'');
    if i == hi {
        return None;
    }
    let j = find_in(s, i + 1, hi, '\'');
    proof {
        let v = s@.subrange(lo as int, hi as int);
        assert(v.subrange(i - lo + 1, v.len() as int) =~= s@.subrange(i + 1, hi as int));
    }
    if j == hi {
        return None;
    }
    let lang = string_in(s, i + 1, j);
    let value = string_in(s, j + 1, hi);
    proof {
        let rest = s@.subrange(i + 1, hi as int);
        assert(rest.subrange(0, j - (i + 1)) =~= s@.subrange(i + 1, j as int));
        assert(rest.subrange(j - (i + 1) + 1, rest.len() as int) =~= s@.subrange(j + 1, hi as int));
    }
    Some(Filename::Extended(Some(lang), value))
}

fn is_filename_param_in(s: &Vec<char>, lo: usize, hi: usize) -> (r: bool)
    requires
        lo <= hi <= s@.len(),
    ensures
        r == is_filename_param(s@.subrange(lo as int, hi as int)),
{
    if !(hi - lo == 8 || (hi - lo == 9 && s[lo + 8] == '*')) {
        return false;
    }
    let tok = vec!['f', 'i', 'l', 'e', 'n', 'a', 'm', 'e'];
    proof {
        assert(tok@ =~= tok_filename());
        assert(s@.subrange(lo as int, hi as int).subrange(0, 8) =~= s@.subrange(
            lo as int,
            lo + 8,
        ));
    }
    eq_ignore_case_in(s, lo, lo + 8, &tok)
}

fn attachment_step(s: &Vec<char>, lo: usize, hi: usize, f: Filename) -> (r: Step)
    requires
        lo <= hi <= s@.len(),
    ensures
        step_view(r) == attachment_param(s@.subrange(lo as int, hi as int), f@),
{
    let (nlo, nhi, vlo, vhi) = split_two_in(s, lo, hi, '=');
    if vhi == vlo {
        return Step::Next(None, f);
    }
    if !is_filename_param_in(s, nlo, nhi) {
        return Step::Fail;
    }
    let (qlo, qhi) = trim_char_in(s, vlo, vhi, '"');
    if find_in(s, nlo, nhi, '*') < nhi {
        match ext_in(s, qlo, qhi) {
            Some(e) => Step::Done(e),
            None => Step::Next(None, f),
        }
    } else {
        Step::Next(None, Filename::Name(Some(string_in(s, qlo, qhi))))
    }
}

fn form_step(s: &Vec<char>, lo: usize, hi: usize, n: Option<String>, f: Filename) -> (r: Step)
    requires
        lo <= hi <= s@.len(),
    ensures
        step_view(r) == form_param(s@.subrange(lo as int, hi as int), opt_view(n), f@),
        !(r is Done),
{
    let (nlo, nhi, vlo, vhi) = split_two_in(s, lo, hi, '=');
    if vhi == vlo {
        return Step::Next(n, f);
    }
    let tok = vec!['n', 'a', 'm', 'e'];
    proof {
        assert(tok@ =~= tok_name());
    }
    if eq_ignore_case_in(s, nlo, nhi, &tok) {
        let (qlo, qhi) = trim_char_in(s, vlo, vhi, '"');
        return Step::Next(Some(string_in(s, qlo, qhi)), f);
    }
    if !is_filename_param_in(s, nlo, nhi) {
        return Step::Fail;
    }
    let (qlo, qhi) = trim_char_in(s, vlo, vhi, '"');
    if find_in(s, nlo, nhi, '*') < nhi {
        match ext_in(s, qlo, qhi) {
            Some(e) => Step::Next(n, e),
            None => Step::Next(n, f),
        }
    } else if f.is_extended() {
        Step::Next(n, f)
    } else {
        Step::Next(n, Filename::Name(Some(string_in(s, qlo, qhi))))
    }
}

fn attachment_params_in(s: &Vec<char>, lo: usize, hi: usize) -> (r: Result<Filename, ParseError>)
    requires
        lo <= hi <= s@.len(),
    ensures
        attachment_params(s@.subrange(lo as int, hi as int), FilenameView::Name(None)) == (match r {
            Ok(f) => Ok(f@),
            Err(e) => Err(e),
        }),
{
    let mut f = Filename::Name(None);
    let mut pos = lo;
    loop
        invariant
            lo <= pos <= hi <= s@.len(),
            attachment_params(s@.subrange(lo as int, hi as int), FilenameView::Name(None))
                == attachment_params(s@.subrange(pos as int, hi as int), f@),
        decreases hi - pos,
    {
        let j = find_in(s, pos, hi, ';');
        let (plo, phi) = trim_in(s, pos, j);
        proof {
            let t = s@.subrange(pos as int, hi as int);
            assert(t.subrange(0, j - pos) =~= s@.subrange(pos as int, j as int));
            if j < hi {
                assert(t.subrange(j - pos + 1, t.len() as int) =~= s@.subrange(j + 1, hi as int));
            }
        }
        match attachment_step(s, plo, phi, f) {
            Step::Next(_, g) => {
                if j == hi {
                    return Ok(g);
                }
                f = g;
                pos = j + 1;
            },
            Step::Done(g) => {
                return Ok(g);
            },
            Step::Fail => {
                return Err(ParseError::UnknownAttachmentParam);
            },
        }
    }
}

fn form_params_in(s: &Vec<char>, lo: usize, hi: usize) -> (r: Result<ContentDisposition, ParseError>)
    requires
        lo <= hi <= s@.len(),
    ensures
        form_params(s@.subrange(lo as int, hi as int), None, FilenameView::Name(None))
            == parsed_view(r),
{
    let mut n: Option<String> = None;
    let mut f = Filename::Name(None);
    let mut pos = lo;
    loop
        invariant
            lo <= pos <= hi <= s@.len(),
            form_params(s@.subrange(lo as int, hi as int), None, FilenameView::Name(None))
                == form_params(s@.subrange(pos as int, hi as int), opt_view(n), f@),
        decreases hi - pos,
    {
        let j = find_in(s, pos, hi, ';');
        let (plo, phi) = trim_in(s, pos, j);
        proof {
            let t = s@.subrange(pos as int, hi as int);
            assert(t.subrange(0, j - pos) =~= s@.subrange(pos as int, j as int));
            if j < hi {
                assert(t.subrange(j - pos + 1, t.len() as int) =~= s@.subrange(j + 1, hi as int));
            }
        }
        match form_step(s, plo, phi, n, f) {
            Step::Next(m, g) => {
                if j == hi {
                    return Ok(ContentDisposition::FormData(m, g));
                }
                n = m;
                f = g;
                pos = j + 1;
            },
            Step::Done(g) => {
                return Err(ParseError::UnknownFormParam);
            },
            Step::Fail => {
                return Err(ParseError::UnknownFormParam);
            },
        }
    }
}

/// Text that `percent_encoding` decodes from a percent-encoded text, invalid
/// UTF-8 being replaced by U+FFFD.
pub uninterp spec fn percent_decoded(s: Seq<char>) -> Seq<char>;

/// Relies on `percent_encoding::percent_decode_str(..).decode_utf8_lossy()`.
#[verifier::external_body]
fn decode_percent(s: &str) -> (r: String)
    ensures
        r@ == percent_decoded(s@),
{
    percent_encoding::percent_decode_str(s).decode_utf8_lossy().into_owned()
}

/// The file name that a `Filename` stands for: a plain name as it is, an
/// extended one percent-decoded.
pub open spec fn filename_value(f: FilenameView) -> Option<Seq<char>> {
    match f {
        FilenameView::Name(n) => n,
        FilenameView::Extended(_, v) => Some(percent_decoded(v)),
    }
}

impl Filename {
    /// The file name, percent-decoded when extended.
    pub fn name(&self) -> (r: Option<String>)
        ensures
            opt_view(r) == filename_value(self@),
    {
        match self {
            Filename::Name(None) => None,
            Filename::Name(Some(n)) => Some(crate::headers::clone_string(n)),
            Filename::Extended(_, v) => Some(decode_percent(v.as_str())),
        }
    }

    /// The file name, percent-decoded when extended.
    pub fn into_name(self) -> (r: Option<String>)
        ensures
            opt_view(r) == filename_value(self@),
    {
        match self {
            Filename::Name(n) => n,
            Filename::Extended(_, v) => Some(decode_percent(v.as_str())),
        }
    }

    /// A plain file name without a value.
    pub fn new() -> (r: Self)
        ensures
            r@ == FilenameView::Name(None),
    {
        Filename::Name(None)
    }

    /// A plain file name.
    pub fn with_name(name: String) -> (r: Self)
        ensures
            r@ == FilenameView::Name(Some(name@)),
    {
        Filename::Name(Some(name))
    }

    /// An extended file name from a language tag and an already encoded value.
    pub fn with_extended(lang: Option<String>, name: String) -> (r: Self)
        ensures
            r@ == FilenameView::Extended(opt_view(lang), name@),
    {
        Filename::Extended(lang, name)
    }

    /// A plain name when `name` is ASCII, else an extended name holding its
    /// percent-encoded UTF-8 bytes.
    pub fn with_encoded_name(name: &str) -> (r: Self)
        ensures
            r@ == encoded_filename(name@, name.spec_bytes()),
    {
        if name.is_ascii() {
            Filename::Name(Some(name.to_owned()))
        } else {
            Filename::Extended(None, utf8_percent_encode(name, EncodeSet::HeaderValue))
        }
    }

    /// Whether the name is extended.
    pub fn is_extended(&self) -> (r: bool)
        ensures
            r == (self@ is Extended),
    {
        match self {
            Filename::Extended(_, _) => true,
            _ => false,
        }
    }
}

/// The file name made from a text: ASCII stays plain, anything else is
/// percent-encoded with the header-value set.
pub open spec fn encoded_filename(chars: Seq<char>, bytes: Seq<u8>) -> FilenameView {
    if vstd::utf8::is_ascii_chars(chars) {
        FilenameView::Name(Some(chars))
    } else {
        FilenameView::Extended(None, percent_encode(EncodeSet::HeaderValue, bytes))
    }
}

impl ContentDisposition {
    /// Parses a header value; type and parameter names ignore ASCII case.
    pub fn from_str(text: &str) -> (r: Result<ContentDisposition, ParseError>)
        ensures
            parsed_view(r) == parse_disposition(text@),
    {
        let s = chars_of(text);
        let (lo, hi) = trim_in(&s, 0, s.len());
        proof {
            assert(s@.subrange(0, s@.len() as int) =~= s@);
        }
        let (klo, khi, alo, ahi) = split_two_in(&s, lo, hi, ';');
        let inline = vec!['i', 'n', 'l', 'i', 'n', 'e'];
        let attachment = vec!['a', 't', 't', 'a', 'c', 'h', 'm', 'e', 'n', 't'];
        let form_data = vec!['f', 'o', 'r', 'm', '-', 'd', 'a', 't', 'a'];
        proof {
            assert(inline@ =~= tok_inline());
            assert(attachment@ =~= tok_attachment());
            assert(form_data@ =~= tok_form_data());
        }
        if eq_ignore_case_in(&s, klo, khi, &inline) {
            Ok(ContentDisposition::Inline)
        } else if eq_ignore_case_in(&s, klo, khi, &attachment) {
            match attachment_params_in(&s, alo, ahi) {
                Ok(f) => Ok(ContentDisposition::Attachment(f)),
                Err(e) => Err(e),
            }
        } else if eq_ignore_case_in(&s, klo, khi, &form_data) {
            form_params_in(&s, alo, ahi)
        } else {
            Err(ParseError::InvalidDispositionType)
        }
    }

    /// The header value that this disposition is written as.
    pub fn to_string(&self) -> (r: String)
        ensures
            r@ == disposition_text(self@),
    {
        let mut out: Vec<char> = Vec::new();
        match self {
            ContentDisposition::Inline => {
                push_str(&mut out, "inline");
            },
            ContentDisposition::Attachment(f) => {
                push_str(&mut out, "attachment");
                push_filename(&mut out, f);
            },
            ContentDisposition::FormData(None, f) => {
                push_str(&mut out, "form-data");
                push_filename(&mut out, f);
            },
            ContentDisposition::FormData(Some(n), f) => {
                push_str(&mut out, "form-data; name=\"");
                push_str(&mut out, n.as_str());
                push_str(&mut out, "\"");
                push_filename(&mut out, f);
            },
        }
        proof {
            assert(out@ =~= disposition_text(self@));
        }
        crate::text::string_of(out.as_slice())
    }
}

fn push_filename(out: &mut Vec<char>, f: &Filename)
    ensures
        final(out)@ == old(out)@ + filename_text(f@),
{
    match f {
        Filename::Name(Some(n)) => {
            push_str(out, "; filename=\"");
            push_str(out, n.as_str());
            push_str(out, "\"");
        },
        Filename::Name(None) => {},
        Filename::Extended(l, v) => {
            push_str(out, "; filename*=utf-8'");
            match l {
                Some(l) => push_str(out, l.as_str()),
                None => {},
            }
            push_str(out, "'");
            push_str(out, v.as_str());
        },
    }
    proof {
        assert(out@ =~= old(out)@ + filename_text(f@));
    }
}

proof fn lemma_trim_plain(s: Seq<char>)
    requires
        s.len() > 0,
        !crate::text::is_ws(s[0]),
        !crate::text::is_ws(s.last()),
    ensures
        trim(s) == s,
{
    assert(crate::text::trim_start(s) == s);
    assert(crate::text::trim_end(s) == s);
}

proof fn lemma_trim_quotes(f: Seq<char>)
    requires
        forall|i: int| 0 <= i < f.len() ==> f[i] != '"',
    ensures
        trim_char(seq!['"'] + f + seq!['"'], '"') == f,
{
    let s = seq!['"'] + f + seq!['"'];
    assert(s.drop_first() =~= f + seq!['"']);
    let t = f + seq!['"'];
    assert(trim_char(s, '"') == trim_char(t, '"'));
    if f.len() == 0 {
        assert(t =~= seq!['"']);
        assert(t.drop_first() =~= Seq::<char>::empty());
        assert(trim_char(t, '"') == trim_char(t.drop_first(), '"'));
        assert(f =~= Seq::<char>::empty());
    } else {
        assert(t[0] == f[0]);
        assert(t.last() == '"');
        assert(t.drop_last() =~= f);
        assert(trim_char(t, '"') == trim_char(f, '"'));
        assert(f.last() == f[f.len() - 1]);
        assert(trim_char(f, '"') == f);
    }
}

/// `filename="f"` as a parameter.
spec fn file_param(f: Seq<char>) -> Seq<char> {
    seq!['f', 'i', 'l', 'e', 'n', 'a', 'm', 'e', '='] + seq!['"'] + f + seq!['"']
}

/// `name="n"` as a parameter.
spec fn name_param(n: Seq<char>) -> Seq<char> {
    seq!['n', 'a', 'm', 'e', '='] + seq!['"'] + n + seq!['"']
}

proof fn lemma_quoted_no_semicolon(prefix: Seq<char>, f: Seq<char>)
    requires
        forall|i: int| 0 <= i < prefix.len() ==> prefix[i] != ';',
        forall|i: int| 0 <= i < f.len() ==> f[i] != ';',
    ensures
        find(prefix + seq!['"'] + f + seq!['"'], ';') is None,
{
    let p = prefix + seq!['"'] + f + seq!['"'];
    assert forall|k: int| 0 <= k < p.len() implies p[k] != ';' by {
        if k < prefix.len() {
            assert(p[k] == prefix[k]);
        } else if prefix.len() < k < p.len() - 1 {
            assert(p[k] == f[k - prefix.len() - 1]);
        }
    }
    crate::text::lemma_find(p, ';', p.len() as int);
}

proof fn lemma_file_param(f: Seq<char>, n: Option<Seq<char>>)
    requires
        forall|i: int| 0 <= i < f.len() ==> f[i] != '"' && f[i] != ';',
    ensures
        trim(file_param(f)) == file_param(f),
        find(file_param(f), ';') is None,
        attachment_param(file_param(f), FilenameView::Name(None)) == ParamStep::Next(
            None,
            FilenameView::Name(Some(f)),
        ),
        form_param(file_param(f), n, FilenameView::Name(None)) == ParamStep::Next(
            n,
            FilenameView::Name(Some(f)),
        ),
{
    let q = seq!['"'];
    let p = file_param(f);
    lemma_quoted_no_semicolon(seq!['f', 'i', 'l', 'e', 'n', 'a', 'm', 'e', '='], f);
    lemma_trim_plain(p);
    crate::text::lemma_find(p, '=', 8);
    let name = p.subrange(0, 8);
    assert(name =~= tok_filename());
    assert(crate::text::trim_end(name) == name);
    let value = p.subrange(9, p.len() as int);
    assert(value =~= q + f + q);
    assert(crate::text::trim_start(value) == value);
    assert(split_two(p, '=') == (name, value));
    assert(!eq_ignore_case(name, tok_name()));
    assert(name.subrange(0, 8) =~= name);
    assert(eq_ignore_case(name, tok_filename()));
    crate::text::lemma_find(name, '*', 8);
    lemma_trim_quotes(f);
}

proof fn lemma_name_param(n: Seq<char>)
    requires
        forall|i: int| 0 <= i < n.len() ==> n[i] != '"' && n[i] != ';',
    ensures
        trim(name_param(n)) == name_param(n),
        find(name_param(n), ';') is None,
        form_param(name_param(n), None, FilenameView::Name(None)) == ParamStep::Next(
            Some(n),
            FilenameView::Name(None),
        ),
{
    let q = seq!['"'];
    let p = name_param(n);
    lemma_quoted_no_semicolon(seq!['n', 'a', 'm', 'e', '='], n);
    lemma_trim_plain(p);
    crate::text::lemma_find(p, '=', 4);
    let name = p.subrange(0, 4);
    assert(name =~= tok_name());
    assert(crate::text::trim_end(name) == name);
    let value = p.subrange(5, p.len() as int);
    assert(value =~= q + n + q);
    assert(crate::text::trim_start(value) == value);
    assert(split_two(p, '=') == (name, value));
    assert(eq_ignore_case(name, tok_name()));
    lemma_trim_quotes(n);
}

/// Writing an attachment with a plain file name and parsing the text back
/// gives the same disposition, when the name holds no `"` and no `;`.
pub proof fn lemma_attachment_round_trip(f: Seq<char>)
    requires
        forall|i: int| 0 <= i < f.len() ==> f[i] != '"' && f[i] != ';',
    ensures
        parse_disposition(disposition_text(DispositionView::Attachment(FilenameView::Name(Some(f)))))
            == Ok::<DispositionView, ParseError>(
            DispositionView::Attachment(FilenameView::Name(Some(f))),
        ),
{
    reveal_strlit("attachment");
    reveal_strlit("; filename=\"");
    reveal_strlit("\"");
    let head = seq!['a', 't', 't', 'a', 'c', 'h', 'm', 'e', 'n', 't'];
    let param = file_param(f);
    let text = head + seq![';', ' '] + param;
    assert(disposition_text(DispositionView::Attachment(FilenameView::Name(Some(f)))) =~= text);
    lemma_trim_plain(text);
    crate::text::lemma_find(text, ';', 10);
    let kind = text.subrange(0, 10);
    assert(kind =~= head);
    assert(crate::text::trim_end(kind) == kind);
    let after = text.subrange(11, text.len() as int);
    assert(after =~= seq![' '] + param);
    assert(after.drop_first() =~= param);
    assert(crate::text::trim_start(param) == param);
    assert(crate::text::trim_start(after) == param);
    assert(split_two(text, ';') == (head, param));
    assert(!eq_ignore_case(head, tok_inline()));
    assert(eq_ignore_case(head, tok_attachment()));
    lemma_file_param(f, None);
}

proof fn lemma_form_text(n: Seq<char>, f: Seq<char>)
    ensures
        disposition_text(DispositionView::FormData(Some(n), FilenameView::Name(Some(f))))
            == seq!['f', 'o', 'r', 'm', '-', 'd', 'a', 't', 'a'] + seq![';', ' '] + (name_param(n)
            + seq![';', ' '] + file_param(f)),
{
    reveal_strlit("form-data; name=\"");
    reveal_strlit("; filename=\"");
    reveal_strlit("\"");
    assert(disposition_text(DispositionView::FormData(Some(n), FilenameView::Name(Some(f))))
        =~= seq!['f', 'o', 'r', 'm', '-', 'd', 'a', 't', 'a'] + seq![';', ' '] + (name_param(n)
        + seq![';', ' '] + file_param(f)));
}

proof fn lemma_form_head(args: Seq<char>)
    requires
        args.len() > 0,
        !crate::text::is_ws(args[0]),
        !crate::text::is_ws(args.last()),
    ensures
        parse_disposition(seq!['f', 'o', 'r', 'm', '-', 'd', 'a', 't', 'a'] + seq![';', ' '] + args)
            == form_params(args, None, FilenameView::Name(None)),
{
    let head = seq!['f', 'o', 'r', 'm', '-', 'd', 'a', 't', 'a'];
    let text = head + seq![';', ' '] + args;
    lemma_trim_plain(text);
    crate::text::lemma_find(text, ';', 9);
    let kind = text.subrange(0, 9);
    assert(kind =~= head);
    assert(crate::text::trim_end(kind) == kind);
    let after = text.subrange(10, text.len() as int);
    assert(after =~= seq![' '] + args);
    assert(after.drop_first() =~= args);
    assert(crate::text::trim_start(args) == args);
    assert(crate::text::trim_start(after) == args);
    assert(split_two(text, ';') == (head, args));
    assert(!eq_ignore_case(head, tok_inline()));
    assert(!eq_ignore_case(head, tok_attachment()));
    assert(eq_ignore_case(head, tok_form_data()));
}

proof fn lemma_form_params(n: Seq<char>, f: Seq<char>)
    requires
        forall|i: int| 0 <= i < n.len() ==> n[i] != '"' && n[i] != ';',
        forall|i: int| 0 <= i < f.len() ==> f[i] != '"' && f[i] != ';',
    ensures
        form_params(name_param(n) + seq![';', ' '] + file_param(f), None, FilenameView::Name(None))
            == Ok::<DispositionView, ParseError>(
            DispositionView::FormData(Some(n), FilenameView::Name(Some(f))),
        ),
{
    let name_text = name_param(n);
    let file_text = file_param(f);
    let args = name_text + seq![';', ' '] + file_text;
    lemma_name_param(n);
    lemma_file_param(f, Some(n));
    crate::text::lemma_find_first_after(name_text, seq![';', ' '] + file_text, ';');
    assert(args =~= name_text + (seq![';', ' '] + file_text));
    assert(find(seq![';', ' '] + file_text, ';') == Some(0int));
    assert(args.subrange(0, name_text.len() as int) =~= name_text);
    let rest = args.subrange(name_text.len() as int + 1, args.len() as int);
    assert(rest =~= seq![' '] + file_text);
    assert(rest.drop_first() =~= file_text);
    assert(crate::text::trim_start(rest) == file_text);
    assert(trim(rest) == file_text);
    assert(find(seq![' '], ';') is None) by {
        crate::text::lemma_find(seq![' '], ';', 1);
    }
    crate::text::lemma_find_first_after(seq![' '], file_text, ';');
    assert(form_params(rest, Some(n), FilenameView::Name(None)) == Ok::<
        DispositionView,
        ParseError,
    >(DispositionView::FormData(Some(n), FilenameView::Name(Some(f)))));
}

/// Writing a form field with a field name and a plain file name and parsing
/// the text back gives the same disposition, when neither name holds `"` or `;`.
pub proof fn lemma_form_data_round_trip(n: Seq<char>, f: Seq<char>)
    requires
        forall|i: int| 0 <= i < n.len() ==> n[i] != '"' && n[i] != ';',
        forall|i: int| 0 <= i < f.len() ==> f[i] != '"' && f[i] != ';',
    ensures
        parse_disposition(
            disposition_text(DispositionView::FormData(Some(n), FilenameView::Name(Some(f)))),
        ) == Ok::<DispositionView, ParseError>(
            DispositionView::FormData(Some(n), FilenameView::Name(Some(f))),
        ),
{
    let args = name_param(n) + seq![';', ' '] + file_param(f);
    lemma_form_text(n, f);
    assert(args[0] == 'n');
    assert(args.last() == '"');
    lemma_form_head(args);
    lemma_form_params(n, f);
}

} // verus!
