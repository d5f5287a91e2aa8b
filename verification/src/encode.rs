//! The streaming encoder's wire format.
//!
//! The body of a request is emitted as an ordered plan of chunks: literal
//! text to write on the wire, interleaved with markers naming which added
//! file's content is streamed at that point.  The specification functions
//! here define every formatted line of the RFC-2046-style body — boundary
//! delimiter lines, `Content-Disposition` headers, the blank-line header
//! terminator, CRLF endings — and the executable builders are proved to
//! produce exactly those character sequences.

use vstd::prelude::*;
use crate::fields::FieldModel;

verus! {

/// One boundary delimiter line: `--<boundary>` followed by CRLF.  The
/// closing delimiter after the last part is deliberately written
/// identically to the interior ones, without the trailing `--` that the
/// multipart standard prescribes for the final boundary; conforming
/// servers generally accept it, but interoperability-sensitive callers
/// should be aware of the gap.
pub open spec fn spec_boundary_line(bound: Seq<char>) -> Seq<char> {
    "--"@ + bound + "\r\n"@
}

/// The `Content-Disposition` header naming a part, with the field name
/// inserted verbatim (no escaping of embedded quotes).
pub open spec fn spec_disposition(name: Seq<char>) -> Seq<char> {
    "Content-Disposition: form-data; name=\""@ + name + "\""@
}

/// A text field's entire part: the disposition line, CRLF, the blank
/// line terminating the headers, then the value and one final CRLF.  No
/// `Content-Type` header is emitted for text parts.
pub open spec fn spec_text_part(name: Seq<char>, val: Seq<char>) -> Seq<char> {
    spec_disposition(name) + "\r\n\r\n"@ + val + "\r\n"@
}

/// The optional `; filename="<filename>"` fragment appended onto a file
/// part's disposition line; empty when no filename was captured.
pub open spec fn spec_filename_fragment(filename: Option<Seq<char>>) -> Seq<char> {
    match filename {
        Option::Some(f) => "; filename=\""@ + f + "\""@,
        Option::None => Seq::<char>::empty(),
    }
}

/// A file part's header text: the disposition line with the optional
/// filename fragment, CRLF, the `Content-Type` line, CRLF, and the blank
/// line terminating the headers.  The raw file content follows on the
/// wire, with no trailing CRLF before the next boundary line.
pub open spec fn spec_file_header(
    name: Seq<char>,
    filename: Option<Seq<char>>,
    content_type: Seq<char>,
) -> Seq<char> {
    spec_disposition(name) + spec_filename_fragment(filename) + "\r\n"@ + "Content-Type: "@
        + content_type + "\r\n\r\n"@
}

/// The value of the outer request's `Content-Type` header: subtype
/// `form-data` with the boundary token as its single parameter, verbatim.
pub open spec fn spec_multipart_mime(bound: Seq<char>) -> Seq<char> {
    "multipart/form-data; boundary="@ + bound
}

/// One step of the emission plan: literal text to write on the wire, or
/// the streamed content of the `k`-th added file.
pub enum BodyChunk {
    Text(String),
    File(usize),
}

/// Mathematical model of a plan step.
pub enum ChunkModel {
    Text(Seq<char>),
    File(int),
}

impl View for BodyChunk {
    type V = ChunkModel;

    open spec fn view(&self) -> ChunkModel {
        match self {
            BodyChunk::Text(s) => ChunkModel::Text(s@),
            BodyChunk::File(k) => ChunkModel::File(*k as int),
        }
    }
}

/// How many file markers one field contributes.
pub open spec fn spec_file_count(f: FieldModel) -> int {
    if f is File {
        1
    } else {
        0
    }
}

/// How many file markers a field sequence contributes.
pub open spec fn spec_total_files(fields: Seq<(Seq<char>, FieldModel)>) -> int
    decreases fields.len(),
{
    if fields.len() == 0 {
        0
    } else {
        spec_file_count(fields[0].1) + spec_total_files(fields.drop_first())
    }
}

/// The chunks one field contributes, `k` being the index of the next
/// file content to stream: its part's text, a file marker for file
/// fields, then the boundary delimiter that closes the part.
pub open spec fn spec_field_chunks(
    name: Seq<char>,
    f: FieldModel,
    bound: Seq<char>,
    k: int,
) -> Seq<ChunkModel> {
    match f {
        FieldModel::Text(v) => seq![
            ChunkModel::Text(spec_text_part(name, v)),
            ChunkModel::Text(spec_boundary_line(bound)),
        ],
        FieldModel::File { filename, content_type } => seq![
            ChunkModel::Text(spec_file_header(name, filename, content_type)),
            ChunkModel::File(k),
            ChunkModel::Text(spec_boundary_line(bound)),
        ],
    }
}

/// The chunks of a field sequence, in insertion order, with file markers
/// numbered from `k` on.
pub open spec fn spec_fields_chunks(
    fields: Seq<(Seq<char>, FieldModel)>,
    bound: Seq<char>,
    k: int,
) -> Seq<ChunkModel>
    decreases fields.len(),
{
    if fields.len() == 0 {
        Seq::<ChunkModel>::empty()
    } else {
        spec_field_chunks(fields[0].0, fields[0].1, bound, k) + spec_fields_chunks(
            fields.drop_first(),
            bound,
            k + spec_file_count(fields[0].1),
        )
    }
}

/// The whole emission plan of a collection: an opening boundary
/// delimiter, then each field's chunks in insertion order.  An empty
/// collection yields the closing delimiter line alone.
pub open spec fn spec_plan(fields: Seq<(Seq<char>, FieldModel)>, bound: Seq<char>) -> Seq<
    ChunkModel,
> {
    seq![ChunkModel::Text(spec_boundary_line(bound))] + spec_fields_chunks(fields, bound, 0)
}

/// Writes one boundary delimiter line.
pub fn boundary_line(bound: &str) -> (r: String)
    ensures
        r@ == spec_boundary_line(bound@),
{
    let mut s = String::from_str("--");
    s.append(bound);
    s.append("\r\n");
    s
}

/// Writes a part's `Content-Disposition` header, the name verbatim.
fn disposition(name: &str) -> (r: String)
    ensures
        r@ == spec_disposition(name@),
{
    let mut s = String::from_str("Content-Disposition: form-data; name=\"");
    s.append(name);
    s.append("\"");
    s
}

/// Writes a text field's entire part text.
pub fn text_part(name: &str, val: &str) -> (r: String)
    ensures
        r@ == spec_text_part(name@, val@),
{
    let mut s = disposition(name);
    s.append("\r\n\r\n");
    s.append(val);
    s.append("\r\n");
    s
}

/// Writes a file field's header text, up to and including the blank line
/// after which the raw file content follows.
pub fn file_header(name: &str, filename: &Option<String>, content_type: &str) -> (r: String)
    ensures
        r@ == spec_file_header(name@, filename.deep_view(), content_type@),
{
    let mut s = disposition(name);
    match filename {
        Option::Some(f) => {
            s.append("; filename=\"");
            s.append(f.as_str());
            s.append("\"");
        },
        Option::None => {},
    }
    s.append("\r\n");
    s.append("Content-Type: ");
    s.append(content_type);
    s.append("\r\n\r\n");
    proof {
        assert(s@ =~= spec_file_header(name@, filename.deep_view(), content_type@));
    }
    s
}

/// Builds the outer request's `Content-Type` header value, declaring the
/// boundary token verbatim (no quoting transformation).
pub fn multipart_mime(bound: &str) -> (r: String)
    ensures
        r@ == spec_multipart_mime(bound@),
{
    let mut s = String::from_str("multipart/form-data; boundary=");
    s.append(bound);
    s
}

} // verus!
