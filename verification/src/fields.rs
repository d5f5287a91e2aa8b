//! The field collector: an ordered sequence of named fields, text or
//! file, together with the boundary token generated at construction.

use vstd::prelude::*;
use crate::boundary::{is_lower_alnum_char, random_alphanumeric, BOUNDARY_LEN};
use crate::encode::{
    boundary_line, file_header, spec_field_chunks, spec_fields_chunks, spec_plan, text_part,
    BodyChunk, ChunkModel,
};
use crate::mime_type::{guess_mime_type, mime_guess_of};

verus! {

/// Metadata recorded for a file field: the display filename derived from
/// the file's path (absent when the path has no filename component) and
/// the inferred content type.  The file's bytes are never held here; they
/// are streamed by the caller at send time.
pub struct FileMetadata {
    pub filename: Option<String>,
    pub content_type: String,
}

/// A field's value: an owned text value, or the metadata of a file whose
/// content the caller streams later.
pub enum FieldValue {
    Text(String),
    File(FileMetadata),
}

/// Mathematical model of a field value.
pub enum FieldModel {
    Text(Seq<char>),
    File { filename: Option<Seq<char>>, content_type: Seq<char> },
}

impl View for FieldValue {
    type V = FieldModel;

    open spec fn view(&self) -> FieldModel {
        match self {
            FieldValue::Text(s) => FieldModel::Text(s@),
            FieldValue::File(m) => FieldModel::File {
                filename: m.filename.deep_view(),
                content_type: m.content_type@,
            },
        }
    }
}

/// Mathematical model of a field collection: the named fields in
/// insertion order, and the boundary token.
pub struct MultipartModel {
    pub fields: Seq<(Seq<char>, FieldModel)>,
    pub boundary: Seq<char>,
}

/// An ordered collection of named fields plus a boundary token, built up
/// by `add_text` and `add_file` and consumed by the encoder.
pub struct Multipart {
    fields: Vec<(String, FieldValue)>,
    boundary: String,
}

impl View for Multipart {
    type V = MultipartModel;

    closed spec fn view(&self) -> MultipartModel {
        MultipartModel {
            fields: self.fields@.map_values(|p: (String, FieldValue)| (p.0@, p.1@)),
            boundary: self.boundary@,
        }
    }
}

/// The index just past the last `/` of the path, or `0` when the path
/// holds no `/`.
pub open spec fn spec_basename_start(path: Seq<char>) -> int
    decreases path.len(),
{
    if path.len() == 0 {
        0
    } else if path[path.len() - 1] == '/' {
        path.len() as int
    } else {
        spec_basename_start(path.drop_last())
    }
}

/// The filename component of a `/`-separated path: the text after the
/// last `/`, absent when that text is empty (an empty path, or one ending
/// in `/`).
pub open spec fn spec_filename_of(path: Seq<char>) -> Option<Seq<char>> {
    if spec_basename_start(path) == path.len() as int {
        Option::None
    } else {
        Option::Some(path.subrange(spec_basename_start(path), path.len() as int))
    }
}

proof fn lemma_basename_start_bounds(path: Seq<char>)
    ensures
        0 <= spec_basename_start(path) <= path.len(),
    decreases path.len(),
{
    if path.len() > 0 && path[path.len() - 1] != '/' {
        lemma_basename_start_bounds(path.drop_last());
    }
}

/// Derives the display filename from a path, as the text after its last
/// `/`; `None` when that text is empty.
pub fn filename_of(path: &str) -> (r: Option<String>)
    ensures
        r.deep_view() == spec_filename_of(path@),
{
    let n = path.unicode_len();
    let mut i: usize = n;
    proof {
        assert(path@.take(n as int) =~= path@);
    }
    while i > 0 && path.get_char(i - 1) != '/'
        invariant
            i <= n,
            n as int == path@.len(),
            spec_basename_start(path@) == spec_basename_start(path@.take(i as int)),
        decreases i,
    {
        proof {
            assert(path@.take(i as int).drop_last() =~= path@.take(i as int - 1));
        }
        i -= 1;
    }
    proof {
        if i == 0 {
            assert(path@.take(0) =~= Seq::<char>::empty());
        }
        assert(spec_basename_start(path@) == i as int);
        lemma_basename_start_bounds(path@);
    }
    if i == n {
        Option::None
    } else {
        let name = path.substring_char(i, n);
        Option::Some(name.to_owned())
    }
}

impl Multipart {
    /// A new, empty collection with a freshly generated boundary token:
    /// eight lowercase alphanumeric characters from the process random
    /// source.
    pub fn new() -> (r: Multipart)
        ensures
            r@.fields == Seq::<(Seq<char>, FieldModel)>::empty(),
            r@.boundary.len() == 8,
            forall|i: int| 0 <= i < r@.boundary.len() ==> is_lower_alnum_char(#[trigger] r@.boundary[i]),
    {
        let r = Multipart { fields: Vec::new(), boundary: random_alphanumeric(BOUNDARY_LEN) };
        proof {
            assert(r@.fields =~= Seq::<(Seq<char>, FieldModel)>::empty());
        }
        r
    }

    /// Appends a text field.  The name and value are recorded verbatim;
    /// duplicates are legal and produce duplicate parts.
    pub fn add_text(&mut self, name: &str, val: &str)
        ensures
            final(self)@.fields == old(self)@.fields.push((name@, FieldModel::Text(val@))),
            final(self)@.boundary == old(self)@.boundary,
    {
        self.fields.push((name.to_owned(), FieldValue::Text(val.to_owned())));
        proof {
            assert(self@.fields =~= old(self)@.fields.push((name@, FieldModel::Text(val@))));
        }
    }

    /// Appends a file field.  The display filename is derived from the
    /// path (absent when the path has no filename component) and the
    /// content type is inferred from the path by the external lookup.
    /// The file's content is not read here; it is streamed at send time.
    pub fn add_file(&mut self, name: &str, path: &str)
        ensures
            final(self)@.fields == old(self)@.fields.push(
                (
                    name@,
                    FieldModel::File {
                        filename: spec_filename_of(path@),
                        content_type: mime_guess_of(path@),
                    },
                ),
            ),
            final(self)@.boundary == old(self)@.boundary,
    {
        let filename = filename_of(path);
        let content_type = guess_mime_type(path);
        self.fields.push((name.to_owned(), FieldValue::File(FileMetadata { filename, content_type })));
        proof {
            assert(self@.fields =~= old(self)@.fields.push(
                (
                    name@,
                    FieldModel::File {
                        filename: spec_filename_of(path@),
                        content_type: mime_guess_of(path@),
                    },
                ),
            ));
        }
    }

    /// The boundary token generated at construction.
    pub fn boundary(&self) -> (r: &str)
        ensures
            r@ == self@.boundary,
    {
        self.boundary.as_str()
    }

    /// Consumes the collection and lays out the entire body as an ordered
    /// emission plan: an opening boundary delimiter, then for each field
    /// in insertion order its part text — with a marker in place of each
    /// file's streamed content — each part closed by a boundary delimiter.
    /// The last delimiter doubles as the closing line of the body.
    pub fn body_chunks(self) -> (r: Vec<BodyChunk>)
        ensures
            r@.map_values(|c: BodyChunk| c@) == spec_plan(self@.fields, self@.boundary),
    {
        let ghost m = self@;
        let Multipart { fields, boundary } = self;
        let mut out: Vec<BodyChunk> = Vec::new();
        out.push(BodyChunk::Text(boundary_line(boundary.as_str())));
        proof {
            assert(out@.map_values(|c: BodyChunk| c@) =~= seq![
                ChunkModel::Text(crate::encode::spec_boundary_line(m.boundary)),
            ]);
            assert(m.fields.skip(0) =~= m.fields);
        }
        let mut i: usize = 0;
        let mut k: usize = 0;
        while i < fields.len()
            invariant
                i <= fields.len(),
                k <= i,
                m.fields == fields@.map_values(|p: (String, FieldValue)| (p.0@, p.1@)),
                m.fields.len() == fields@.len(),
                m.boundary == boundary@,
                out@.map_values(|c: BodyChunk| c@) + spec_fields_chunks(
                    m.fields.skip(i as int),
                    m.boundary,
                    k as int,
                ) == spec_plan(m.fields, m.boundary),
            decreases fields.len() - i,
        {
            let ghost out_pre = out@.map_values(|c: BodyChunk| c@);
            let ghost rest = m.fields.skip(i as int);
            let ghost k0 = k as int;
            proof {
                assert(rest[0] == m.fields[i as int]);
                assert(rest.drop_first() =~= m.fields.skip(i as int + 1));
                assert(m.fields[i as int] == (fields@[i as int].0@, fields@[i as int].1@));
            }
            let (name, value) = &fields[i];
            match value {
                FieldValue::Text(v) => {
                    out.push(BodyChunk::Text(text_part(name.as_str(), v.as_str())));
                    out.push(BodyChunk::Text(boundary_line(boundary.as_str())));
                },
                FieldValue::File(meta) => {
                    out.push(
                        BodyChunk::Text(
                            file_header(name.as_str(), &meta.filename, meta.content_type.as_str()),
                        ),
                    );
                    out.push(BodyChunk::File(k));
                    out.push(BodyChunk::Text(boundary_line(boundary.as_str())));
                    k += 1;
                },
            }
            proof {
                assert(out@.map_values(|c: BodyChunk| c@) =~= out_pre + spec_field_chunks(
                    rest[0].0,
                    rest[0].1,
                    m.boundary,
                    k0,
                ));
                assert(out@.map_values(|c: BodyChunk| c@) + spec_fields_chunks(
                    m.fields.skip(i as int + 1),
                    m.boundary,
                    k as int,
                ) =~= spec_plan(m.fields, m.boundary));
            }
            i += 1;
        }
        proof {
            assert(m.fields.skip(i as int) =~= Seq::<(Seq<char>, FieldModel)>::empty());
            assert(out@.map_values(|c: BodyChunk| c@) + Seq::<ChunkModel>::empty() =~= out@
                .map_values(|c: BodyChunk| c@));
        }
        out
    }
}

} // verus!
