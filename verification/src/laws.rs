//! Laws of the emission plan, proved once and for all collections: how
//! many boundary delimiter lines a plan holds, that parts come out in
//! insertion order, the exact shape of text and file parts, and that the
//! boundary token of the outer header is the token of every delimiter
//! line in the body.

use vstd::prelude::*;
use crate::encode::{
    spec_boundary_line, spec_disposition, spec_field_chunks, spec_fields_chunks, spec_file_count,
    spec_file_header, spec_multipart_mime, spec_plan, spec_text_part,
    spec_total_files, ChunkModel,
};
use crate::fields::FieldModel;

verus! {

/// How many boundary delimiter chunks a plan holds.
pub open spec fn spec_delimiter_count(chunks: Seq<ChunkModel>, bound: Seq<char>) -> int
    decreases chunks.len(),
{
    if chunks.len() == 0 {
        0
    } else {
        (if chunks[0] == ChunkModel::Text(spec_boundary_line(bound)) {
            1int
        } else {
            0int
        }) + spec_delimiter_count(chunks.drop_first(), bound)
    }
}

/// How many part-text chunks a plan holds: the text chunks that are not
/// boundary delimiter lines, one per part (a text part's whole text, or
/// a file part's header text).
pub open spec fn spec_part_count(chunks: Seq<ChunkModel>, bound: Seq<char>) -> int
    decreases chunks.len(),
{
    if chunks.len() == 0 {
        0
    } else {
        (if chunks[0] is Text && chunks[0] != ChunkModel::Text(spec_boundary_line(bound)) {
            1int
        } else {
            0int
        }) + spec_part_count(chunks.drop_first(), bound)
    }
}

/// A plan chunk is either a boundary delimiter line, a file marker, or
/// part text beginning with `C` (a `Content-Disposition` header).
pub open spec fn spec_chunk_shape(c: ChunkModel, bound: Seq<char>) -> bool {
    match c {
        ChunkModel::Text(t) => t == spec_boundary_line(bound) || (t.len() > 0 && t[0] == 'C'),
        ChunkModel::File(_) => true,
    }
}

proof fn lemma_delimiter_count_concat(s1: Seq<ChunkModel>, s2: Seq<ChunkModel>, bound: Seq<char>)
    ensures
        spec_delimiter_count(s1 + s2, bound) == spec_delimiter_count(s1, bound)
            + spec_delimiter_count(s2, bound),
    decreases s1.len(),
{
    if s1.len() == 0 {
        assert(s1 + s2 =~= s2);
    } else {
        assert((s1 + s2).drop_first() =~= s1.drop_first() + s2);
        assert((s1 + s2)[0] == s1[0]);
        lemma_delimiter_count_concat(s1.drop_first(), s2, bound);
    }
}

proof fn lemma_part_count_concat(s1: Seq<ChunkModel>, s2: Seq<ChunkModel>, bound: Seq<char>)
    ensures
        spec_part_count(s1 + s2, bound) == spec_part_count(s1, bound) + spec_part_count(
            s2,
            bound,
        ),
    decreases s1.len(),
{
    if s1.len() == 0 {
        assert(s1 + s2 =~= s2);
    } else {
        assert((s1 + s2).drop_first() =~= s1.drop_first() + s2);
        assert((s1 + s2)[0] == s1[0]);
        lemma_part_count_concat(s1.drop_first(), s2, bound);
    }
}

proof fn lemma_disposition_first(name: Seq<char>)
    ensures
        spec_disposition(name).len() > 0,
        spec_disposition(name)[0] == 'C',
{
    reveal_strlit("Content-Disposition: form-data; name=\"");
}

proof fn lemma_boundary_line_first(bound: Seq<char>)
    ensures
        spec_boundary_line(bound).len() == 4 + bound.len(),
        spec_boundary_line(bound)[0] == '-',
{
    reveal_strlit("--");
    reveal_strlit("\r\n");
}

proof fn lemma_parts_not_delimiters(name: Seq<char>, f: FieldModel, bound: Seq<char>)
    ensures
        f matches FieldModel::Text(v) ==> spec_text_part(name, v) != spec_boundary_line(bound),
        f matches FieldModel::File { filename, content_type } ==> spec_file_header(
            name,
            filename,
            content_type,
        ) != spec_boundary_line(bound),
{
    lemma_disposition_first(name);
    lemma_boundary_line_first(bound);
    match f {
        FieldModel::Text(v) => {
            assert(spec_text_part(name, v)[0] == 'C');
        },
        FieldModel::File { filename, content_type } => {
            assert(spec_file_header(name, filename, content_type)[0] == 'C');
        },
    }
}

proof fn lemma_field_chunks_count(name: Seq<char>, f: FieldModel, bound: Seq<char>, k: int)
    ensures
        spec_delimiter_count(spec_field_chunks(name, f, bound, k), bound) == 1,
        spec_part_count(spec_field_chunks(name, f, bound, k), bound) == 1,
{
    lemma_parts_not_delimiters(name, f, bound);
    let bl = ChunkModel::Text(spec_boundary_line(bound));
    let fc = spec_field_chunks(name, f, bound, k);
    assert(spec_delimiter_count(Seq::<ChunkModel>::empty(), bound) == 0);
    assert(spec_part_count(Seq::<ChunkModel>::empty(), bound) == 0);
    assert(seq![bl].drop_first() =~= Seq::<ChunkModel>::empty());
    assert(spec_delimiter_count(seq![bl], bound) == 1);
    assert(spec_part_count(seq![bl], bound) == 0);
    match f {
        FieldModel::Text(v) => {
            assert(fc.drop_first() =~= seq![bl]);
            assert(spec_delimiter_count(fc, bound) == 1);
            assert(spec_part_count(fc, bound) == 1);
        },
        FieldModel::File { filename, content_type } => {
            assert(fc.drop_first() =~= seq![ChunkModel::File(k), bl]);
            assert(seq![ChunkModel::File(k), bl].drop_first() =~= seq![bl]);
            assert(spec_delimiter_count(seq![ChunkModel::File(k), bl], bound) == 1);
            assert(spec_part_count(seq![ChunkModel::File(k), bl], bound) == 0);
            assert(spec_delimiter_count(fc, bound) == 1);
            assert(spec_part_count(fc, bound) == 1);
        },
    }
}

proof fn lemma_fields_chunks_count(
    fields: Seq<(Seq<char>, FieldModel)>,
    bound: Seq<char>,
    k: int,
)
    ensures
        spec_delimiter_count(spec_fields_chunks(fields, bound, k), bound) == fields.len(),
        spec_part_count(spec_fields_chunks(fields, bound, k), bound) == fields.len(),
    decreases fields.len(),
{
    if fields.len() > 0 {
        let fc = spec_field_chunks(fields[0].0, fields[0].1, bound, k);
        let rest = spec_fields_chunks(
            fields.drop_first(),
            bound,
            k + spec_file_count(fields[0].1),
        );
        lemma_field_chunks_count(fields[0].0, fields[0].1, bound, k);
        lemma_delimiter_count_concat(fc, rest, bound);
        lemma_part_count_concat(fc, rest, bound);
        lemma_fields_chunks_count(fields.drop_first(), bound, k + spec_file_count(fields[0].1));
    }
}

proof fn lemma_fields_chunks_last(fields: Seq<(Seq<char>, FieldModel)>, bound: Seq<char>, k: int)
    ensures
        fields.len() > 0 ==> spec_fields_chunks(fields, bound, k).len() > 0
            && spec_fields_chunks(fields, bound, k).last() == ChunkModel::Text(
            spec_boundary_line(bound),
        ),
    decreases fields.len(),
{
    if fields.len() > 0 {
        let fc = spec_field_chunks(fields[0].0, fields[0].1, bound, k);
        let rest = spec_fields_chunks(
            fields.drop_first(),
            bound,
            k + spec_file_count(fields[0].1),
        );
        lemma_fields_chunks_last(fields.drop_first(), bound, k + spec_file_count(fields[0].1));
        if fields.len() == 1 {
            assert(fields.drop_first().len() == 0);
            assert(rest =~= Seq::<ChunkModel>::empty());
            assert((fc + rest).last() == fc.last());
        } else {
            assert((fc + rest).last() == rest.last());
        }
    }
}

/// Law: for any sequence of added fields, the plan holds exactly one
/// part-text chunk per added field, framed by exactly `n + 1` boundary
/// delimiter chunks — one before each part and one closing delimiter
/// after the last — and the plan opens and closes with a delimiter.
pub proof fn lemma_part_count(fields: Seq<(Seq<char>, FieldModel)>, bound: Seq<char>)
    ensures
        spec_part_count(spec_plan(fields, bound), bound) == fields.len(),
        spec_delimiter_count(spec_plan(fields, bound), bound) == fields.len() + 1,
        spec_plan(fields, bound).len() > 0,
        spec_plan(fields, bound).first() == ChunkModel::Text(spec_boundary_line(bound)),
        spec_plan(fields, bound).last() == ChunkModel::Text(spec_boundary_line(bound)),
{
    let bl = ChunkModel::Text(spec_boundary_line(bound));
    let head = seq![bl];
    let body = spec_fields_chunks(fields, bound, 0);
    lemma_delimiter_count_concat(head, body, bound);
    lemma_part_count_concat(head, body, bound);
    assert(head.drop_first() =~= Seq::<ChunkModel>::empty());
    assert(spec_delimiter_count(Seq::<ChunkModel>::empty(), bound) == 0);
    assert(spec_part_count(Seq::<ChunkModel>::empty(), bound) == 0);
    assert(spec_delimiter_count(head, bound) == 1);
    assert(spec_part_count(head, bound) == 0);
    lemma_fields_chunks_count(fields, bound, 0);
    assert(spec_plan(fields, bound)[0] == bl);
    lemma_fields_chunks_last(fields, bound, 0);
    if fields.len() == 0 {
        assert(body =~= Seq::<ChunkModel>::empty());
        assert(spec_plan(fields, bound).last() == bl);
    } else {
        assert(spec_plan(fields, bound).last() == body.last());
    }
}

/// Law: field order in the encoded body matches insertion order exactly:
/// the chunks of a concatenation of field sequences are the chunks of the
/// first followed by the chunks of the second, with the second's file
/// markers numbered after all of the first's files.
pub proof fn lemma_emission_order(
    s1: Seq<(Seq<char>, FieldModel)>,
    s2: Seq<(Seq<char>, FieldModel)>,
    bound: Seq<char>,
    k: int,
)
    ensures
        spec_fields_chunks(s1 + s2, bound, k) == spec_fields_chunks(s1, bound, k)
            + spec_fields_chunks(s2, bound, k + spec_total_files(s1)),
    decreases s1.len(),
{
    if s1.len() == 0 {
        assert(s1 + s2 =~= s2);
        assert(spec_fields_chunks(s1, bound, k) + spec_fields_chunks(s2, bound, k)
            =~= spec_fields_chunks(s2, bound, k));
    } else {
        let c0 = spec_file_count(s1[0].1);
        assert((s1 + s2)[0] == s1[0]);
        assert((s1 + s2).drop_first() =~= s1.drop_first() + s2);
        lemma_emission_order(s1.drop_first(), s2, bound, k + c0);
        assert(spec_field_chunks(s1[0].0, s1[0].1, bound, k) + (spec_fields_chunks(
            s1.drop_first(),
            bound,
            k + c0,
        ) + spec_fields_chunks(s2, bound, k + c0 + spec_total_files(s1.drop_first())))
            =~= spec_fields_chunks(s1, bound, k) + spec_fields_chunks(
            s2,
            bound,
            k + spec_total_files(s1),
        ));
    }
}

/// Law: a text field's part is the `Content-Disposition` line naming the
/// field, the blank line terminating the headers, then the value `V`
/// followed by a single CRLF; the text after the header terminator is
/// exactly `V` plus CRLF, and no `Content-Type` line is emitted.
pub proof fn lemma_text_part_shape(name: Seq<char>, val: Seq<char>)
    ensures
        spec_text_part(name, val) == spec_disposition(name) + "\r\n\r\n"@ + val + "\r\n"@,
        spec_text_part(name, val).len() == spec_disposition(name).len() + 4 + val.len() + 2,
        spec_text_part(name, val).subrange(
            spec_disposition(name).len() as int + 4,
            spec_text_part(name, val).len() as int,
        ) == val + "\r\n"@,
{
    reveal_strlit("\r\n\r\n");
    reveal_strlit("\r\n");
    assert(spec_text_part(name, val).subrange(
        spec_disposition(name).len() as int + 4,
        spec_text_part(name, val).len() as int,
    ) =~= val + "\r\n"@);
}

/// Law: a file field's header text carries `; filename="<F>"` on the
/// disposition line exactly when a filename `F` was captured — it is
/// omitted entirely otherwise — and always carries a `Content-Type: <T>`
/// line for the inferred type `T`, before the blank header terminator.
pub proof fn lemma_file_header_shape(
    name: Seq<char>,
    filename: Option<Seq<char>>,
    content_type: Seq<char>,
)
    ensures
        filename matches Option::Some(f) ==> spec_file_header(name, filename, content_type)
            == spec_disposition(name) + "; filename=\""@ + f + "\""@ + "\r\n"@
            + "Content-Type: "@ + content_type + "\r\n\r\n"@,
        filename is None ==> spec_file_header(name, filename, content_type) == spec_disposition(
            name,
        ) + "\r\n"@ + "Content-Type: "@ + content_type + "\r\n\r\n"@,
{
    match filename {
        Option::Some(f) => {
            assert(spec_file_header(name, filename, content_type) =~= spec_disposition(name)
                + "; filename=\""@ + f + "\""@ + "\r\n"@ + "Content-Type: "@ + content_type
                + "\r\n\r\n"@);
        },
        Option::None => {
            assert(spec_file_header(name, filename, content_type) =~= spec_disposition(name)
                + "\r\n"@ + "Content-Type: "@ + content_type + "\r\n\r\n"@);
        },
    }
}

proof fn lemma_fields_chunks_shape(fields: Seq<(Seq<char>, FieldModel)>, bound: Seq<char>, k: int)
    ensures
        forall|i: int| 0 <= i < spec_fields_chunks(fields, bound, k).len()
            ==> spec_chunk_shape(#[trigger] spec_fields_chunks(fields, bound, k)[i], bound),
    decreases fields.len(),
{
    if fields.len() > 0 {
        let fc = spec_field_chunks(fields[0].0, fields[0].1, bound, k);
        let rest = spec_fields_chunks(
            fields.drop_first(),
            bound,
            k + spec_file_count(fields[0].1),
        );
        lemma_disposition_first(fields[0].0);
        lemma_fields_chunks_shape(fields.drop_first(), bound, k + spec_file_count(fields[0].1));
        assert forall|i: int| 0 <= i < (fc + rest).len() implies spec_chunk_shape(
            #[trigger] (fc + rest)[i],
            bound,
        ) by {
            if i < fc.len() {
                assert((fc + rest)[i] == fc[i]);
                match fields[0].1 {
                    FieldModel::Text(v) => {
                        assert(spec_text_part(fields[0].0, v)[0] == 'C');
                    },
                    FieldModel::File { filename, content_type } => {
                        assert(spec_file_header(fields[0].0, filename, content_type)[0] == 'C');
                    },
                }
            } else {
                assert((fc + rest)[i] == rest[i - fc.len()]);
            }
        }
    }
}

/// Law: the boundary token declared in the outer `Content-Type` header is
/// exactly the token written in every `--<boundary>` delimiter line of
/// the body: the header value ends with the token, each delimiter chunk
/// is `--<token>` plus CRLF with the same token, and every other text
/// chunk of the plan begins with `C`, never with `-`.
pub proof fn lemma_boundary_consistency(fields: Seq<(Seq<char>, FieldModel)>, bound: Seq<char>)
    ensures
        spec_multipart_mime(bound).len() == 30 + bound.len(),
        spec_multipart_mime(bound).subrange(30, spec_multipart_mime(bound).len() as int) == bound,
        spec_boundary_line(bound).len() == 4 + bound.len(),
        spec_boundary_line(bound).subrange(2, 2 + bound.len() as int) == bound,
        forall|i: int| 0 <= i < spec_plan(fields, bound).len()
            ==> spec_chunk_shape(#[trigger] spec_plan(fields, bound)[i], bound),
{
    reveal_strlit("multipart/form-data; boundary=");
    reveal_strlit("--");
    reveal_strlit("\r\n");
    assert(spec_multipart_mime(bound).subrange(30, spec_multipart_mime(bound).len() as int)
        =~= bound);
    assert(spec_boundary_line(bound).subrange(2, 2 + bound.len() as int) =~= bound);
    let head = seq![ChunkModel::Text(spec_boundary_line(bound))];
    let body = spec_fields_chunks(fields, bound, 0);
    lemma_fields_chunks_shape(fields, bound, 0);
    assert forall|i: int| 0 <= i < spec_plan(fields, bound).len() implies spec_chunk_shape(
        #[trigger] spec_plan(fields, bound)[i],
        bound,
    ) by {
        if i == 0 {
            assert(spec_plan(fields, bound)[0] == head[0]);
        } else {
            assert(spec_plan(fields, bound)[i] == body[i - 1]);
        }
    }
}

} // verus!
