//! The callback wire format: `multipart/form-data`. A success callback
//! carries the presigned URL under `file` and the job's key prefix; a
//! failure callback carries the error text under `error`. The body framing
//! is verified byte for byte, and the boundary is chosen longer than every
//! field, so it cannot occur inside one.

use vstd::prelude::*;
use crate::bytes::{ascii_seq, copy_bytes, lit_bytes, push_ascii, push_bytes};
use crate::assets::{leading_token_is, lower_seq, param_from, param_of_parts, split_parts, trim};
use crate::pipeline::CallbackBody;

verus! {

/// A carriage return and a line feed.
pub open spec fn crlf() -> Seq<u8> {
    seq!['\r' as u8, '\n' as u8]
}

/// One form field: the dashed boundary, the disposition naming the field,
/// an empty line, the value.
pub open spec fn part_spec(boundary: Seq<u8>, name: Seq<u8>, value: Seq<u8>) -> Seq<u8> {
    ascii_seq("--"@) + boundary + crlf() + ascii_seq("Content-Disposition: form-data; name=\""@)
        + name + ascii_seq("\""@) + crlf() + crlf() + value + crlf()
}

/// The form fields, framed one after the other.
pub open spec fn parts_spec(boundary: Seq<u8>, fields: Seq<(Seq<u8>, Seq<u8>)>) -> Seq<u8>
    decreases fields.len(),
{
    if fields.len() == 0 {
        Seq::empty()
    } else {
        part_spec(boundary, fields[0].0, fields[0].1) + parts_spec(boundary, fields.drop_first())
    }
}

/// A whole `multipart/form-data` body: every field, then the closing
/// dashed boundary.
pub open spec fn multipart_body_spec(boundary: Seq<u8>, fields: Seq<(Seq<u8>, Seq<u8>)>) -> Seq<
    u8,
> {
    parts_spec(boundary, fields) + ascii_seq("--"@) + boundary + ascii_seq("--"@) + crlf()
}

/// The contents of a list of form fields.
pub open spec fn field_views(fields: Seq<(Vec<u8>, Vec<u8>)>) -> Seq<(Seq<u8>, Seq<u8>)> {
    fields.map_values(|f: (Vec<u8>, Vec<u8>)| (f.0@, f.1@))
}

/// Whether `pat` occurs as a contiguous run inside `s`.
pub open spec fn contains_seq(s: Seq<u8>, pat: Seq<u8>) -> bool {
    exists|k: int|
        0 <= k && k + pat.len() <= s.len() && #[trigger] s.subrange(k, k + pat.len()) == pat
}

proof fn lemma_parts_snoc(boundary: Seq<u8>, fields: Seq<(Seq<u8>, Seq<u8>)>, f: (Seq<u8>, Seq<u8>))
    ensures
        parts_spec(boundary, fields.push(f)) == parts_spec(boundary, fields) + part_spec(
            boundary,
            f.0,
            f.1,
        ),
    decreases fields.len(),
{
    if fields.len() == 0 {
        assert(fields.push(f)[0] == f);
        assert(fields.push(f).drop_first() =~~= Seq::<(Seq<u8>, Seq<u8>)>::empty());
        assert(parts_spec(boundary, fields.push(f)) == part_spec(boundary, f.0, f.1)
            + parts_spec(boundary, fields.push(f).drop_first()));
        assert(parts_spec(boundary, fields.push(f).drop_first()) == Seq::<u8>::empty());
        assert(parts_spec(boundary, fields) == Seq::<u8>::empty());
        assert(Seq::<u8>::empty() + part_spec(boundary, f.0, f.1) =~= part_spec(
            boundary,
            f.0,
            f.1,
        ));
        assert(part_spec(boundary, f.0, f.1) + Seq::<u8>::empty() =~= part_spec(
            boundary,
            f.0,
            f.1,
        ));
    } else {
        assert(fields.push(f).drop_first() =~~= fields.drop_first().push(f));
        lemma_parts_snoc(boundary, fields.drop_first(), f);
        assert(fields.push(f)[0] == fields[0]);
        assert(parts_spec(boundary, fields.push(f)) == part_spec(
            boundary,
            fields[0].0,
            fields[0].1,
        ) + parts_spec(boundary, fields.push(f).drop_first()));
        assert(parts_spec(boundary, fields.push(f).drop_first()) == parts_spec(
            boundary,
            fields.drop_first().push(f),
        ));
        assert(parts_spec(boundary, fields) == part_spec(boundary, fields[0].0, fields[0].1)
            + parts_spec(boundary, fields.drop_first()));
        assert(part_spec(boundary, fields[0].0, fields[0].1) + (parts_spec(
            boundary,
            fields.drop_first(),
        ) + part_spec(boundary, f.0, f.1)) =~= (part_spec(boundary, fields[0].0, fields[0].1)
            + parts_spec(boundary, fields.drop_first())) + part_spec(boundary, f.0, f.1));
    }
}

/// Appends a carriage return and a line feed.
fn push_crlf(out: &mut Vec<u8>)
    ensures
        final(out)@ == old(out)@ + crlf(),
{
    out.push('\r' as u8);
    out.push('\n' as u8);
    proof {
        assert(out@ =~= old(out)@ + crlf());
    }
}

/// Builds a whole `multipart/form-data` body over the given boundary.
pub fn multipart_body(boundary: &[u8], fields: &Vec<(Vec<u8>, Vec<u8>)>) -> (r: Vec<u8>)
    ensures
        r@ == multipart_body_spec(boundary@, field_views(fields@)),
{
    proof {
        reveal_strlit("--");
        reveal_strlit("Content-Disposition: form-data; name=\"");
        reveal_strlit("\"");
    }
    let ghost fv = field_views(fields@);
    let mut out: Vec<u8> = Vec::new();
    let n = fields.len();
    let mut i: usize = 0;
    proof {
        assert(fv.subrange(0, 0) =~~= Seq::<(Seq<u8>, Seq<u8>)>::empty());
        assert(out@ =~= parts_spec(boundary@, fv.subrange(0, 0)));
    }
    while i < n
        invariant
            0 <= i <= n,
            n == fields@.len(),
            fv == field_views(fields@),
            out@ == parts_spec(boundary@, fv.subrange(0, i as int)),
        decreases n - i,
    {
        proof {
            reveal_strlit("--");
            reveal_strlit("Content-Disposition: form-data; name=\"");
            reveal_strlit("\"");
        }
        let ghost before = out@;
        push_ascii(&mut out, "--");
        push_bytes(&mut out, boundary);
        push_crlf(&mut out);
        push_ascii(&mut out, "Content-Disposition: form-data; name=\"");
        push_bytes(&mut out, fields[i].0.as_slice());
        push_ascii(&mut out, "\"");
        push_crlf(&mut out);
        push_crlf(&mut out);
        push_bytes(&mut out, fields[i].1.as_slice());
        push_crlf(&mut out);
        proof {
            assert(out@ =~= before + part_spec(boundary@, fv[i as int].0, fv[i as int].1));
            assert(fv.subrange(0, i + 1) =~~= fv.subrange(0, i as int).push(fv[i as int]));
            lemma_parts_snoc(boundary@, fv.subrange(0, i as int), fv[i as int]);
        }
        i = i + 1;
    }
    proof {
        assert(fv.subrange(0, n as int) =~~= fv);
    }
    push_ascii(&mut out, "--");
    push_bytes(&mut out, boundary);
    push_ascii(&mut out, "--");
    push_crlf(&mut out);
    proof {
        assert(out@ =~= multipart_body_spec(boundary@, fv));
    }
    out
}

/// Chooses a boundary for the given fields: longer than every field name
/// and value, so it cannot occur inside any of them.
pub fn choose_boundary(fields: &Vec<(Vec<u8>, Vec<u8>)>) -> (r: Vec<u8>)
    requires
        forall|i: int|
            0 <= i < fields@.len() ==> (#[trigger] fields@[i]).0@.len() < usize::MAX
                && fields@[i].1@.len() < usize::MAX,
    ensures
        r@.len() > 0,
        forall|i: int|
            0 <= i < fields@.len() ==> !contains_seq((#[trigger] fields@[i]).0@, r@)
                && !contains_seq(fields@[i].1@, r@),
{
    let n = fields.len();
    let mut m: usize = 16;
    let mut i: usize = 0;
    while i < n
        invariant
            0 <= i <= n,
            n == fields@.len(),
            m >= 16,
            forall|i: int|
                0 <= i < fields@.len() ==> (#[trigger] fields@[i]).0@.len() < usize::MAX
                    && fields@[i].1@.len() < usize::MAX,
            forall|j: int|
                0 <= j < i ==> m > (#[trigger] fields@[j]).0@.len() && m > fields@[j].1@.len(),
        decreases n - i,
    {
        if fields[i].0.len() >= m {
            m = fields[i].0.len() + 1;
        }
        if fields[i].1.len() >= m {
            m = fields[i].1.len() + 1;
        }
        i = i + 1;
    }
    let mut out: Vec<u8> = Vec::new();
    let mut k: usize = 0;
    while k < m
        invariant
            0 <= k <= m,
            out@.len() == k,
        decreases m - k,
    {
        out.push('x' as u8);
        k = k + 1;
    }
    out
}

/// The `Content-Type` header value that announces the boundary.
pub fn content_type_value(boundary: &[u8]) -> (r: Vec<u8>)
    ensures
        r@ == ascii_seq("multipart/form-data; boundary="@) + boundary@,
{
    proof {
        reveal_strlit("multipart/form-data; boundary=");
    }
    let mut out = lit_bytes("multipart/form-data; boundary=");
    push_bytes(&mut out, boundary);
    out
}

/// The form fields a callback outcome is reported under: `file` and
/// `key_prefix` on success, `error` on failure.
pub open spec fn callback_fields_spec(o: CallbackBody) -> Seq<(Seq<u8>, Seq<u8>)> {
    match o {
        CallbackBody::Success { presigned_url, key_prefix } => seq![
            (ascii_seq("file"@), presigned_url@),
            (ascii_seq("key_prefix"@), key_prefix@),
        ],
        CallbackBody::Failure { error } => seq![(ascii_seq("error"@), error@)],
    }
}

/// Lays a callback outcome out as form fields.
pub fn callback_fields(o: &CallbackBody) -> (r: Vec<(Vec<u8>, Vec<u8>)>)
    ensures
        field_views(r@) == callback_fields_spec(*o),
{
    let mut out: Vec<(Vec<u8>, Vec<u8>)> = Vec::new();
    match o {
        CallbackBody::Success { presigned_url, key_prefix } => {
            proof {
                reveal_strlit("file");
                reveal_strlit("key_prefix");
            }
            out.push((lit_bytes("file"), copy_bytes(presigned_url.as_slice())));
            out.push((lit_bytes("key_prefix"), copy_bytes(key_prefix.as_slice())));
        },
        CallbackBody::Failure { error } => {
            proof {
                reveal_strlit("error");
            }
            out.push((lit_bytes("error"), copy_bytes(error.as_slice())));
        },
    }
    proof {
        assert(field_views(out@) =~~= callback_fields_spec(*o));
    }
    out
}

/// Builds the callback POST for an outcome: the boundary and the framed
/// `multipart/form-data` body. The boundary is free of collisions with the
/// field contents by construction.
pub fn callback_parts(o: &CallbackBody) -> (r: (Vec<u8>, Vec<u8>))
    requires
        match *o {
            CallbackBody::Success { presigned_url, key_prefix } => presigned_url@.len()
                < usize::MAX && key_prefix@.len() < usize::MAX,
            CallbackBody::Failure { error } => error@.len() < usize::MAX,
        },
    ensures
        r.0@.len() > 0,
        r.1@ == multipart_body_spec(r.0@, callback_fields_spec(*o)),
        forall|i: int|
            0 <= i < callback_fields_spec(*o).len() ==> !contains_seq(
                (#[trigger] callback_fields_spec(*o)[i]).1,
                r.0@,
            ),
{
    let fields = callback_fields(o);
    proof {
        reveal_strlit("file");
        reveal_strlit("key_prefix");
        reveal_strlit("error");
        let fs = callback_fields_spec(*o);
        match o {
            CallbackBody::Success { presigned_url, key_prefix } => {
                assert(fs.len() == 2);
                assert(fs[0] == (ascii_seq("file"@), presigned_url@));
                assert(fs[1] == (ascii_seq("key_prefix"@), key_prefix@));
                assert(fs[0].1.len() < usize::MAX);
                assert(fs[1].1.len() < usize::MAX);
            },
            CallbackBody::Failure { error } => {
                assert(fs.len() == 1);
                assert(fs[0] == (ascii_seq("error"@), error@));
                assert(fs[0].1.len() < usize::MAX);
            },
        }
        assert forall|i: int|
            0 <= i < fields@.len() implies (#[trigger] fields@[i]).0@.len() < usize::MAX
            && fields@[i].1@.len() < usize::MAX by {
            assert(field_views(fields@)[i] == (fields@[i].0@, fields@[i].1@));
            assert(fs[i] == field_views(fields@)[i]);
            assert(fields@[i].0@ == fs[i].0);
            assert(fields@[i].1@ == fs[i].1);
        }
    }
    let boundary = choose_boundary(&fields);
    let body = multipart_body(boundary.as_slice(), &fields);
    proof {
        let fs = callback_fields_spec(*o);
        assert forall|i: int|
            0 <= i < fs.len() implies !contains_seq((#[trigger] fs[i]).1, boundary@) by {
            assert(field_views(fields@)[i] == (fields@[i].0@, fields@[i].1@));
            assert(fs[i] == field_views(fields@)[i]);
            assert(fields@[i].1@ == fs[i].1);
        }
    }
    (boundary, body)
}

/// Whether a `Content-Type` header value names the given type, parameters
/// aside.
pub open spec fn content_type_matches_spec(h: Seq<u8>, expected: Seq<u8>) -> bool {
    lower_seq(trim(split_parts(h)[0])) == expected
}

/// Checks a `Content-Type` header value against a type such as
/// `multipart/form-data`, ignoring its parameters.
pub fn content_type_matches(h: &[u8], expected: &str) -> (r: bool)
    requires
        expected.is_ascii(),
    ensures
        r <==> content_type_matches_spec(h@, ascii_seq(expected@)),
{
    let (ok, _) = leading_token_is(h, expected);
    ok
}

/// The boundary parameter of a `multipart/form-data` content type value,
/// if the value is of that type and carries one.
pub open spec fn boundary_of_spec(h: Seq<u8>) -> Option<Seq<u8>> {
    let parts = split_parts(h);
    if lower_seq(trim(parts[0])) == ascii_seq("multipart/form-data"@) {
        param_of_parts(parts.drop_first(), ascii_seq("boundary"@))
    } else {
        None
    }
}

/// Reads the boundary out of a `Content-Type` header value.
pub fn boundary_of_content_type(h: &[u8]) -> (r: Option<Vec<u8>>)
    ensures
        match r {
            Some(v) => boundary_of_spec(h@) == Some(v@),
            None => boundary_of_spec(h@) is None,
        },
{
    proof {
        reveal_strlit("multipart/form-data");
        reveal_strlit("boundary");
    }
    let (is_mp, params_start) = leading_token_is(h, "multipart/form-data");
    if !is_mp {
        return None;
    }
    param_from(h, params_start, "boundary")
}

} // verus!
