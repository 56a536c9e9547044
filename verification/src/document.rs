//! The document specification and the naming rules of a job: the output
//! filename, the typesetter source filename derived from it, and the object
//! store keys under the job's key prefix.

use vstd::prelude::*;
use crate::bytes::{ascii_seq, lit_bytes, push_bytes};

verus! {

/// A render or preview request. URLs, filenames and keys are byte strings;
/// `variables` is the JSON text of the template variables.
pub struct DocumentSpec {
    pub template_url: Vec<u8>,
    pub assets_urls: Vec<Vec<u8>>,
    pub variables: String,
    pub output_filename: Vec<u8>,
    pub callback_url: Vec<u8>,
    pub no_escape_latex: bool,
}

/// The extension a finished document carries.
pub open spec fn pdf_ext() -> Seq<u8> {
    seq!['.' as u8, 'p' as u8, 'd' as u8, 'f' as u8]
}

/// The extension of the typesetter source written into the workspace.
pub open spec fn tex_ext() -> Seq<u8> {
    seq!['.' as u8, 't' as u8, 'e' as u8, 'x' as u8]
}

/// A byte that separates path components; an output filename may not
/// contain one.
pub open spec fn is_path_separator(b: u8) -> bool {
    b == '/' as u8 || b == '\\' as u8
}

/// An output filename is accepted when it is non-empty apart from its
/// extension, ends in `.pdf`, and contains no path separator.
pub open spec fn valid_output_filename(f: Seq<u8>) -> bool {
    &&& f.len() > pdf_ext().len()
    &&& f.subrange(f.len() - pdf_ext().len(), f.len() as int) == pdf_ext()
    &&& forall|i: int| 0 <= i < f.len() ==> !is_path_separator(#[trigger] f[i])
}

/// The typesetter source filename: the output filename with its `.pdf`
/// extension replaced by `.tex`.
pub open spec fn tex_filename_spec(f: Seq<u8>) -> Seq<u8> {
    f.subrange(0, f.len() - pdf_ext().len()) + tex_ext()
}

/// Checks an output filename: non-empty stem, `.pdf` extension, no path
/// separators.
pub fn check_output_filename(f: &[u8]) -> (r: bool)
    ensures
        r <==> valid_output_filename(f@),
{
    if f.len() <= 4 {
        return false;
    }
    let n = f.len();
    let dot = '.' as u8;
    let p = 'p' as u8;
    let d = 'd' as u8;
    let fb = 'f' as u8;
    if !(f[n - 4] == dot && f[n - 3] == p && f[n - 2] == d && f[n - 1] == fb) {
        proof {
            if f@.subrange(n - 4, n as int) == pdf_ext() {
                assert(f@.subrange(n - 4, n as int)[0] == f@[n - 4]);
                assert(f@.subrange(n - 4, n as int)[1] == f@[n - 3]);
                assert(f@.subrange(n - 4, n as int)[2] == f@[n - 2]);
                assert(f@.subrange(n - 4, n as int)[3] == f@[n - 1]);
            }
        }
        return false;
    }
    proof {
        assert(f@.subrange(n - 4, n as int) =~= pdf_ext());
    }
    let mut i: usize = 0;
    while i < n
        invariant
            0 <= i <= n,
            n == f@.len(),
            forall|j: int| 0 <= j < i ==> !is_path_separator(#[trigger] f@[j]),
        decreases n - i,
    {
        if f[i] == '/' as u8 || f[i] == '\\' as u8 {
            return false;
        }
        i = i + 1;
    }
    true
}

/// The typesetter source filename for a valid output filename.
pub fn tex_filename(f: &[u8]) -> (r: Vec<u8>)
    requires
        valid_output_filename(f@),
    ensures
        r@ == tex_filename_spec(f@),
{
    let n = f.len();
    let mut out: Vec<u8> = Vec::new();
    let mut i: usize = 0;
    while i < n - 4
        invariant
            0 <= i <= n - 4,
            n == f@.len(),
            n > 4,
            out@ == f@.subrange(0, i as int),
        decreases n - 4 - i,
    {
        out.push(f[i]);
        proof {
            assert(out@ =~= f@.subrange(0, i + 1));
        }
        i = i + 1;
    }
    out.push('.' as u8);
    out.push('t' as u8);
    out.push('e' as u8);
    out.push('x' as u8);
    proof {
        assert(out@ =~= tex_filename_spec(f@));
    }
    out
}

/// The name of the per-job log file inside the workspace.
pub open spec fn logs_filename_spec() -> Seq<u8> {
    ascii_seq("logs.txt"@)
}

/// The name of the per-job log file inside the workspace.
pub fn logs_filename() -> (r: Vec<u8>)
    ensures
        r@ == logs_filename_spec(),
{
    proof {
        reveal_strlit("logs.txt");
    }
    lit_bytes("logs.txt")
}

/// An object store key under the job's prefix: `<prefix>/<name>`.
pub open spec fn object_key_spec(prefix: Seq<u8>, name: Seq<u8>) -> Seq<u8> {
    prefix + seq!['/' as u8] + name
}

/// Joins a key prefix and a name into an object store key.
pub fn object_key(prefix: &[u8], name: &[u8]) -> (r: Vec<u8>)
    ensures
        r@ == object_key_spec(prefix@, name@),
{
    let mut out: Vec<u8> = Vec::new();
    push_bytes(&mut out, prefix);
    out.push('/' as u8);
    push_bytes(&mut out, name);
    proof {
        assert(out@ =~= object_key_spec(prefix@, name@));
    }
    out
}

/// The name of the workspace archive uploaded for every job.
pub open spec fn tar_name_spec() -> Seq<u8> {
    ascii_seq("workspace.tar"@)
}

/// The name of the workspace archive uploaded for every job.
pub fn tar_name() -> (r: Vec<u8>)
    ensures
        r@ == tar_name_spec(),
{
    proof {
        reveal_strlit("workspace.tar");
    }
    lit_bytes("workspace.tar")
}

} // verus!
