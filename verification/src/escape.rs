//! Escaping for the typesetter. Before expansion, the string leaves of the
//! variables are escaped so that the typesetter's special characters come
//! out as literal text (unless the document specification turns this off).
//! The escaping of one string is verified here, byte for byte; the
//! specials are all ASCII, so UTF-8 continuation bytes pass through
//! untouched.

use vstd::prelude::*;
use vstd::utf8::encode_utf8;
use crate::bytes::{ascii_seq, push_ascii};

verus! {

/// What one byte becomes: each of the typesetter's special characters
/// turns into its escape, every other byte stands unchanged.
pub open spec fn escape_byte(b: u8) -> Seq<u8> {
    if b == '\\' as u8 {
        ascii_seq("\\textbackslash{}"@)
    } else if b == '~' as u8 {
        ascii_seq("\\textasciitilde{}"@)
    } else if b == '^' as u8 {
        ascii_seq("\\textasciicircum{}"@)
    } else if b == '&' as u8 || b == '%' as u8 || b == '$' as u8 || b == '#' as u8 || b == '_'
        as u8 || b == '{' as u8 || b == '}' as u8 {
        seq!['\\' as u8, b]
    } else {
        seq![b]
    }
}

/// A whole string, escaped byte by byte.
pub open spec fn latex_escape_spec(s: Seq<u8>) -> Seq<u8>
    decreases s.len(),
{
    if s.len() == 0 {
        Seq::empty()
    } else {
        escape_byte(s[0]) + latex_escape_spec(s.drop_first())
    }
}

proof fn lemma_escape_snoc(s: Seq<u8>, b: u8)
    ensures
        latex_escape_spec(s.push(b)) == latex_escape_spec(s) + escape_byte(b),
    decreases s.len(),
{
    if s.len() == 0 {
        assert(s.push(b)[0] == b);
        assert(s.push(b).drop_first() =~= Seq::<u8>::empty());
        assert(latex_escape_spec(s.push(b)) == escape_byte(b) + latex_escape_spec(
            Seq::<u8>::empty(),
        ));
        assert(escape_byte(b) + Seq::<u8>::empty() =~= escape_byte(b));
        assert(latex_escape_spec(s) + escape_byte(b) =~= escape_byte(b));
    } else {
        assert(s.push(b).drop_first() =~= s.drop_first().push(b));
        lemma_escape_snoc(s.drop_first(), b);
        assert(s.push(b)[0] == s[0]);
        assert(latex_escape_spec(s.push(b)) == escape_byte(s[0]) + latex_escape_spec(
            s.drop_first().push(b),
        ));
        assert(latex_escape_spec(s) == escape_byte(s[0]) + latex_escape_spec(s.drop_first()));
        assert(escape_byte(s[0]) + (latex_escape_spec(s.drop_first()) + escape_byte(b)) =~= (
        escape_byte(s[0]) + latex_escape_spec(s.drop_first())) + escape_byte(b));
    }
}

/// Escapes one string for the typesetter.
pub fn latex_escape(s: &[u8]) -> (r: Vec<u8>)
    ensures
        r@ == latex_escape_spec(s@),
{
    let n = s.len();
    let mut out: Vec<u8> = Vec::new();
    let mut i: usize = 0;
    proof {
        assert(s@.subrange(0, 0) =~= Seq::<u8>::empty());
    }
    while i < n
        invariant
            0 <= i <= n,
            n == s@.len(),
            out@ == latex_escape_spec(s@.subrange(0, i as int)),
        decreases n - i,
    {
        proof {
            reveal_strlit("\\textbackslash{}");
            reveal_strlit("\\textasciitilde{}");
            reveal_strlit("\\textasciicircum{}");
        }
        let ghost before = out@;
        let b = s[i];
        if b == '\\' as u8 {
            push_ascii(&mut out, "\\textbackslash{}");
        } else if b == '~' as u8 {
            push_ascii(&mut out, "\\textasciitilde{}");
        } else if b == '^' as u8 {
            push_ascii(&mut out, "\\textasciicircum{}");
        } else if b == '&' as u8 || b == '%' as u8 || b == '$' as u8 || b == '#' as u8 || b == '_'
            as u8 || b == '{' as u8 || b == '}' as u8 {
            out.push('\\' as u8);
            out.push(b);
        } else {
            out.push(b);
        }
        proof {
            assert(out@ =~= before + escape_byte(s@[i as int]));
            assert(s@.subrange(0, i + 1) =~= s@.subrange(0, i as int).push(s@[i as int]));
            lemma_escape_snoc(s@.subrange(0, i as int), s@[i as int]);
        }
        i = i + 1;
    }
    proof {
        assert(s@.subrange(0, n as int) =~= s@);
    }
    out
}

/// Escapes every string leaf of the variables, handed over as a list:
/// the i-th output is the typesetter escaping of the i-th input's bytes.
pub fn escape_leaves(leaves: &Vec<String>) -> (r: Vec<Vec<u8>>)
    ensures
        r@.len() == leaves@.len(),
        forall|i: int|
            0 <= i < leaves@.len() ==> #[trigger] r@[i]@ == latex_escape_spec(
                encode_utf8(leaves@[i]@),
            ),
{
    let n = leaves.len();
    let mut out: Vec<Vec<u8>> = Vec::new();
    let mut i: usize = 0;
    while i < n
        invariant
            0 <= i <= n,
            n == leaves@.len(),
            out@.len() == i,
            forall|j: int|
                0 <= j < i ==> #[trigger] out@[j]@ == latex_escape_spec(
                    encode_utf8(leaves@[j]@),
                ),
        decreases n - i,
    {
        out.push(latex_escape(leaves[i].as_str().as_bytes()));
        i = i + 1;
    }
    out
}

} // verus!
