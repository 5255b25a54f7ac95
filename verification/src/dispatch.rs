//! Selection of the conversion direction from a file name, and the
//! derivation of the output file name.

use vstd::prelude::*;

verus! {

/// The direction a file name asks for.
#[derive(Debug, Clone, Copy, PartialEq, Eq, Structural)]
pub enum Conversion {
    /// A `.cor` input: decode COR and write a drawing.
    CorToDxf,
    /// A `.dxf` input: load a drawing and write COR.
    DxfToCor,
    /// Any other extension: report, convert nothing.
    Unsupported,
}

/// The file name's extension: what follows the last `.`, or the whole
/// name where it has none.
pub open spec fn ext_of(s: Seq<char>) -> Seq<char>
    decreases s.len(),
{
    if s.len() == 0 {
        s
    } else if s.last() == '.' {
        Seq::empty()
    } else {
        ext_of(s.drop_last()) + seq![s.last()]
    }
}

/// The file name's stem: what precedes the first `.`, or the whole
/// name where it has none.
pub open spec fn stem_of(s: Seq<char>) -> Seq<char>
    decreases s.len(),
{
    if s.len() == 0 {
        s
    } else if s[0] == '.' {
        Seq::empty()
    } else {
        seq![s[0]] + stem_of(s.drop_first())
    }
}

/// Whether an extension reads `dxf`, ignoring ASCII case.
pub open spec fn is_ext_dxf(e: Seq<char>) -> bool {
    e.len() == 3 && (e[0] == 'D' || e[0] == 'd') && (e[1] == 'X' || e[1] == 'x') && (e[2] == 'F'
        || e[2] == 'f')
}

/// Whether an extension reads `cor`, ignoring ASCII case.
pub open spec fn is_ext_cor(e: Seq<char>) -> bool {
    e.len() == 3 && (e[0] == 'C' || e[0] == 'c') && (e[1] == 'O' || e[1] == 'o') && (e[2] == 'R'
        || e[2] == 'r')
}

/// The direction a file name selects.
pub open spec fn conversion_spec(name: Seq<char>) -> Conversion {
    if is_ext_dxf(ext_of(name)) {
        Conversion::DxfToCor
    } else if is_ext_cor(ext_of(name)) {
        Conversion::CorToDxf
    } else {
        Conversion::Unsupported
    }
}

/// A name whose characters from `from` on hold no `.` has its extension
/// behind its prefix's.
proof fn lemma_ext_no_dot_suffix(s: Seq<char>, from: int)
    requires
        0 <= from <= s.len(),
        forall|k: int| from <= k < s.len() ==> s[k] != '.',
    ensures
        ext_of(s) == ext_of(s.take(from)) + s.skip(from),
    decreases s.len(),
{
    if from == s.len() {
        assert(s.take(from) =~= s);
        assert(ext_of(s) =~= ext_of(s) + s.skip(from));
    } else {
        assert(s.last() != '.');
        lemma_ext_no_dot_suffix(s.drop_last(), from);
        assert(s.drop_last().take(from) =~= s.take(from));
        assert(ext_of(s) =~= ext_of(s.take(from)) + s.skip(from));
    }
}

/// The extension of a file name; the executable counterpart of
/// `ext_of`.
pub fn extension(name: &str) -> (ext: &str)
    ensures
        ext@ == ext_of(name@),
{
    let n = name.unicode_len();
    let mut j = n;
    while j > 0 && name.get_char(j - 1) != '.'
        invariant
            0 <= j <= n,
            n == name@.len(),
            forall|k: int| j <= k < n ==> name@[k] != '.',
        decreases j,
    {
        j = j - 1;
    }
    proof {
        lemma_ext_no_dot_suffix(name@, j as int);
        if j > 0 {
            assert(name@[j - 1] == '.');
            let prefix = name@.take(j as int);
            assert(prefix.last() == '.');
            assert(ext_of(prefix) =~= Seq::<char>::empty());
            assert(ext_of(name@) =~= name@.skip(j as int));
        } else {
            assert(name@.take(0) =~= Seq::<char>::empty());
            assert(ext_of(Seq::<char>::empty()) =~= Seq::<char>::empty());
            assert(ext_of(name@) =~= name@.skip(0));
        }
        assert(name@.skip(j as int) =~= name@.subrange(j as int, n as int));
    }
    name.substring_char(j, n)
}

/// Selects the conversion direction for an input file name: `dxf` and
/// `cor` extensions, matched ignoring ASCII case, select a direction;
/// anything else is unsupported, and no conversion is attempted.
pub fn conversion_for(name: &str) -> (c: Conversion)
    ensures
        c == conversion_spec(name@),
{
    let ext = extension(name);
    let n = ext.unicode_len();
    if n == 3 {
        let c0 = ext.get_char(0);
        let c1 = ext.get_char(1);
        let c2 = ext.get_char(2);
        if (c0 == 'D' || c0 == 'd') && (c1 == 'X' || c1 == 'x') && (c2 == 'F' || c2 == 'f') {
            return Conversion::DxfToCor;
        }
        if (c0 == 'C' || c0 == 'c') && (c1 == 'O' || c1 == 'o') && (c2 == 'R' || c2 == 'r') {
            return Conversion::CorToDxf;
        }
    }
    Conversion::Unsupported
}

/// The output file name: the input's stem with `_out` and the opposite
/// format's extension appended.
pub open spec fn output_name_spec(name: Seq<char>, c: Conversion) -> Seq<char> {
    stem_of(name) + (if c is CorToDxf {
        seq!['_', 'o', 'u', 't', '.', 'd', 'x', 'f']
    } else {
        seq!['_', 'o', 'u', 't', '.', 'c', 'o', 'r']
    })
}

/// Derives the output file name for a conversion; the executable
/// counterpart of `output_name_spec`.
pub fn output_name(name: &str, c: Conversion) -> (out: String)
    ensures
        out@ == output_name_spec(name@, c),
{
    let n = name.unicode_len();
    proof {
        assert(name@.take(0) =~= Seq::<char>::empty());
        assert(name@.skip(0) =~= name@);
        assert(Seq::<char>::empty() + stem_of(name@) =~= stem_of(name@));
    }
    let mut i: usize = 0;
    while i < n && name.get_char(i) != '.'
        invariant
            0 <= i <= n,
            n == name@.len(),
            stem_of(name@) == name@.take(i as int) + stem_of(name@.skip(i as int)),
        decreases n - i,
    {
        proof {
            let cur = name@.skip(i as int);
            assert(cur[0] == name@[i as int]);
            assert(cur.drop_first() =~= name@.skip(i as int + 1));
            assert(name@.take(i as int + 1) =~= name@.take(i as int) + seq![name@[i as int]]);
            assert(name@.take(i as int) + (seq![name@[i as int]] + stem_of(
                name@.skip(i as int + 1),
            )) =~= name@.take(i as int + 1) + stem_of(name@.skip(i as int + 1)));
        }
        i = i + 1;
    }
    proof {
        let cur = name@.skip(i as int);
        if i < n {
            assert(cur[0] == name@[i as int]);
            assert(stem_of(cur) =~= Seq::<char>::empty());
        } else {
            assert(cur =~= Seq::<char>::empty());
            assert(stem_of(cur) =~= Seq::<char>::empty());
        }
        assert(stem_of(name@) =~= name@.take(i as int));
        assert(name@.take(i as int) =~= name@.subrange(0, i as int));
    }
    let stem = name.substring_char(0, i);
    let mut out = String::from_str(stem);
    match c {
        Conversion::CorToDxf => {
            out.append("_out.dxf");
            proof {
                reveal_strlit("_out.dxf");
                assert(("_out.dxf"@) =~= seq!['_', 'o', 'u', 't', '.', 'd', 'x', 'f']);
            }
        },
        _ => {
            out.append("_out.cor");
            proof {
                reveal_strlit("_out.cor");
                assert(("_out.cor"@) =~= seq!['_', 'o', 'u', 't', '.', 'c', 'o', 'r']);
            }
        },
    }
    out
}

} // verus!
