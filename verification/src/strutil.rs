use vstd::prelude::*;

use crate::fail::WError;

verus! {

/// Relies on str's `PartialEq`: two string slices compare equal exactly
/// when their character sequences are equal.
#[verifier::external_body]
pub fn str_eq(a: &str, b: &str) -> (r: bool)
    ensures
        r == (a@ == b@),
{
    a == b
}

/// Relies on std's `str::from_utf8`: it succeeds exactly on valid UTF-8
/// and decodes it; anything else is reported as non-UTF-8 subprocess
/// output.
#[verifier::external_body]
pub fn bytes_to_string(bytes: &Vec<u8>) -> (r: Result<String, WError>)
    ensures
        r is Ok <==> vstd::utf8::valid_utf8(bytes@),
        r matches Ok(s) ==> s@ == vstd::utf8::decode_utf8(bytes@),
        r matches Err(e) ==> e == WError::SubprocessOutputNotUtf8,
{
    match core::str::from_utf8(bytes.as_slice()) {
        Ok(s) => Ok(s.to_owned()),
        Err(_) => Err(WError::SubprocessOutputNotUtf8),
    }
}

/// Index of the first newline byte, or the length when there is none.
pub open spec fn spec_find_nl(s: Seq<u8>) -> nat
    decreases s.len(),
{
    if s.len() == 0 {
        0
    } else if s[0] == 10u8 {
        0
    } else {
        1 + spec_find_nl(s.drop_first())
    }
}

/// A carriage return directly before the line break is not part of the
/// line.
pub open spec fn spec_strip_cr(line: Seq<u8>) -> Seq<u8> {
    if line.len() > 0 && line[line.len() - 1] == 13u8 {
        line.drop_last()
    } else {
        line
    }
}

/// The lines of a byte stream: split at each newline, a carriage return
/// before the newline stripped, and no empty line after a final newline.
pub open spec fn spec_split_lines(s: Seq<u8>) -> Seq<Seq<u8>>
    decreases s.len(),
{
    if s.len() == 0 {
        Seq::empty()
    } else {
        let i = spec_find_nl(s) as int;
        if i >= s.len() {
            seq![s]
        } else {
            seq![spec_strip_cr(s.take(i))] + spec_split_lines(s.skip(i + 1))
        }
    }
}

/// The first-newline index is pinned by its defining properties.
pub proof fn lemma_find_nl_unique(s: Seq<u8>, m: int)
    requires
        0 <= m <= s.len(),
        forall|k: int| 0 <= k < m ==> s[k] != 10u8,
        m < s.len() ==> s[m] == 10u8,
    ensures
        spec_find_nl(s) == m,
    decreases s.len(),
{
    if s.len() == 0 {
    } else if s[0] == 10u8 {
        assert(m == 0);
    } else {
        assert(m >= 1);
        let t = s.drop_first();
        assert(forall|k: int| 0 <= k < m - 1 ==> t[k] == s[k + 1] && s[k + 1] != 10u8);
        lemma_find_nl_unique(t, m - 1);
    }
}

/// Copy out one stretch of a byte vector.
pub fn subrange_vec(v: &Vec<u8>, from: usize, to: usize) -> (r: Vec<u8>)
    requires
        from <= to <= v.len(),
    ensures
        r@ == v@.subrange(from as int, to as int),
{
    let mut r: Vec<u8> = Vec::new();
    let mut k: usize = from;
    while k < to
        invariant
            from <= k <= to <= v@.len(),
            r@ == v@.subrange(from as int, k as int),
        decreases to - k,
    {
        r.push(v[k]);
        k = k + 1;
        proof {
            assert(r@ =~= v@.subrange(from as int, k as int));
        }
    }
    r
}

/// Split captured subprocess output into its lines, still as bytes.
pub fn split_lines(bytes: &Vec<u8>) -> (r: Vec<Vec<u8>>)
    ensures
        r.deep_view() == spec_split_lines(bytes@),
{
    let mut r: Vec<Vec<u8>> = Vec::new();
    let mut start: usize = 0;
    proof {
        assert(bytes@.skip(0) =~= bytes@);
        assert(r.deep_view() =~= Seq::<Seq<u8>>::empty());
        assert(r.deep_view() + spec_split_lines(bytes@) =~= spec_split_lines(bytes@));
    }
    while start < bytes.len()
        invariant
            0 <= start <= bytes@.len(),
            r.deep_view() + spec_split_lines(bytes@.skip(start as int)) == spec_split_lines(
                bytes@,
            ),
        decreases bytes@.len() - start,
    {
        let ghost prev = r.deep_view();
        let ghost t = bytes@.skip(start as int);
        let mut j: usize = start;
        while j < bytes.len() && bytes[j] != 10u8
            invariant
                start <= j <= bytes@.len(),
                forall|k: int| start <= k < j ==> bytes@[k] != 10u8,
            decreases bytes@.len() - j,
        {
            j = j + 1;
        }
        proof {
            assert(forall|k: int| 0 <= k < j - start ==> t[k] == bytes@[k + start]);
            lemma_find_nl_unique(t, j - start);
        }
        let end: usize = if j < bytes.len() && j > start && bytes[j - 1] == 13u8 {
            j - 1
        } else {
            j
        };
        let chunk = subrange_vec(bytes, start, end);
        proof {
            if j < bytes.len() {
                assert(t.take(j - start) =~= bytes@.subrange(start as int, j as int));
                assert(spec_strip_cr(t.take(j - start)) =~= chunk@);
                assert(t.skip(j - start + 1) =~= bytes@.skip(j + 1));
                assert(spec_split_lines(t) == seq![chunk@] + spec_split_lines(
                    bytes@.skip(j + 1),
                ));
            } else {
                assert(t =~= chunk@);
                assert(spec_split_lines(t) == seq![chunk@]);
                assert(bytes@.skip(bytes@.len() as int) =~= Seq::<u8>::empty());
            }
        }
        r.push(chunk);
        proof {
            assert(r.deep_view() =~~= prev.push(chunk@));
            assert(prev.push(chunk@) =~= prev + seq![chunk@]);
        }
        if j < bytes.len() {
            start = j + 1;
        } else {
            start = j;
        }
        proof {
            assert(prev + (seq![chunk@] + spec_split_lines(bytes@.skip(start as int)))
                =~= (prev + seq![chunk@]) + spec_split_lines(bytes@.skip(start as int)));
            assert(r.deep_view() + spec_split_lines(bytes@.skip(start as int)) =~= spec_split_lines(
                bytes@,
            ));
        }
    }
    proof {
        assert(bytes@.skip(start as int) =~= Seq::<u8>::empty());
        assert(r.deep_view() =~= spec_split_lines(bytes@));
    }
    r
}

/// The decoded lines of the byte stream.
pub open spec fn spec_decoded_lines(s: Seq<u8>) -> Seq<Seq<char>> {
    spec_split_lines(s).map_values(|c: Seq<u8>| vstd::utf8::decode_utf8(c))
}

/// Whether every line of the byte stream is valid UTF-8.
pub open spec fn spec_all_lines_valid(s: Seq<u8>) -> bool {
    forall|i: int|
        0 <= i < spec_split_lines(s).len() ==> vstd::utf8::valid_utf8(
            #[trigger] spec_split_lines(s)[i],
        )
}

/// Decode captured subprocess output into text lines; any line that is
/// not valid UTF-8 fails the whole capture.
pub fn decode_output(bytes: &Vec<u8>) -> (r: Result<Vec<String>, WError>)
    ensures
        r is Ok <==> spec_all_lines_valid(bytes@),
        r matches Ok(lines) ==> lines.deep_view() == spec_decoded_lines(bytes@),
        r matches Err(e) ==> e == WError::SubprocessOutputNotUtf8,
{
    let chunks = split_lines(bytes);
    let mut out: Vec<String> = Vec::new();
    let mut i: usize = 0;
    while i < chunks.len()
        invariant
            0 <= i <= chunks@.len(),
            chunks.deep_view() == spec_split_lines(bytes@),
            out@.len() == i,
            forall|k: int|
                0 <= k < i ==> vstd::utf8::valid_utf8(#[trigger] spec_split_lines(bytes@)[k]),
            forall|k: int|
                0 <= k < i ==> #[trigger] out.deep_view()[k] == vstd::utf8::decode_utf8(
                    spec_split_lines(bytes@)[k],
                ),
        decreases chunks@.len() - i,
    {
        let ghost prev = out.deep_view();
        proof {
            assert(chunks.deep_view()[i as int] == chunks@[i as int]@);
        }
        match bytes_to_string(&chunks[i]) {
            Ok(s) => {
                out.push(s);
                proof {
                    assert(out.deep_view() =~~= prev.push(s@));
                }
            }
            Err(e) => {
                return Err(e);
            }
        }
        i = i + 1;
    }
    proof {
        assert(out.deep_view() =~= spec_decoded_lines(bytes@));
    }
    Ok(out)
}

/// Index of the first colon, or the length when there is none.
pub open spec fn spec_find_colon(s: Seq<char>) -> int
    decreases s.len(),
{
    if s.len() == 0 {
        0
    } else if s[0] == ':' {
        0
    } else {
        1 + spec_find_colon(s.drop_first())
    }
}

proof fn lemma_find_colon_unique(s: Seq<char>, m: int)
    requires
        0 <= m <= s.len(),
        forall|k: int| 0 <= k < m ==> s[k] != ':',
        m < s.len() ==> s[m] == ':',
    ensures
        spec_find_colon(s) == m,
    decreases s.len(),
{
    if s.len() == 0 {
    } else if s[0] == ':' {
        assert(m == 0);
    } else {
        let t = s.drop_first();
        assert(forall|k: int| 0 <= k < m - 1 ==> t[k] == s[k + 1] && s[k + 1] != ':');
        lemma_find_colon_unique(t, m - 1);
    }
}

/// The position of the first colon, or the length when there is none.
pub fn find_colon(s: &str) -> (r: usize)
    ensures
        r == spec_find_colon(s@),
        r <= s@.len(),
{
    let len = s.unicode_len();
    let mut i: usize = 0;
    while i < len && s.get_char(i) != ':'
        invariant
            0 <= i <= len,
            len == s@.len(),
            forall|k: int| 0 <= k < i ==> s@[k] != ':',
        decreases len - i,
    {
        i = i + 1;
    }
    proof {
        lemma_find_colon_unique(s@, i as int);
    }
    i
}

} // verus!
