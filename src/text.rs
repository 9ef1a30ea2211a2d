//! Conversions between strings and character sequences, and splitting of
//! text into display lines.

use vstd::prelude::*;
use vstd::string::*;

verus! {

/// The characters of a string, in order.
pub fn chars_of(s: &str) -> (r: Vec<char>)
    ensures
        r@ == s@,
{
    let n = s.unicode_len();
    let mut out: Vec<char> = Vec::new();
    let mut i: usize = 0;
    while i < n
        invariant
            n == s@.len(),
            i <= n,
            out@ == s@.subrange(0, i as int),
        decreases n - i,
    {
        out.push(s.get_char(i));
        i = i + 1;
    }
    assert(out@ =~= s@);
    out
}

/// Relies on `String: FromIterator<&char>`: the string holding exactly these characters.
#[verifier::external_body]
pub(crate) fn string_from_chars(v: &Vec<char>) -> (r: String)
    ensures
        r@ == v@,
{
    v.iter().collect()
}

/// The lines held in a vector of character vectors.
pub open spec fn lines_view(v: Vec<Vec<char>>) -> Seq<Seq<char>> {
    v@.map_values(|l: Vec<char>| l@)
}

/// The display lines of a text: the pieces between its newline characters.
/// An empty text is one empty line.
pub open spec fn split_lines(s: Seq<char>) -> Seq<Seq<char>>
    decreases s.len(),
{
    if s.len() == 0 {
        seq![Seq::<char>::empty()]
    } else {
        let prev = split_lines(s.drop_last());
        if s.last() == '\n' {
            prev.push(Seq::<char>::empty())
        } else {
            prev.update(prev.len() - 1, prev.last().push(s.last()))
        }
    }
}

/// A text has at least one line, and no line is longer than the text.
pub proof fn lemma_split_lines_shape(s: Seq<char>)
    ensures
        split_lines(s).len() >= 1,
        split_lines(s).len() <= s.len() + 1,
        forall|k: int| 0 <= k < split_lines(s).len() ==> #[trigger] split_lines(s)[k].len() <= s.len(),
    decreases s.len(),
{
    if s.len() > 0 {
        lemma_split_lines_shape(s.drop_last());
    }
}

/// Splits a text into its display lines.
pub fn lines_of(s: &Vec<char>) -> (r: Vec<Vec<char>>)
    ensures
        lines_view(r) == split_lines(s@),
{
    let mut done: Vec<Vec<char>> = Vec::new();
    let mut current: Vec<char> = Vec::new();
    let mut i: usize = 0;
    while i < s.len()
        invariant
            i <= s@.len(),
            done@.map_values(|l: Vec<char>| l@).push(current@) == split_lines(s@.subrange(0, i as int)),
        decreases s@.len() - i,
    {
        let ghost before = done@.map_values(|l: Vec<char>| l@).push(current@);
        proof {
            let t = s@.subrange(0, i + 1);
            assert(t.drop_last() =~= s@.subrange(0, i as int));
            assert(t.last() == s@[i as int]);
        }
        if s[i] == '\n' {
            done.push(current);
            current = Vec::new();
            assert(done@.map_values(|l: Vec<char>| l@).push(current@) =~= before.push(
                Seq::<char>::empty(),
            ));
        } else {
            current.push(s[i]);
            assert(done@.map_values(|l: Vec<char>| l@).push(current@) =~= before.update(
                before.len() - 1,
                before.last().push(s@[i as int]),
            ));
        }
        i = i + 1;
    }
    done.push(current);
    assert(s@.subrange(0, i as int) =~= s@);
    assert(done@.map_values(|l: Vec<char>| l@) =~= split_lines(s@));
    done
}

} // verus!
