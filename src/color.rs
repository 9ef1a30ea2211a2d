//! Colors for borders: an escape-sequence prefix and suffix wrapped around
//! border characters without adding to their measured width.

use vstd::prelude::*;
use crate::text::chars_of;

verus! {

/// A color, written as the escape sequence that starts it and the one that ends it.
#[derive(Clone, Debug, PartialEq, Eq)]
pub struct Color {
    pub prefix: Vec<char>,
    pub suffix: Vec<char>,
}

impl Color {
    /// Creates a color from its ANSI prefix and suffix.
    pub fn new(prefix: String, suffix: String) -> (r: Color)
        ensures
            r.prefix@ == prefix@,
            r.suffix@ == suffix@,
    {
        Color { prefix: chars_of(prefix.as_str()), suffix: chars_of(suffix.as_str()) }
    }

    /// No color: an empty prefix and suffix.
    pub fn none() -> (r: Color)
        ensures
            r.prefix@.len() == 0,
            r.suffix@.len() == 0,
    {
        Color { prefix: Vec::new(), suffix: Vec::new() }
    }

    /// A color with the same prefix and suffix.
    pub fn duplicate(&self) -> (r: Color)
        ensures
            r.prefix@ == self.prefix@,
            r.suffix@ == self.suffix@,
    {
        let mut prefix: Vec<char> = Vec::new();
        let mut suffix: Vec<char> = Vec::new();
        append(&mut prefix, &self.prefix);
        append(&mut suffix, &self.suffix);
        Color { prefix, suffix }
    }

    /// `s` wrapped in this color.
    pub open spec fn paint(self, s: Seq<char>) -> Seq<char> {
        self.prefix@ + s + self.suffix@
    }

    /// Appends `s` wrapped in this color to `out`.
    pub fn paint_into(&self, out: &mut Vec<char>, s: &Vec<char>)
        ensures
            final(out)@ == old(out)@ + self.paint(s@),
    {
        let ghost start = out@;
        append(out, &self.prefix);
        append(out, s);
        append(out, &self.suffix);
        assert(out@ =~= start + self.paint(s@));
    }
}

/// Appends the characters of `s` to `out`.
pub fn append(out: &mut Vec<char>, s: &Vec<char>)
    ensures
        final(out)@ == old(out)@ + s@,
{
    let ghost start = out@;
    let mut i: usize = 0;
    while i < s.len()
        invariant
            i <= s@.len(),
            out@ == start + s@.subrange(0, i as int),
        decreases s@.len() - i,
    {
        out.push(s[i]);
        i = i + 1;
        assert(out@ =~= start + s@.subrange(0, i as int));
    }
    assert(s@.subrange(0, i as int) =~= s@);
}

} // verus!
