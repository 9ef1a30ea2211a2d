//! Display width of text, measured in terminal columns.

use vstd::prelude::*;

verus! {

/// Most characters a single text line of a cell may hold.
pub const MAX_LINE_CHARS: usize = 16777216;

/// Columns that `unicode_width` assigns to a character (`None` for control codes).
pub uninterp spec fn char_columns(c: char) -> Option<usize>;

/// Relies on `unicode_width::UnicodeWidthChar::width`: a character's column count,
/// at most 3 (its tables pack each width into two bits).
#[verifier::external_body]
fn char_columns_exec(c: char) -> (r: Option<usize>)
    ensures
        r == char_columns(c),
        r matches Some(w) ==> w <= 3,
{
    unicode_width::UnicodeWidthChar::width(c)
}

/// Printable ASCII characters occupy exactly one column.
pub open spec fn is_printable_ascii(c: char) -> bool {
    c >= ' ' && '\u{7f}' > c
}

/// The columns one character occupies: one for printable ASCII, the Unicode
/// width otherwise (wide characters two, combining marks none), and no
/// columns for control codes.
pub open spec fn char_width(c: char) -> nat {
    if is_printable_ascii(c) {
        1
    } else {
        match char_columns(c) {
            Some(w) => w as nat,
            None => 0,
        }
    }
}

/// The display width of a line: the sum of its characters' widths.
pub open spec fn text_width(s: Seq<char>) -> nat
    decreases s.len(),
{
    if s.len() == 0 {
        0
    } else {
        text_width(s.drop_last()) + char_width(s.last())
    }
}

/// `n` copies of `c`.
pub open spec fn repeat(c: char, n: nat) -> Seq<char> {
    Seq::new(n, |i: int| c)
}

/// A run of a one-column character is as wide as it is long.
pub proof fn lemma_repeat_width(c: char, n: nat)
    requires
        char_width(c) == 1,
    ensures
        text_width(repeat(c, n)) == n,
    decreases n,
{
    if n > 0 {
        lemma_repeat_width(c, (n - 1) as nat);
        assert(repeat(c, n).drop_last() =~= repeat(c, (n - 1) as nat));
    }
}

/// Width is additive over concatenation.
pub proof fn lemma_text_width_concat(a: Seq<char>, b: Seq<char>)
    ensures
        text_width(a + b) == text_width(a) + text_width(b),
    decreases b.len(),
{
    if b.len() == 0 {
        assert(a + b =~= a);
    } else {
        lemma_text_width_concat(a, b.drop_last());
        assert((a + b).drop_last() =~= a + b.drop_last());
        assert((a + b).last() == b.last());
    }
}

/// The columns a character occupies on a terminal.
pub fn char_display_width(c: char) -> (r: usize)
    ensures
        r == char_width(c),
        r <= 3,
{
    if c >= ' ' && '\u{7f}' > c {
        1
    } else {
        match char_columns_exec(c) {
            Some(w) => w,
            None => 0,
        }
    }
}

/// The display width of a line of text.
pub fn display_width(s: &Vec<char>) -> (r: usize)
    requires
        s@.len() <= MAX_LINE_CHARS,
    ensures
        r == text_width(s@),
        r <= 3 * s@.len(),
{
    let mut total: usize = 0;
    let mut i: usize = 0;
    while i < s.len()
        invariant
            i <= s@.len(),
            s@.len() <= MAX_LINE_CHARS,
            total == text_width(s@.subrange(0, i as int)),
            total <= 3 * i,
        decreases s@.len() - i,
    {
        proof {
            assert(s@.subrange(0, i + 1).drop_last() =~= s@.subrange(0, i as int));
        }
        total = total + char_display_width(s[i]);
        i = i + 1;
    }
    assert(s@.subrange(0, i as int) =~= s@);
    total
}

} // verus!
