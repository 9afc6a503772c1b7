//! Breaking message text into lines for a fixed-width font.
use vstd::prelude::*;
use crate::fields::chars_of;

verus! {

/// The line breaker's state after the first `n` characters of `text`: the
/// finished lines, where the current line starts, and where the last word
/// after a space starts. `|` ends a line; a character that would make the
/// current line longer than `max_chars` moves the line's tail from the last
/// word on to a new line.
pub open spec fn layout_state(text: Seq<char>, max_chars: nat, n: nat) -> (Seq<Seq<char>>, nat, nat)
    decreases n,
{
    if n == 0 {
        (Seq::empty(), 0, 0)
    } else {
        let (lines, start, last_word) = layout_state(text, max_chars, (n - 1) as nat);
        let i = (n - 1) as nat;
        let c = text[i as int];
        if c == '|' {
            (lines.push(text.subrange(start as int, i as int)), n, n)
        } else if c == ' ' {
            (lines, start, n)
        } else if n - start > max_chars {
            (lines.push(text.subrange(start as int, last_word as int)), last_word, last_word)
        } else {
            (lines, start, last_word)
        }
    }
}

/// The lines of `text`: the finished lines, then what remains after the last
/// line start, if anything.
pub open spec fn layout_spec(text: Seq<char>, max_chars: nat) -> Seq<Seq<char>> {
    let (lines, start, _) = layout_state(text, max_chars, text.len());
    if start < text.len() {
        lines.push(text.subrange(start as int, text.len() as int))
    } else {
        lines
    }
}

proof fn lemma_layout_bounds(text: Seq<char>, max_chars: nat, n: nat)
    requires
        n <= text.len(),
    ensures
        ({
            let (lines, start, last_word) = layout_state(text, max_chars, n);
            start <= last_word <= n
        }),
    decreases n,
{
    if n > 0 {
        lemma_layout_bounds(text, max_chars, (n - 1) as nat);
    }
}

pub open spec fn lines_view(v: Seq<String>) -> Seq<Seq<char>> {
    v.map_values(|s: String| s@)
}

/// Breaks `text` into lines of at most `max_chars` characters where word
/// boundaries allow, and at every `|`.
pub fn lay_out_text(max_chars: usize, text: &str) -> (r: Vec<String>)
    ensures
        lines_view(r@) == layout_spec(text@, max_chars as nat),
{
    let chars = chars_of(text);
    let n = chars.len();
    let mut lines: Vec<String> = Vec::new();
    let mut start: usize = 0;
    let mut last_word: usize = 0;
    let mut i: usize = 0;
    while i < n
        invariant
            n == text@.len(),
            chars@ == text@,
            i <= n,
            (lines_view(lines@), start as nat, last_word as nat) == layout_state(text@, max_chars as nat, i as nat),
        decreases n - i,
    {
        proof {
            lemma_layout_bounds(text@, max_chars as nat, i as nat);
        }
        let c = chars[i];
        if c == '|' {
            lines.push(text.substring_char(start, i).to_owned());
            start = i + 1;
            last_word = start;
        } else if c == ' ' {
            last_word = i + 1;
        } else if i + 1 - start > max_chars {
            lines.push(text.substring_char(start, last_word).to_owned());
            start = last_word;
        }
        i = i + 1;
    }
    if start < n {
        lines.push(text.substring_char(start, n).to_owned());
    }
    lines
}

} // verus!
