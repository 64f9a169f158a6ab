//! Building display text.

use vstd::prelude::*;
use vstd::string::{StringExecFns, StringSliceAdditionalSpecFns};

verus! {

/// `String::push`: appends the character `c` to the end of `s`.
#[verifier::external_body]
pub(crate) fn push_char(s: &mut String, c: char)
    ensures
        final(s)@ == old(s)@.push(c),
{
    s.push(c);
}

/// The characters of `s`.
pub(crate) fn str_chars(s: &str) -> (r: Vec<char>)
    ensures
        r@ == s@,
{
    broadcast use vstd::string::group_string_axioms;

    let mut chars: Vec<char> = Vec::new();
    for c in iter: s.chars()
        invariant
            chars@ == iter.seq().take(iter.index() as int),
    {
        chars.push(c);
    }
    chars
}

/// The display width of a line's name: its length in bytes.
pub open spec fn name_width(line: Option<(&str, String)>) -> nat {
    match line {
        Some((name, _)) => name.spec_bytes().len(),
        None => 0,
    }
}

/// The greatest name width among the lines.
pub open spec fn max_name_width(lines: Seq<Option<(&str, String)>>) -> nat
    decreases lines.len(),
{
    if lines.len() == 0 {
        0
    } else {
        let rest = max_name_width(lines.drop_last());
        let last = name_width(lines.last());
        if rest >= last {
            rest
        } else {
            last
        }
    }
}

/// One line of a table whose left column is `width` wide: the name, dot padding and the value,
/// or nothing for an empty line; a line break follows, unless it's the last line.
pub open spec fn table_line(line: Option<(&str, String)>, width: nat, last: bool) -> Seq<char> {
    let newline = if last {
        Seq::<char>::empty()
    } else {
        seq!['\n']
    };
    match line {
        Some((name, value)) => name@ + seq![' '] + Seq::new(
            (width - name.spec_bytes().len()) as nat,
            |i: int| '.',
        ) + seq![' '] + value@ + newline,
        None => newline,
    }
}

/// The first `k` lines of a table whose left column is `width` wide.
pub open spec fn table_text(lines: Seq<Option<(&str, String)>>, width: nat, k: nat) -> Seq<char>
    decreases k,
{
    if k == 0 {
        Seq::empty()
    } else {
        table_text(lines, width, (k - 1) as nat) + table_line(
            lines[k - 1],
            width,
            k == lines.len(),
        )
    }
}

proof fn lemma_max_name_width(lines: Seq<Option<(&str, String)>>, i: int)
    requires
        0 <= i < lines.len(),
    ensures
        name_width(lines[i]) <= max_name_width(lines),
    decreases lines.len(),
{
    if i < lines.len() - 1 {
        lemma_max_name_width(lines.drop_last(), i);
    }
}

/// Appends a two-column table to `out`: each line holds a name, dots up to a common column and
/// a value (`None` makes an empty line). The dots are at least two.
pub fn write_table<'a>(out: &mut String, lines: &[Option<(&'a str, String)>])
    requires
        max_name_width(lines@) + 2 <= usize::MAX,
    ensures
        final(out)@ == old(out)@ + table_text(lines@, max_name_width(lines@) + 2, lines@.len()),
{
    let min_dots: usize = 2;
    let mut max_width: usize = 0;
    let mut i: usize = 0;
    while i < lines.len()
        invariant
            i <= lines@.len(),
            max_width == max_name_width(lines@.take(i as int)),
            max_name_width(lines@) + 2 <= usize::MAX,
        decreases lines@.len() - i,
    {
        proof {
            assert(lines@.take(i + 1).drop_last() =~= lines@.take(i as int));
            lemma_max_name_width(lines@, i as int);
        }
        if let Some((name, _)) = &lines[i] {
            if name.len() > max_width {
                max_width = name.len();
            }
        }
        i = i + 1;
    }
    assert(lines@.take(lines@.len() as int) =~= lines@);
    let left_col_width = max_width + min_dots;

    let ghost start = out@;
    let mut i: usize = 0;
    while i < lines.len()
        invariant
            i <= lines@.len(),
            left_col_width == max_name_width(lines@) + 2,
            out@ == start + table_text(lines@, left_col_width as nat, i as nat),
        decreases lines@.len() - i,
    {
        proof {
            lemma_max_name_width(lines@, i as int);
        }
        let last = i + 1 == lines.len();
        if let Some((name, value)) = &lines[i] {
            out.append(name);
            push_char(out, ' ');
            let num_dots = left_col_width - name.len();
            let mut j: usize = 0;
            let ghost before_dots = out@;
            while j < num_dots
                invariant
                    j <= num_dots,
                    out@ == before_dots + Seq::new(j as nat, |k: int| '.'),
                decreases num_dots - j,
            {
                push_char(out, '.');
                j = j + 1;
                assert(Seq::new(j as nat, |k: int| '.') =~= Seq::new(
                    (j - 1) as nat,
                    |k: int| '.',
                ).push('.'));
            }
            push_char(out, ' ');
            out.append(value.as_str());
        }
        if !last {
            push_char(out, '\n');
        }
        proof {
            let line = table_line(lines@[i as int], left_col_width as nat, last);
            assert(out@ =~= start + table_text(lines@, left_col_width as nat, i as nat) + line);
        }
        i = i + 1;
    }
}

} // verus!
