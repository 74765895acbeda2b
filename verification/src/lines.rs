//! Building multi-line text reports line by line.
use vstd::prelude::*;

use crate::items::names;
use crate::text::{decimal, push_char, push_decimal, push_str};

verus! {

/// The lines joined with `\n` between them.
pub open spec fn join_lines(lines: Seq<Seq<char>>) -> Seq<char>
    decreases lines.len(),
{
    if lines.len() == 0 {
        seq![]
    } else if lines.len() == 1 {
        lines[0]
    } else {
        join_lines(lines.drop_last()) + seq!['\n'] + lines.last()
    }
}

/// Joins the lines with `\n` between them.
pub fn join(lines: &Vec<String>) -> (s: String)
    ensures
        s@ == join_lines(names(lines@)),
{
    let mut s = String::new();
    let mut i: usize = 0;
    while i < lines.len()
        invariant
            i <= lines@.len(),
            s@ == join_lines(names(lines@.take(i as int))),
        decreases lines@.len() - i,
    {
        assert(names(lines@.take(i + 1)).drop_last() =~= names(lines@.take(i as int)));
        if i > 0 {
            push_char(&mut s, '\n');
        }
        push_str(&mut s, lines[i].as_str());
        i += 1;
        assert(names(lines@.take(i as int)).last() == lines@[i - 1]@);
    }
    assert(lines@.take(lines@.len() as int) =~= lines@);
    s
}

/// Appends a line.
pub fn push_line(lines: &mut Vec<String>, text: &str)
    ensures
        names(final(lines)@) == names(old(lines)@).push(text@),
{
    lines.push(String::from_str(text));
    assert(names(lines@) =~= names(old(lines)@).push(text@));
}

/// A label followed by a number.
pub open spec fn count_line(label: Seq<char>, n: nat) -> Seq<char> {
    label + decimal(n)
}

/// Appends `label` followed by the decimal number `n`.
pub fn push_count_line(lines: &mut Vec<String>, label: &str, n: usize)
    ensures
        names(final(lines)@) == names(old(lines)@).push(count_line(label@, n as nat)),
{
    let mut s = String::from_str(label);
    push_decimal(&mut s, n);
    lines.push(s);
    assert(names(lines@) =~= names(old(lines)@).push(count_line(label@, n as nat)));
}

/// A label followed by `done/total`.
pub open spec fn progress_line(label: Seq<char>, done: nat, total: nat) -> Seq<char> {
    label + decimal(done) + seq!['/'] + decimal(total)
}

/// Appends `label` followed by `done/total`.
pub fn push_progress_line(lines: &mut Vec<String>, label: &str, done: usize, total: usize)
    ensures
        names(final(lines)@) == names(old(lines)@).push(progress_line(label@, done as nat, total as nat)),
{
    let mut s = String::from_str(label);
    push_decimal(&mut s, done);
    push_char(&mut s, '/');
    push_decimal(&mut s, total);
    assert(s@ =~= progress_line(label@, done as nat, total as nat));
    lines.push(s);
    assert(names(lines@) =~= names(old(lines)@).push(progress_line(label@, done as nat, total as nat)));
}

/// Appends copies of `values`.
pub fn extend_lines(lines: &mut Vec<String>, values: &Vec<String>)
    ensures
        names(final(lines)@) == names(old(lines)@) + names(values@),
{
    let mut i: usize = 0;
    while i < values.len()
        invariant
            i <= values@.len(),
            names(lines@) == names(old(lines)@) + names(values@.take(i as int)),
        decreases values@.len() - i,
    {
        let ghost prev = lines@;
        let v = values[i].clone();
        lines.push(v);
        assert(names(lines@) =~= names(prev).push(values@[i as int]@));
        assert(names(values@.take(i + 1)) =~= names(values@.take(i as int)).push(values@[i as int]@));
        i += 1;
        assert(names(lines@) =~= names(old(lines)@) + names(values@.take(i as int)));
    }
    assert(values@.take(values@.len() as int) =~= values@);
}

} // verus!
