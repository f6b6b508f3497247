//! Clean prompts from the raw text of questions and answer choices.
//!
//! The raw text of a question, as the page renders it, holds a heading, the
//! prompt, and for each choice a label line (`A:` to `D:`) followed by one
//! line of choice text. The raw text of a choice holds its label and its
//! text on separate lines.

use vstd::prelude::*;
use vstd::string::StringExecFns;
use crate::text::{
    clean_lines, clean_lines_of, join_lines, line_views, push_chars, push_joined, string_of,
};

verus! {

/// Whether a trimmed line starts with one of the choice labels `A:`, `B:`,
/// `C:`, `D:`.
pub open spec fn is_label(line: Seq<char>) -> bool {
    line.len() >= 2 && line[1] == ':' && (line[0] == 'A' || line[0] == 'B' || line[0] == 'C'
        || line[0] == 'D')
}

/// `lines` without the label lines.
pub open spec fn without_labels(lines: Seq<Seq<char>>) -> Seq<Seq<char>>
    decreases lines.len(),
{
    if lines.len() == 0 {
        Seq::<Seq<char>>::empty()
    } else if is_label(lines.last()) {
        without_labels(lines.drop_last())
    } else {
        without_labels(lines.drop_last()).push(lines.last())
    }
}

/// How many of `lines` are label lines.
pub open spec fn label_count(lines: Seq<Seq<char>>) -> nat {
    (lines.len() - without_labels(lines).len()) as nat
}

/// The heading and prompt lines of a question: its clean lines without the
/// labels and without as many trailing lines as there were labels (the
/// choice texts). Where there are more labels than other lines, nothing is
/// cut off.
pub open spec fn prompt_lines(q: Seq<char>) -> Seq<Seq<char>> {
    let kept = without_labels(clean_lines(q));
    let n = label_count(clean_lines(q));
    if n <= kept.len() {
        kept.take(kept.len() - n)
    } else {
        kept
    }
}

/// As [`prompt_lines`], but where there are more labels than other lines,
/// nothing is left.
pub open spec fn prompt_lines_strict(q: Seq<char>) -> Seq<Seq<char>> {
    let kept = without_labels(clean_lines(q));
    let n = label_count(clean_lines(q));
    if n <= kept.len() {
        kept.take(kept.len() - n)
    } else {
        Seq::<Seq<char>>::empty()
    }
}

/// The first of `lines`, or nothing where there is none.
pub open spec fn first_line(lines: Seq<Seq<char>>) -> Seq<char> {
    if lines.len() > 0 {
        lines[0]
    } else {
        Seq::<char>::empty()
    }
}

/// All of `lines` but the first.
pub open spec fn rest_lines(lines: Seq<Seq<char>>) -> Seq<Seq<char>> {
    if lines.len() > 0 {
        lines.subrange(1, lines.len() as int)
    } else {
        lines
    }
}

/// What [`process_question`] returns: the heading, a full stop and a space,
/// and the prompt lines joined by line feeds.
pub open spec fn question_display(q: Seq<char>) -> Seq<char> {
    first_line(prompt_lines(q)) + seq!['.', ' '] + join_lines(rest_lines(prompt_lines(q)))
}

/// What [`process_question2`] returns: the prompt lines without the
/// heading, joined by line feeds.
pub open spec fn question_body(q: Seq<char>) -> Seq<char> {
    join_lines(rest_lines(prompt_lines_strict(q)))
}

/// What [`process_answer`] returns: the first clean line, a space, and the
/// other clean lines joined by line feeds.
pub open spec fn answer_display(s: Seq<char>) -> Seq<char> {
    first_line(clean_lines(s)).push(' ') + join_lines(rest_lines(clean_lines(s)))
}

/// What [`process_answer2`] returns: the clean lines but the first, joined
/// by line feeds.
pub open spec fn answer_body(s: Seq<char>) -> Seq<char> {
    join_lines(rest_lines(clean_lines(s)))
}

fn is_label_line(line: &Vec<char>) -> (r: bool)
    ensures
        r == is_label(line@),
{
    line.len() >= 2 && line[1] == ':' && (line[0] == 'A' || line[0] == 'B' || line[0] == 'C'
        || line[0] == 'D')
}

/// The lines of `lines` that are no labels, and the number of those that
/// are.
fn split_labels(lines: &Vec<Vec<char>>) -> (r: (Vec<Vec<char>>, usize))
    ensures
        line_views(r.0@) == without_labels(line_views(lines@)),
        r.1 == label_count(line_views(lines@)),
        r.0.len() + r.1 == lines.len(),
{
    let ghost all = line_views(lines@);
    let mut kept: Vec<Vec<char>> = Vec::new();
    let mut n: usize = 0;
    let mut i: usize = 0;
    proof {
        assert(all.take(0) == Seq::<Seq<char>>::empty());
        assert(line_views(kept@) == Seq::<Seq<char>>::empty());
    }
    while i < lines.len()
        invariant
            i <= lines.len(),
            all == line_views(lines@),
            line_views(kept@) == without_labels(all.take(i as int)),
            kept.len() + n == i,
        decreases lines.len() - i,
    {
        proof {
            assert(all.take(i + 1).drop_last() == all.take(i as int));
            assert(all.take(i + 1).last() == lines@[i as int]@);
        }
        if is_label_line(&lines[i]) {
            n += 1;
        } else {
            let ghost before = line_views(kept@);
            let mut line: Vec<char> = Vec::new();
            push_chars(&mut line, &lines[i]);
            assert(line@ =~= lines@[i as int]@);
            kept.push(line);
            assert(line_views(kept@) == before.push(line@));
        }
        i += 1;
    }
    proof {
        assert(all.take(lines.len() as int) == all);
        assert(line_views(kept@).len() == kept.len());
    }
    (kept, n)
}

fn push_first(out: &mut Vec<char>, lines: &Vec<Vec<char>>, to: usize)
    requires
        to <= lines.len(),
    ensures
        final(out)@ == old(out)@ + first_line(line_views(lines@).take(to as int)),
{
    let ghost start = out@;
    if to > 0 {
        push_chars(out, &lines[0]);
    } else {
        assert(start + Seq::<char>::empty() == start);
    }
}

fn push_rest(out: &mut Vec<char>, lines: &Vec<Vec<char>>, to: usize)
    requires
        to <= lines.len(),
    ensures
        final(out)@ == old(out)@ + join_lines(rest_lines(line_views(lines@).take(to as int))),
{
    let ghost head = line_views(lines@).take(to as int);
    if to > 0 {
        push_joined(out, lines, 1, to);
        assert(rest_lines(head) == line_views(lines@).subrange(1, to as int));
    } else {
        push_joined(out, lines, 0, 0);
        assert(rest_lines(head) == line_views(lines@).subrange(0, 0));
    }
}

/// The display form of a question: its heading, `". "`, and its prompt.
///
/// Label lines are left out, and so are as many trailing lines as there
/// were labels. Where the text holds more labels than other lines, no line
/// is cut off.
pub fn process_question(q: &str) -> (r: String)
    ensures
        r@ == question_display(q@),
{
    let lines = clean_lines_of(q);
    let (kept, n) = split_labels(&lines);
    let to: usize = if n <= kept.len() {
        kept.len() - n
    } else {
        kept.len()
    };
    proof {
        assert(line_views(kept@).take(kept.len() as int) == line_views(kept@));
        assert(line_views(kept@).take(to as int) == prompt_lines(q@));
    }
    let mut out: Vec<char> = Vec::new();
    push_first(&mut out, &kept, to);
    out.push('.');
    out.push(' ');
    push_rest(&mut out, &kept, to);
    proof {
        let p = prompt_lines(q@);
        assert(out@ == Seq::<char>::empty() + first_line(p) + seq!['.', ' '] + join_lines(
            rest_lines(p),
        )) by {
            assert((Seq::<char>::empty() + first_line(p)).push('.').push(' ') == Seq::<
                char,
            >::empty() + first_line(p) + seq!['.', ' ']);
        }
        assert(Seq::<char>::empty() + first_line(p) == first_line(p));
    }
    string_of(&out)
}

/// The prompt of a question alone: as [`process_question`], without the
/// heading and its full stop. Where the text holds more labels than other
/// lines, the result is empty.
pub fn process_question2(q: &str) -> (r: String)
    ensures
        r@ == question_body(q@),
{
    let lines = clean_lines_of(q);
    let (kept, n) = split_labels(&lines);
    let to: usize = if n <= kept.len() {
        kept.len() - n
    } else {
        0
    };
    proof {
        assert(line_views(kept@).take(0) == Seq::<Seq<char>>::empty());
        assert(line_views(kept@).take(to as int) == prompt_lines_strict(q@));
    }
    let mut out: Vec<char> = Vec::new();
    push_rest(&mut out, &kept, to);
    proof {
        assert(Seq::<char>::empty() + question_body(q@) == question_body(q@));
    }
    string_of(&out)
}

/// The display form of an answer choice: its label, a space, and its text.
pub fn process_answer(s: &str) -> (r: String)
    ensures
        r@ == answer_display(s@),
{
    let lines = clean_lines_of(s);
    let to = lines.len();
    proof {
        assert(line_views(lines@).take(to as int) == clean_lines(s@));
    }
    let mut out: Vec<char> = Vec::new();
    push_first(&mut out, &lines, to);
    out.push(' ');
    push_rest(&mut out, &lines, to);
    proof {
        let l = clean_lines(s@);
        assert(Seq::<char>::empty() + first_line(l) == first_line(l));
    }
    string_of(&out)
}

/// The text of an answer choice without its label.
pub fn process_answer2(s: &str) -> (r: String)
    ensures
        r@ == answer_body(s@),
{
    let lines = clean_lines_of(s);
    let to = lines.len();
    proof {
        assert(line_views(lines@).take(to as int) == clean_lines(s@));
    }
    let mut out: Vec<char> = Vec::new();
    push_rest(&mut out, &lines, to);
    proof {
        assert(Seq::<char>::empty() + answer_body(s@) == answer_body(s@));
    }
    string_of(&out)
}

/// One line of a dump of the confirmed answers: the prompt of the question,
/// three colons, and the text of the confirmed choice.
pub fn dump_line(question: &str, answer: &str) -> (r: String)
    ensures
        r@ == question_body(question@) + ":::"@ + answer_body(answer@),
{
    let mut line = process_question2(question);
    line.append(":::");
    let tail = process_answer2(answer);
    line.append(tail.as_str());
    line
}

/// The name of the file that holds the dump of the test group `group`.
pub fn dump_file_name(group: &str) -> (r: String)
    ensures
        r@ == group@ + ".txt"@,
{
    let mut name = String::from_str(group);
    name.append(".txt");
    name
}

} // verus!
