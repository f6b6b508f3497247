//! Reading the position lists of a results page.
//!
//! The page names the questions that were answered correctly, and those
//! that were not, by their positions in free text, such as
//! `"Câu đúng: 1, 3, 5"`. The positions are the maximal runs of decimal
//! digits in that text.

use vstd::prelude::*;
use crate::number::{digit_value, is_digit};
use crate::text::chars_of;

verus! {

/// What a scan from left to right has found: the numbers whose digit runs
/// are complete, and the value of the run that is still open, if any.
pub struct Scan {
    pub done: Seq<usize>,
    pub run: Option<nat>,
}

/// `done` with the value `v` of a finished run: a value that does not fit
/// the machine word is left out.
pub open spec fn with_run(done: Seq<usize>, v: nat) -> Seq<usize> {
    if v <= usize::MAX {
        done.push(v as usize)
    } else {
        done
    }
}

/// The state of the scan after all of `s`.
pub open spec fn scan(s: Seq<char>) -> Scan
    decreases s.len(),
{
    if s.len() == 0 {
        Scan { done: Seq::<usize>::empty(), run: None }
    } else {
        let before = scan(s.drop_last());
        let c = s.last();
        if is_digit(c) {
            match before.run {
                Some(v) => Scan { done: before.done, run: Some(v * 10 + digit_value(c)) },
                None => Scan { done: before.done, run: Some(digit_value(c)) },
            }
        } else {
            match before.run {
                Some(v) => Scan { done: with_run(before.done, v), run: None },
                None => before,
            }
        }
    }
}

/// The numbers written in `s`: the value of each maximal run of decimal
/// digits, in order, without those that do not fit the machine word.
pub open spec fn numbers_in(s: Seq<char>) -> Seq<usize> {
    match scan(s).run {
        Some(v) => with_run(scan(s).done, v),
        None => scan(s).done,
    }
}

/// A text without a digit holds no number.
pub proof fn lemma_no_digit_no_number(s: Seq<char>)
    requires
        forall|i: int| 0 <= i < s.len() ==> !is_digit(#[trigger] s[i]),
    ensures
        numbers_in(s) == Seq::<usize>::empty(),
        scan(s).run is None,
    decreases s.len(),
{
    if s.len() > 0 {
        let t = s.drop_last();
        assert forall|i: int| 0 <= i < t.len() implies !is_digit(#[trigger] t[i]) by {
            assert(t[i] == s[i]);
        }
        lemma_no_digit_no_number(t);
    }
}

/// The numbers written in `data`, in order: every maximal run of decimal
/// digits gives one, unless its value does not fit the machine word.
pub fn num_list(data: &str) -> (r: Vec<usize>)
    ensures
        r@ == numbers_in(data@),
{
    let chars = chars_of(data);
    let mut done: Vec<usize> = Vec::new();
    let mut in_run = false;
    let mut over = false;
    let mut value: usize = 0;
    let mut i: usize = 0;
    proof {
        assert(chars@.take(0) == Seq::<char>::empty());
    }
    while i < chars.len()
        invariant
            i <= chars.len(),
            done@ == scan(chars@.take(i as int)).done,
            in_run == (scan(chars@.take(i as int)).run is Some),
            in_run && !over ==> scan(chars@.take(i as int)).run == Some(value as nat),
            in_run && over ==> scan(chars@.take(i as int)).run->0 > usize::MAX,
        decreases chars.len() - i,
    {
        let c = chars[i];
        proof {
            assert(chars@.take(i + 1).drop_last() == chars@.take(i as int));
            assert(chars@.take(i + 1).last() == c);
        }
        if '0' <= c && c <= '9' {
            let d: usize = (c as u32 - '0' as u32) as usize;
            if !in_run {
                in_run = true;
                over = false;
                value = d;
            } else if !over {
                if value > (usize::MAX - d) / 10 {
                    over = true;
                } else {
                    value = value * 10 + d;
                }
            }
        } else {
            if in_run && !over {
                done.push(value);
            }
            in_run = false;
        }
        i += 1;
    }
    proof {
        assert(chars@.take(chars.len() as int) == chars@);
    }
    if in_run && !over {
        done.push(value);
    }
    done
}

} // verus!
