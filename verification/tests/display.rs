use lmaobgd::display::{
    dump_file_name, dump_line, process_answer, process_answer2, process_question,
    process_question2,
};

const RAW_QUESTION: &str =
    "Câu 1\n  What is two plus two?  \nA:\nthree\nB:\nfour\nC:\nfive\nD:\nsix\n";

#[test]
fn question_heading_and_prompt() {
    assert_eq!(process_question(RAW_QUESTION), "Câu 1. What is two plus two?");
    assert_eq!(process_question2(RAW_QUESTION), "What is two plus two?");
}

#[test]
fn question_prompt_of_several_lines() {
    let raw = "Heading\r\nfirst line\r\n\r\n\tsecond line\r\nA: \r\nonly choice";
    assert_eq!(process_question(raw), "Heading. first line\nsecond line");
    assert_eq!(process_question2(raw), "first line\nsecond line");
}

#[test]
fn question_with_label_text_on_the_label_line() {
    // two labels, one other line: nothing can be cut off
    let raw = "A: x\nB: y\nq";
    assert_eq!(process_question(raw), "q. ");
    assert_eq!(process_question2(raw), "");
}

#[test]
fn question_cut_to_nothing() {
    // one label and its one line of text
    let raw = "C:\ntext";
    assert_eq!(process_question(raw), ". ");
    assert_eq!(process_question2(raw), "");
}

#[test]
fn question_labels_are_case_and_colon_sensitive() {
    let raw = "a: lower\nE: beyond\nA :spaced\nAB\n";
    assert_eq!(process_question(raw), "a: lower. E: beyond\nA :spaced\nAB");
    assert_eq!(process_question2(raw), "E: beyond\nA :spaced\nAB");
}

#[test]
fn empty_texts() {
    assert_eq!(process_question(""), ". ");
    assert_eq!(process_question2(""), "");
    assert_eq!(process_answer(""), " ");
    assert_eq!(process_answer2(""), "");
    assert_eq!(process_answer(" \n\t\n\u{a0}\u{3000}\n"), " ");
}

#[test]
fn answer_label_and_text() {
    assert_eq!(process_answer(" B: \r\n\r\n  four \n"), "B: four");
    assert_eq!(process_answer2(" B: \r\n\r\n  four \n"), "four");
}

#[test]
fn answer_of_several_lines() {
    let raw = "D:\n one \n\n two\nthree  ";
    assert_eq!(process_answer(raw), "D: one\ntwo\nthree");
    assert_eq!(process_answer2(raw), "one\ntwo\nthree");
}

#[test]
fn answer_keeps_inner_whitespace() {
    assert_eq!(process_answer("A:\n  a  b\tc  "), "A: a  b\tc");
    assert_eq!(process_answer("only"), "only ");
}

#[test]
fn unicode_whitespace_is_trimmed() {
    assert_eq!(process_answer2("X\n\u{2003}wide\u{2009}\u{85}"), "wide");
    // a zero-width space is no whitespace
    assert_eq!(process_answer2("X\n\u{200b}kept"), "\u{200b}kept");
}

#[test]
fn dump_line_joins_prompt_and_choice() {
    assert_eq!(dump_line(RAW_QUESTION, "B:\nfour"), "What is two plus two?:::four");
    assert_eq!(dump_line("", ""), ":::");
    assert_eq!(dump_file_name("Đề 7"), "Đề 7.txt");
}
