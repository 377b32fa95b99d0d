//! Questions put to the user and the answers read back, on input and
//! output that are held in memory.

use vstd::prelude::*;
use vstd::string::*;
use crate::text::chars_of;
use crate::text::string_of;
use crate::text::trim_text;
use crate::text::trimmed_text;

verus! {

/// A question to put to the user.
#[derive(Debug, Clone)]
pub struct Question {
    pub _type: String,
    pub name: String,
    pub message: String,
}

impl Question {
    /// A question that is answered by typing a line.
    pub fn new(name: &str, message: &str) -> (r: Question)
        ensures
            r._type@ == "input"@,
            r.name@ == name@,
            r.message@ == message@,
    {
        Question {
            _type: String::from_str("input"),
            name: String::from_str(name),
            message: String::from_str(message),
        }
    }
}

/// What the user answered to the question of the same name.
#[derive(Debug, Clone)]
pub struct Answer {
    pub _type: String,
    pub name: String,
    pub value: String,
}

impl Answer {
    /// An answer that was typed as a line.
    pub fn new(name: &str, value: &str) -> (r: Answer)
        ensures
            r._type@ == "input"@,
            r.name@ == name@,
            r.value@ == value@,
    {
        Answer {
            _type: String::from_str("input"),
            name: String::from_str(name),
            value: String::from_str(value),
        }
    }
}

/// The length of the first line of `s`, its line feed included; the whole
/// length where `s` has no line feed.
pub open spec fn line_length(s: Seq<char>) -> int
    decreases s.len(),
{
    if s.len() == 0 {
        0
    } else if s[0] == '\n' {
        1
    } else {
        1 + line_length(s.drop_first())
    }
}

/// The first line of `s`, with its line feed.
pub open spec fn first_line(s: Seq<char>) -> Seq<char> {
    s.take(line_length(s))
}

/// What follows the first line of `s`.
pub open spec fn after_first_line(s: Seq<char>) -> Seq<char> {
    s.skip(line_length(s))
}

/// Where no character before place `j` of `s` is a line feed, the first
/// line ends with the line feed at `j`, or with `s` where `j` is its end.
proof fn lemma_line_length_at(s: Seq<char>, j: int)
    requires
        0 <= j <= s.len(),
        forall|k: int| 0 <= k < j ==> s[k] != '\n',
        j == s.len() || s[j] == '\n',
    ensures
        line_length(s) == (if j == s.len() {
            j
        } else {
            j + 1
        }),
    decreases j,
{
    if j > 0 {
        let t = s.drop_first();
        lemma_line_length_at(t, j - 1);
    }
}

/// Text that is read line by line. Its view is what has not been read yet.
pub struct Input {
    rest: Vec<char>,
}

impl View for Input {
    type V = Seq<char>;

    closed spec fn view(&self) -> Seq<char> {
        self.rest@
    }
}

impl Input {
    /// Input that holds `text`.
    pub fn new(text: &str) -> (r: Input)
        ensures
            r@ == text@,
    {
        Input { rest: chars_of(text) }
    }

    /// Reads the next line, with its line feed where it has one. At the end
    /// of the input the line is empty.
    pub fn read_line(&mut self) -> (line: String)
        ensures
            line@ == first_line(old(self)@),
            final(self)@ == after_first_line(old(self)@),
    {
        let total = self.rest.len();
        let mut end: usize = 0;
        while end < total && self.rest[end] != '\n'
            invariant
                end <= total,
                total == self.rest.len(),
                self.rest@ == old(self).rest@,
                forall|k: int| 0 <= k < end ==> self.rest[k] != '\n',
            decreases total - end,
        {
            end += 1;
        }
        proof {
            lemma_line_length_at(self.rest@, end as int);
        }
        let stop: usize = if end < total {
            end + 1
        } else {
            end
        };
        let mut line: Vec<char> = Vec::new();
        let mut rest: Vec<char> = Vec::new();
        let mut i: usize = 0;
        while i < total
            invariant
                i <= total,
                stop <= total,
                total == self.rest.len(),
                self.rest@ == old(self).rest@,
                line@ == self.rest@.take(if i < stop { i as int } else { stop as int }),
                rest@ == self.rest@.subrange(stop as int, if i < stop { stop as int } else { i as int }),
            decreases total - i,
        {
            if i < stop {
                line.push(self.rest[i]);
            } else {
                rest.push(self.rest[i]);
            }
            i += 1;
        }
        self.rest = rest;
        string_of(&line)
    }
}

/// The answer that a line gives to a question: its text without the white
/// space around it, and none where nothing is left.
pub open spec fn answer_value(line: Seq<char>) -> Option<Seq<char>> {
    if trimmed_text(line).len() > 0 {
        Some(trimmed_text(line))
    } else {
        None
    }
}

/// What is written to put a question: its message as a line of its own.
pub fn prompt_of(question: &Question) -> (r: String)
    ensures
        r@ == question.message@ + seq!['\n'],
{
    let mut prompt = question.message.clone();
    prompt.push('\n');
    prompt
}

/// The answer that a line gives to a question: what the line holds between
/// the white space at its ends, and none where it holds nothing.
pub fn answer_from_line(question: &Question, line: &str) -> (r: Option<Answer>)
    ensures
        match answer_value(line@) {
            Some(value) => {
                &&& r matches Some(answer)
                &&& answer._type@ == "input"@
                &&& answer.name@ == question.name@
                &&& answer.value@ == value
            },
            None => r is None,
        },
{
    let value = trim_text(line);
    if value.as_str().unicode_len() > 0 {
        Some(Answer::new(question.name.as_str(), value.as_str()))
    } else {
        None
    }
}

/// Puts one question and reads the answer.
///
/// The message of the question is written as a line of its own. One line is
/// read; what it holds between the white space at its ends is the answer,
/// and where it holds nothing there is no answer.
pub fn raw_ask_question(reader: &mut Input, writer: &mut String, question: &Question) -> (r: Option<
    Answer,
>)
    ensures
        final(writer)@ == old(writer)@ + question.message@ + seq!['\n'],
        final(reader)@ == after_first_line(old(reader)@),
        match answer_value(first_line(old(reader)@)) {
            Some(value) => {
                &&& r matches Some(answer)
                &&& answer._type@ == "input"@
                &&& answer.name@ == question.name@
                &&& answer.value@ == value
            },
            None => r is None,
        },
{
    let prompt = prompt_of(question);
    writer.append(prompt.as_str());
    let line = reader.read_line();
    answer_from_line(question, line.as_str())
}

/// What is left of `input` when `count` lines have been read.
pub open spec fn input_after(input: Seq<char>, count: int) -> Seq<char>
    decreases count,
{
    if count <= 0 {
        input
    } else {
        after_first_line(input_after(input, count - 1))
    }
}

/// The messages of the questions, each as a line of its own.
pub open spec fn prompts(questions: Seq<Question>) -> Seq<char>
    decreases questions.len(),
{
    if questions.len() == 0 {
        Seq::empty()
    } else {
        prompts(questions.drop_last()) + questions.last().message@ + seq!['\n']
    }
}

/// The name and value of each answer that the lines of `input` give to the
/// questions, one line to each question; a question without an answer is
/// passed over.
pub open spec fn answers_to(input: Seq<char>, questions: Seq<Question>) -> Seq<
    (Seq<char>, Seq<char>),
>
    decreases questions.len(),
{
    if questions.len() == 0 {
        Seq::empty()
    } else {
        let earlier = answers_to(input, questions.drop_last());
        match answer_value(first_line(input_after(input, questions.len() - 1))) {
            Some(value) => earlier.push((questions.last().name@, value)),
            None => earlier,
        }
    }
}

/// The name and value of each answer.
pub open spec fn answer_views(answers: Seq<Answer>) -> Seq<(Seq<char>, Seq<char>)> {
    Seq::new(answers.len(), |i: int| (answers[i].name@, answers[i].value@))
}

/// Puts the questions one after the other and collects the answers that
/// were given.
pub fn raw_ask_questions(reader: &mut Input, writer: &mut String, questions: &Vec<Question>) -> (r:
    Vec<Answer>)
    ensures
        final(writer)@ == old(writer)@ + prompts(questions@),
        final(reader)@ == input_after(old(reader)@, questions.len() as int),
        answer_views(r@) == answers_to(old(reader)@, questions@),
        forall|i: int| 0 <= i < r.len() ==> (#[trigger] r[i])._type@ == "input"@,
{
    let mut answers: Vec<Answer> = Vec::new();
    let mut i: usize = 0;
    while i < questions.len()
        invariant
            i <= questions.len(),
            writer@ == old(writer)@ + prompts(questions@.take(i as int)),
            reader@ == input_after(old(reader)@, i as int),
            answer_views(answers@) == answers_to(old(reader)@, questions@.take(i as int)),
            forall|k: int| 0 <= k < answers.len() ==> (#[trigger] answers[k])._type@ == "input"@,
        decreases questions.len() - i,
    {
        proof {
            let next = questions@.take(i + 1);
            assert(next.drop_last() =~= questions@.take(i as int));
        }
        match raw_ask_question(reader, writer, &questions[i]) {
            Some(answer) => {
                answers.push(answer);
            },
            None => {},
        }
        i += 1;
    }
    assert(questions@.take(questions.len() as int) =~= questions@);
    answers
}

} // verus!
