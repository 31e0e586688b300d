//! A level: the commands of a script, in the order in which it writes them.

use crate::command::{
    held_after, lemma_held_after_concat, lemma_token_range, lemma_trigger_releases, parsed,
    rejection, Action, Command,
};
use crate::keyboard::KeyBoard;
use crate::text::{chars_of, split, split_str, trim, trim_str};
use std::str::FromStr;
use vstd::multiset::Multiset;
use vstd::prelude::*;

verus! {

/// A line of a script: its number in the file and its text.
pub type Line = (usize, Seq<char>);

/// Whether the line is a comment: trimmed, it starts with `#`.
pub open spec fn is_comment(text: Seq<char>) -> bool {
    trim(text).len() > 0 && trim(text)[0] == '#'
}

/// Whether the line is empty: it holds nothing but white space.
pub open spec fn is_blank(text: Seq<char>) -> bool {
    trim(text).len() == 0
}

/// Whether loading passes over the line as a whole.
pub open spec fn is_skipped(text: Seq<char>) -> bool {
    is_comment(text) || is_blank(text)
}

/// The commands that the given tokens write, in order. Each token is trimmed;
/// one that then is no token of the grammar writes nothing.
pub open spec fn tokens_commands(tokens: Seq<Seq<char>>) -> Seq<Command>
    decreases tokens.len(),
{
    if tokens.len() == 0 {
        Seq::empty()
    } else {
        let before = tokens_commands(tokens.drop_last());
        match parsed(trim(tokens.last())) {
            Some(command) => before.push(command),
            None => before,
        }
    }
}

/// The commands that a line writes: those of its comma separated tokens.
pub open spec fn line_commands(text: Seq<char>) -> Seq<Command> {
    tokens_commands(split(text, ','))
}

/// The commands that a script writes: those of its lines, in order, but for
/// the comments and the empty lines.
pub open spec fn script_commands(lines: Seq<Line>) -> Seq<Command>
    decreases lines.len(),
{
    if lines.len() == 0 {
        Seq::empty()
    } else {
        let before = script_commands(lines.drop_last());
        if is_skipped(lines.last().1) {
            before
        } else {
            before + line_commands(lines.last().1)
        }
    }
}

/// What loading a script passed over, for the caller to report.
pub enum Notice {
    /// The line of this number is a comment.
    Comment(usize),
    /// The line of this number is empty.
    Empty(usize),
    /// A token in the line of this number is no command; the text rejects it.
    Rejected(usize, String),
}

/// A [`Notice`] with its text as a sequence of characters.
pub enum NoticeView {
    Comment(usize),
    Empty(usize),
    Rejected(usize, Seq<char>),
}

impl View for Notice {
    type V = NoticeView;

    open spec fn view(&self) -> NoticeView {
        match self {
            Notice::Comment(number) => NoticeView::Comment(*number),
            Notice::Empty(number) => NoticeView::Empty(*number),
            Notice::Rejected(number, text) => NoticeView::Rejected(*number, text@),
        }
    }
}

impl DeepView for Notice {
    type V = NoticeView;

    open spec fn deep_view(&self) -> NoticeView {
        self@
    }
}

/// The notices for the given tokens of the line `number`, in order: one for
/// each token that, trimmed, is no token of the grammar.
pub open spec fn tokens_notices(number: usize, tokens: Seq<Seq<char>>) -> Seq<NoticeView>
    decreases tokens.len(),
{
    if tokens.len() == 0 {
        Seq::empty()
    } else {
        let before = tokens_notices(number, tokens.drop_last());
        match parsed(trim(tokens.last())) {
            Some(_) => before,
            None => before.push(NoticeView::Rejected(number, rejection(trim(tokens.last())))),
        }
    }
}

/// The notices for a line that is neither a comment nor empty: those for its
/// comma separated tokens.
pub open spec fn line_notices(line: Line) -> Seq<NoticeView> {
    tokens_notices(line.0, split(line.1, ','))
}

/// The notices for a script, in order: one for each comment and each empty
/// line, and those for the tokens of the other lines.
pub open spec fn script_notices(lines: Seq<Line>) -> Seq<NoticeView>
    decreases lines.len(),
{
    if lines.len() == 0 {
        Seq::empty()
    } else {
        let before = script_notices(lines.drop_last());
        let line = lines.last();
        if is_comment(line.1) {
            before.push(NoticeView::Comment(line.0))
        } else if is_blank(line.1) {
            before.push(NoticeView::Empty(line.0))
        } else {
            before + line_notices(line)
        }
    }
}

/// The steps of replaying the given commands on `keyboard`, one command after
/// the other.
pub open spec fn commands_actions(commands: Seq<Command>, keyboard: &KeyBoard) -> Seq<Action>
    decreases commands.len(),
{
    if commands.len() == 0 {
        Seq::empty()
    } else {
        commands_actions(commands.drop_last(), keyboard) + commands.last().actions(keyboard)
    }
}

/// No token is lost without a word: each token either writes a command or is
/// rejected with a notice.
pub proof fn lemma_every_token_accounted(number: usize, tokens: Seq<Seq<char>>)
    ensures
        tokens_commands(tokens).len() + tokens_notices(number, tokens).len() == tokens.len(),
    decreases tokens.len(),
{
    if tokens.len() > 0 {
        lemma_every_token_accounted(number, tokens.drop_last());
    }
}

/// Every command that tokens write has a range that a token can write.
pub proof fn lemma_tokens_commands_wf(tokens: Seq<Seq<char>>)
    ensures
        forall|i: int| 0 <= i < tokens_commands(tokens).len() ==> tokens_commands(tokens)[i].wf(),
    decreases tokens.len(),
{
    if tokens.len() > 0 {
        let before = tokens_commands(tokens.drop_last());
        let all = tokens_commands(tokens);
        lemma_tokens_commands_wf(tokens.drop_last());
        if parsed(trim(tokens.last())) is Some {
            lemma_token_range(trim(tokens.last()));
        }
        assert forall|i: int| 0 <= i < all.len() implies all[i].wf() by {
            if i < before.len() {
                assert(all[i] == before[i]);
            }
        }
    }
}

/// Every command of a script has a range that a token can write.
pub proof fn lemma_script_commands_wf(lines: Seq<Line>)
    ensures
        forall|i: int| 0 <= i < script_commands(lines).len() ==> script_commands(lines)[i].wf(),
    decreases lines.len(),
{
    if lines.len() > 0 {
        let before = script_commands(lines.drop_last());
        let added = line_commands(lines.last().1);
        let all = script_commands(lines);
        lemma_script_commands_wf(lines.drop_last());
        lemma_tokens_commands_wf(split(lines.last().1, ','));
        assert forall|i: int| 0 <= i < all.len() implies all[i].wf() by {
            if i < before.len() {
                assert(all[i] == before[i]);
            } else {
                assert(all[i] == added[i - before.len()]);
            }
        }
    }
}

/// The commands of a script in two parts are those of the first part followed
/// by those of the second.
pub proof fn lemma_script_commands_concat(first: Seq<Line>, second: Seq<Line>)
    ensures
        script_commands(first + second) == script_commands(first) + script_commands(second),
    decreases second.len(),
{
    if second.len() > 0 {
        lemma_script_commands_concat(first, second.drop_last());
        assert((first + second).drop_last() == first + second.drop_last());
    }
}

/// A comment or an empty line, inserted anywhere in a script, changes neither
/// the commands that the script writes nor their order.
pub proof fn lemma_skipped_line_changes_nothing(lines: Seq<Line>, at: int, line: Line)
    requires
        0 <= at <= lines.len(),
        is_skipped(line.1),
    ensures
        script_commands(lines.insert(at, line)) == script_commands(lines),
{
    let before = lines.take(at);
    let after = lines.skip(at);
    assert(lines.insert(at, line) == before + seq![line] + after);
    assert(lines == before + after);
    assert(script_commands(seq![line]) == Seq::<Command>::empty()) by {
        assert(seq![line].drop_last() == Seq::<Line>::empty());
        assert(script_commands(Seq::<Line>::empty()) == Seq::<Command>::empty());
    }
    lemma_script_commands_concat(before, seq![line]);
    lemma_script_commands_concat(before + seq![line], after);
    lemma_script_commands_concat(before, after);
}

/// The steps of replaying commands in two parts are those of the first part
/// followed by those of the second.
pub proof fn lemma_commands_actions_concat(
    first: Seq<Command>,
    second: Seq<Command>,
    keyboard: &KeyBoard,
)
    ensures
        commands_actions(first + second, keyboard) == commands_actions(first, keyboard)
            + commands_actions(second, keyboard),
    decreases second.len(),
{
    if second.len() > 0 {
        lemma_commands_actions_concat(first, second.drop_last(), keyboard);
        assert((first + second).drop_last() == first + second.drop_last());
    }
}

/// Between two commands no key is left pressed: replaying any commands, and
/// so any first part of a level, leaves held exactly the keys that were held
/// before.
pub proof fn lemma_run_releases(commands: Seq<Command>, keyboard: &KeyBoard, held: Multiset<u16>)
    ensures
        held_after(held, commands_actions(commands, keyboard)) == held,
    decreases commands.len(),
{
    if commands.len() > 0 {
        let before = commands_actions(commands.drop_last(), keyboard);
        lemma_run_releases(commands.drop_last(), keyboard, held);
        lemma_held_after_concat(held, before, commands.last().actions(keyboard));
        lemma_trigger_releases(commands.last(), keyboard, held);
    }
}

/// The commands of a level, in the order in which they are replayed.
pub struct Sequence {
    commands: Vec<Command>,
}

impl View for Sequence {
    type V = Seq<Command>;

    closed spec fn view(&self) -> Seq<Command> {
        self.commands@
    }
}

impl Sequence {
    /// Whether the line is no comment.
    pub fn is_no_comment(line: &(usize, String)) -> (b: bool)
        ensures
            b == !is_comment(line.1@),
    {
        let trimmed = chars_of(trim_str(line.1.as_str()));
        !(trimmed.len() > 0 && trimmed[0] == '#')
    }

    /// Whether the line holds more than white space.
    pub fn is_not_empty(line: &(usize, String)) -> (b: bool)
        ensures
            b == !is_blank(line.1@),
    {
        let trimmed = chars_of(trim_str(line.1.as_str()));
        trimmed.len() != 0
    }

    /// The commands that the line writes, and a notice for each token that is
    /// no command: such a token is dropped, and the rest of the line still
    /// counts.
    pub fn parse_line(line: (usize, String)) -> (found: (Vec<Command>, Vec<Notice>))
        ensures
            found.0@ == line_commands(line.1@),
            found.1.deep_view() == line_notices((line.0, line.1@)),
    {
        let tokens = split_str(line.1.as_str(), ',');
        let mut commands: Vec<Command> = Vec::new();
        let mut notices: Vec<Notice> = Vec::new();
        let ghost texts = split(line.1@, ',');
        let mut i: usize = 0;
        while i < tokens.len()
            invariant
                i <= tokens@.len() == texts.len(),
                forall|k: int| 0 <= k < tokens@.len() ==> tokens@[k]@ == texts[k],
                commands@ == tokens_commands(texts.take(i as int)),
                notices.deep_view() == tokens_notices(line.0, texts.take(i as int)),
            decreases tokens@.len() - i,
        {
            assert(texts.take(i + 1).drop_last() == texts.take(i as int));
            match Command::from_str(trim_str(tokens[i])) {
                Ok(command) => {
                    commands.push(command);
                },
                Err(text) => {
                    notices.push(Notice::Rejected(line.0, text));
                },
            }
            i += 1;
        }
        assert(texts.take(i as int) == texts);
        (commands, notices)
    }

    /// The level that the lines of a script file make, and what loading it
    /// passed over. The level holds the commands of the lines, in order.
    /// Comments and empty lines are passed over, and so is each token that is
    /// no command; nothing of that makes the load fail.
    pub fn from_file(lines: Vec<(usize, String)>) -> (loaded: (Sequence, Vec<Notice>))
        ensures
            loaded.0@ == script_commands(lines.deep_view()),
            loaded.1.deep_view() == script_notices(lines.deep_view()),
    {
        let mut commands: Vec<Command> = Vec::new();
        let mut notices: Vec<Notice> = Vec::new();
        let ghost texts = lines.deep_view();
        for line in it: lines
            invariant
                it.seq() == lines@,
                texts == lines.deep_view(),
                commands@ == script_commands(texts.take(it.index() as int)),
                notices.deep_view() == script_notices(texts.take(it.index() as int)),
        {
            assert(texts.take(it.index() + 1).drop_last() == texts.take(it.index() as int));
            if !Sequence::is_no_comment(&line) {
                notices.push(Notice::Comment(line.0));
            } else if !Sequence::is_not_empty(&line) {
                notices.push(Notice::Empty(line.0));
            } else {
                let (mut more, mut rejected) = Sequence::parse_line(line);
                commands.append(&mut more);
                notices.append(&mut rejected);
            }
        }
        assert(texts.take(texts.len() as int) == texts);
        (Sequence { commands }, notices)
    }

    /// The commands, in order.
    pub fn commands(&self) -> (commands: &Vec<Command>)
        ensures
            commands@ == self@,
    {
        &self.commands
    }

    /// The number of commands.
    pub fn len(&self) -> (n: usize)
        ensures
            n == self@.len(),
    {
        self.commands.len()
    }

    /// The steps of replaying the level on `keyboard`: those of each command,
    /// one command after the other. The caller performs them in this order.
    pub fn run(&self, keyboard: &KeyBoard) -> (actions: Vec<Action>)
        ensures
            actions@ == commands_actions(self@, keyboard),
    {
        let mut actions: Vec<Action> = Vec::new();
        let mut i: usize = 0;
        while i < self.commands.len()
            invariant
                i <= self.commands@.len(),
                actions@ == commands_actions(self.commands@.take(i as int), keyboard),
            decreases self.commands@.len() - i,
        {
            assert(self.commands@.take(i + 1).drop_last() == self.commands@.take(i as int));
            let mut more = self.commands[i].trigger(keyboard);
            actions.append(&mut more);
            i += 1;
        }
        assert(self.commands@.take(i as int) == self.commands@);
        actions
    }
}

} // verus!
