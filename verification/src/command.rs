//! One move or jump of the character: the token that a level script writes it
//! as, and the key inputs and pauses that replaying it takes.

use crate::keyboard::{Key, KeyBoard};
use crate::text::{
    char_is_digit, chars_of, decimal_digits, decimal_of, decimal_string, decimal_value, is_digit,
    lemma_decimal_digits, lemma_decimal_digits_len, lemma_decimal_value_bound,
    lemma_pow10_monotonic, pow10,
};
use crate::win::{key_event, KeyInput, KEYEVENTF_KEYUP};
use vstd::multiset::Multiset;
use vstd::prelude::*;
use vstd::string::StringExecFns;

verus! {

/// Milliseconds between the two key presses, and between the two key
/// releases, of a jump.
pub const LATENCY: u64 = 5;

/// Milliseconds to let pass after a move, before the next command.
pub const WAITTIME: u64 = 25;

/// The largest range that a token can write: four decimal digits.
pub const MAX_RANGE: u64 = 9999;

/// The way the character moves.
#[derive(Clone, Copy, Debug, PartialEq, Eq, Structural)]
pub enum Direction {
    Left,
    Right,
}

/// One action of the character: a move to one side, or a jump to it.
#[derive(Clone, Copy, Debug, PartialEq, Eq, Structural)]
pub struct Command {
    /// The side to move or jump to.
    pub direction: Direction,
    /// How long the action is held, in milliseconds.
    pub range: u64,
    /// Whether the action is a jump.
    pub jump: bool,
}

/// One step of replaying a command.
#[derive(Clone, Copy, Debug, PartialEq, Eq, Structural)]
pub enum Action {
    /// Inject this keyboard input.
    Send(KeyInput),
    /// Let this many milliseconds pass.
    Sleep(u64),
}

/// The tokens of the grammar `[jm][rl][0-9]{1,4}`: `j` for a jump or `m` for a
/// move, `r` for right or `l` for left, then one to four decimal digits.
pub open spec fn is_token(s: Seq<char>) -> bool {
    &&& 3 <= s.len() <= 6
    &&& (s[0] == 'j' || s[0] == 'm')
    &&& (s[1] == 'r' || s[1] == 'l')
    &&& forall|i: int| 2 <= i < s.len() ==> is_digit(#[trigger] s[i])
}

/// The command that a token of the grammar writes.
pub open spec fn token_command(s: Seq<char>) -> Command
    recommends
        is_token(s),
{
    Command {
        direction: if s[1] == 'r' {
            Direction::Right
        } else {
            Direction::Left
        },
        range: decimal_value(s.skip(2)) as u64,
        jump: s[0] == 'j',
    }
}

/// What parsing `s` gives: the command that it writes, if it is a token of
/// the grammar.
pub open spec fn parsed(s: Seq<char>) -> Option<Command> {
    if is_token(s) {
        Some(token_command(s))
    } else {
        None
    }
}

/// The text that rejects `s` as a token: it names `s` and the grammar.
pub open spec fn rejection(s: Seq<char>) -> Seq<char> {
    s + " cannot be parsed into a move command. It must match ^[jm][rl][0-9]{1,4}$"@
}

/// Whether the input releases its key; otherwise it presses it.
pub open spec fn releases(input: KeyInput) -> bool {
    input.flags & KEYEVENTF_KEYUP != 0
}

/// The keys that one more step leaves held: an input that presses adds its
/// key to those held before, an input that releases takes its key away, and a
/// pause changes nothing.
pub open spec fn held_then(held: Multiset<u16>, action: Action) -> Multiset<u16> {
    match action {
        Action::Send(input) => if releases(input) {
            held.remove(input.vk)
        } else {
            held.insert(input.vk)
        },
        Action::Sleep(_) => held,
    }
}

/// The keys that are held once `actions` are performed, in order, with the
/// keys `held` held at the start.
pub open spec fn held_after(held: Multiset<u16>, actions: Seq<Action>) -> Multiset<u16>
    decreases actions.len(),
{
    if actions.len() == 0 {
        held
    } else {
        held_then(held_after(held, actions.drop_last()), actions.last())
    }
}

impl Direction {
    /// The name of the direction.
    pub open spec fn name(self) -> Seq<char> {
        match self {
            Direction::Left => "Left"@,
            Direction::Right => "Right"@,
        }
    }
}

impl Command {
    /// Whether the range is one that a token can write: at most
    /// [`MAX_RANGE`]. Every command that was parsed is so.
    pub open spec fn wf(self) -> bool {
        self.range <= MAX_RANGE
    }

    /// The token that writes this command with the fewest digits.
    pub open spec fn canonical_token(self) -> Seq<char> {
        seq![
            if self.jump {
                'j'
            } else {
                'm'
            },
            if self.direction == Direction::Right {
                'r'
            } else {
                'l'
            },
        ] + decimal_digits(self.range as nat)
    }

    /// The command as a reader is shown it: `Jump` or `Move`, the name of the
    /// direction and the range, with `-` between them.
    pub open spec fn display(self) -> Seq<char> {
        (if self.jump {
            "Jump"@
        } else {
            "Move"@
        }) + "-"@ + self.direction.name() + "-"@ + decimal_digits(self.range as nat)
    }

    /// The steps of replaying this command on `keyboard`, in order.
    ///
    /// A move presses the key of its direction, holds it for the range,
    /// releases it, and lets [`WAITTIME`] pass. A jump presses the jump key,
    /// [`LATENCY`] later the key of its direction, holds both for the range,
    /// releases the jump key, [`LATENCY`] later the key of its direction, and
    /// lets the range pass once more.
    pub open spec fn actions(self, keyboard: &KeyBoard) -> Seq<Action> {
        let side = keyboard.code(Key::toward(self.direction));
        let jump = keyboard.code(Key::Jump);
        if self.jump {
            seq![
                Action::Send(key_event(0, jump)),
                Action::Sleep(LATENCY),
                Action::Send(key_event(0, side)),
                Action::Sleep(self.range),
                Action::Send(key_event(KEYEVENTF_KEYUP, jump)),
                Action::Sleep(LATENCY),
                Action::Send(key_event(KEYEVENTF_KEYUP, side)),
                Action::Sleep(self.range),
            ]
        } else {
            seq![
                Action::Send(key_event(0, side)),
                Action::Sleep(self.range),
                Action::Send(key_event(KEYEVENTF_KEYUP, side)),
                Action::Sleep(WAITTIME),
            ]
        }
    }

    /// The command with the given fields.
    pub fn new(direction: Direction, range: u64, jump: bool) -> (command: Command)
        requires
            range <= MAX_RANGE,
        ensures
            command == (Command { direction, range, jump }),
            command.wf(),
    {
        Command { direction, range, jump }
    }

    /// Whether `s` is a token of the grammar.
    pub fn matches(s: &str) -> (b: bool)
        ensures
            b == is_token(s@),
    {
        let chars = chars_of(s);
        Command::spells_token(&chars)
    }

    /// Whether `chars` spell a token of the grammar.
    fn spells_token(chars: &Vec<char>) -> (b: bool)
        ensures
            b == is_token(chars@),
    {
        let n = chars.len();
        if n < 3 || n > 6 {
            return false;
        }
        if chars[0] != 'j' && chars[0] != 'm' {
            return false;
        }
        if chars[1] != 'r' && chars[1] != 'l' {
            return false;
        }
        let mut i: usize = 2;
        while i < n
            invariant
                2 <= i <= n == chars@.len(),
                forall|k: int| 2 <= k < i ==> is_digit(#[trigger] chars@[k]),
            decreases n - i,
        {
            if !char_is_digit(chars[i]) {
                return false;
            }
            i += 1;
        }
        true
    }

    /// The steps of replaying this command on `keyboard`, in order. The caller
    /// performs them one after the other.
    pub fn trigger(&self, keyboard: &KeyBoard) -> (actions: Vec<Action>)
        ensures
            actions@ == self.actions(keyboard),
    {
        let mut actions: Vec<Action> = Vec::new();
        if self.jump {
            actions.push(Action::Send(keyboard.key_down(Key::Jump)));
            actions.push(Action::Sleep(LATENCY));
        }
        actions.push(Action::Send(keyboard.key_down(Key::from(self.direction))));
        actions.push(Action::Sleep(self.range));
        if self.jump {
            actions.push(Action::Send(keyboard.key_up(Key::Jump)));
            actions.push(Action::Sleep(LATENCY));
        }
        actions.push(Action::Send(keyboard.key_up(Key::from(self.direction))));
        if self.jump {
            actions.push(Action::Sleep(self.range));
        } else {
            actions.push(Action::Sleep(WAITTIME));
        }
        actions
    }

    /// The token that writes this command with the fewest digits.
    pub fn token(&self) -> (text: String)
        ensures
            text@ == self.canonical_token(),
    {
        proof {
            reveal_strlit("j");
            reveal_strlit("m");
            reveal_strlit("r");
            reveal_strlit("l");
        }
        let kind = if self.jump {
            "j"
        } else {
            "m"
        };
        let side = match self.direction {
            Direction::Right => "r",
            Direction::Left => "l",
        };
        let text = kind.to_owned().concat(side).concat(decimal_string(self.range).as_str());
        text
    }

    /// The command as a reader is shown it.
    pub fn to_string(&self) -> (text: String)
        ensures
            text@ == self.display(),
    {
        let kind = if self.jump {
            "Jump"
        } else {
            "Move"
        };
        let side = match self.direction {
            Direction::Left => "Left",
            Direction::Right => "Right",
        };
        kind.to_owned().concat("-").concat(side).concat("-").concat(
            decimal_string(self.range).as_str(),
        )
    }
}

impl std::str::FromStr for Command {
    type Err = String;

    /// Parses one token. Every token of the grammar gives the command that it
    /// writes; everything else is rejected with a text that names what was
    /// offered and the grammar. White space around a token is not part of it:
    /// the caller trims.
    fn from_str(s: &str) -> (result: Result<Command, String>)
        ensures
            match result {
                Ok(command) => parsed(s@) == Some(command) && command.wf(),
                Err(text) => parsed(s@) is None && text@ == rejection(s@),
            },
    {
        let chars = chars_of(s);
        if Command::spells_token(&chars) {
            let n = chars.len();
            let range = decimal_of(&chars, 2, n);
            proof {
                lemma_token_range(chars@);
            }
            let direction = if chars[1] == 'r' {
                Direction::Right
            } else {
                Direction::Left
            };
            Ok(Command { direction, range, jump: chars[0] == 'j' })
        } else {
            Err(
                s.to_owned().concat(
                    " cannot be parsed into a move command. It must match ^[jm][rl][0-9]{1,4}$",
                ),
            )
        }
    }
}

/// A token of the grammar writes a range of at most [`MAX_RANGE`].
pub proof fn lemma_token_range(s: Seq<char>)
    requires
        is_token(s),
    ensures
        token_command(s).range == decimal_value(s.skip(2)),
        token_command(s).wf(),
{
    lemma_decimal_value_bound(s.skip(2));
    lemma_pow10_monotonic(s.skip(2).len(), 4);
    assert(pow10(4) == 10000) by {
        reveal_with_fuel(pow10, 5);
    }
}

/// Writing a command as its canonical token and parsing that token gives the
/// command back, for every command whose range a token can write.
pub proof fn lemma_token_round_trip(command: Command)
    requires
        command.wf(),
    ensures
        parsed(command.canonical_token()) == Some(command),
{
    let digits = decimal_digits(command.range as nat);
    let token = command.canonical_token();
    lemma_decimal_digits(command.range as nat);
    assert(pow10(4) == 10000) by {
        reveal_with_fuel(pow10, 5);
    }
    lemma_decimal_digits_len(command.range as nat, 4);
    assert(token.skip(2) == digits);
}

/// Where the grammar ends: after `j` or `m` and `r` or `l`, one to four digits
/// make a token, and no digits or five and more make none.
pub proof fn lemma_grammar_boundary(kind: char, side: char, digits: Seq<char>)
    requires
        kind == 'j' || kind == 'm',
        side == 'r' || side == 'l',
        forall|i: int| 0 <= i < digits.len() ==> is_digit(digits[i]),
    ensures
        is_token(seq![kind, side] + digits) <==> 1 <= digits.len() <= 4,
{
}

/// One more step leaves held what it leaves of what the steps before it left.
pub proof fn lemma_held_after_push(held: Multiset<u16>, actions: Seq<Action>, action: Action)
    ensures
        held_after(held, actions.push(action)) == held_then(held_after(held, actions), action),
{
    assert(actions.push(action).drop_last() == actions);
}

/// Performing steps in two parts leaves held what the second part leaves of
/// what the first part left.
pub proof fn lemma_held_after_concat(held: Multiset<u16>, first: Seq<Action>, second: Seq<Action>)
    ensures
        held_after(held, first + second) == held_after(held_after(held, first), second),
    decreases second.len(),
{
    if second.len() > 0 {
        lemma_held_after_concat(held, first, second.drop_last());
        assert((first + second).drop_last() == first + second.drop_last());
    }
}

/// A command releases every key that it pressed: replaying it leaves held
/// exactly the keys that were held before.
pub proof fn lemma_trigger_releases(command: Command, keyboard: &KeyBoard, held: Multiset<u16>)
    ensures
        held_after(held, command.actions(keyboard)) == held,
{
    let actions = command.actions(keyboard);
    assert(0u32 & KEYEVENTF_KEYUP == 0) by (bit_vector);
    assert(KEYEVENTF_KEYUP & KEYEVENTF_KEYUP != 0) by (bit_vector);
    let a0 = Seq::<Action>::empty();
    let a1 = a0.push(actions[0]);
    let a2 = a1.push(actions[1]);
    let a3 = a2.push(actions[2]);
    let a4 = a3.push(actions[3]);
    lemma_held_after_push(held, a0, actions[0]);
    lemma_held_after_push(held, a1, actions[1]);
    lemma_held_after_push(held, a2, actions[2]);
    lemma_held_after_push(held, a3, actions[3]);
    if command.jump {
        let a5 = a4.push(actions[4]);
        let a6 = a5.push(actions[5]);
        let a7 = a6.push(actions[6]);
        let a8 = a7.push(actions[7]);
        lemma_held_after_push(held, a4, actions[4]);
        lemma_held_after_push(held, a5, actions[5]);
        lemma_held_after_push(held, a6, actions[6]);
        lemma_held_after_push(held, a7, actions[7]);
        assert(a8 == actions);
    } else {
        assert(a4 == actions);
    }
}

} // verus!
