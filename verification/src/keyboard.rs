//! The logical keys of the game and the layout that binds them to virtual key
//! codes.

use crate::command::Direction;
use crate::error::FileError;
use crate::text::{chars_of, spells, split, split_str, trim, trim_str};
use crate::win::{key_event, keycode, str_to_keycode, KeyInput, KEYEVENTF_KEYUP};
use std::str::FromStr;
use vstd::prelude::*;
use vstd::string::StringExecFns;

verus! {

/// A key as the game knows it.
#[derive(Clone, Copy, Debug, PartialEq, Eq, Structural)]
pub enum Key {
    Left,
    Right,
    Jump,
}

/// The bindings of a layout, in the order in which they were read.
pub type Bindings = Seq<(Key, u16)>;

/// The code of the first binding of `key`, if there is one.
pub open spec fn lookup(bindings: Bindings, key: Key) -> Option<u16>
    decreases bindings.len(),
{
    if bindings.len() == 0 {
        None
    } else if bindings[0].0 == key {
        Some(bindings[0].1)
    } else {
        lookup(bindings.drop_first(), key)
    }
}

/// Whether `at` is the place of the first binding of `key`.
pub open spec fn is_first_binding(bindings: Bindings, key: Key, at: int) -> bool {
    &&& 0 <= at < bindings.len()
    &&& bindings[at].0 == key
    &&& forall|i: int| 0 <= i < at ==> bindings[i].0 != key
}

/// Whether every key is bound.
pub open spec fn is_complete(bindings: Bindings) -> bool {
    &&& lookup(bindings, Key::Left) is Some
    &&& lookup(bindings, Key::Right) is Some
    &&& lookup(bindings, Key::Jump) is Some
}

/// The first key, in the order left, right, jump, that is not bound.
pub open spec fn first_unbound(bindings: Bindings) -> Option<Key> {
    if lookup(bindings, Key::Left) is None {
        Some(Key::Left)
    } else if lookup(bindings, Key::Right) is None {
        Some(Key::Right)
    } else if lookup(bindings, Key::Jump) is None {
        Some(Key::Jump)
    } else {
        None
    }
}

/// Whether `s` is one or more of the letters `a` to `z`.
pub open spec fn is_word(s: Seq<char>) -> bool {
    &&& s.len() > 0
    &&& forall|i: int| 0 <= i < s.len() ==> 'a' <= #[trigger] s[i] <= 'z'
}

/// Whether the line has the form of an entry: trimmed, it reads `name=value`,
/// both of them words.
pub open spec fn is_entry(line: Seq<char>) -> bool {
    let parts = split(trim(line), '=');
    parts.len() == 2 && is_word(parts[0]) && is_word(parts[1])
}

/// The binding that one line of a layout's configuration makes. A line binds
/// when it has the form of an entry, its name is the name of a key and its
/// value the name of a key code. Every other line binds nothing.
pub open spec fn entry(line: Seq<char>) -> Option<(Key, u16)> {
    let parts = split(trim(line), '=');
    if is_entry(line) {
        match (Key::named(parts[0]), keycode(parts[1])) {
            (Some(key), Some(code)) => Some((key, code)),
            _ => None,
        }
    } else {
        None
    }
}

/// The text that rejects a line which has the form of an entry and binds
/// nothing: it names the name that is no key's, or else the value that is no
/// key code's. A line of another form is passed over without a word.
pub open spec fn entry_rejection(line: Seq<char>) -> Option<Seq<char>> {
    let parts = split(trim(line), '=');
    if !is_entry(line) {
        None
    } else if Key::named(parts[0]) is None {
        Some(invalid_key(parts[0]))
    } else if keycode(parts[1]) is None {
        Some(invalid_code(parts[1]))
    } else {
        None
    }
}

/// The texts that reject lines of a layout's configuration, in order.
pub open spec fn rejections(lines: Seq<Seq<char>>) -> Seq<Seq<char>>
    decreases lines.len(),
{
    if lines.len() == 0 {
        Seq::empty()
    } else {
        let before = rejections(lines.drop_last());
        match entry_rejection(lines.last()) {
            Some(text) => before.push(text),
            None => before,
        }
    }
}

/// The bindings that the lines of a layout's configuration make, in order.
pub open spec fn entries(lines: Seq<Seq<char>>) -> Bindings
    decreases lines.len(),
{
    if lines.len() == 0 {
        Seq::empty()
    } else {
        let before = entries(lines.drop_last());
        match entry(lines.last()) {
            Some(binding) => before.push(binding),
            None => before,
        }
    }
}

/// The text that rejects `name` as the name of a key.
pub open spec fn invalid_key(name: Seq<char>) -> Seq<char> {
    name + " is an invalid Key"@
}

/// The text that rejects `value` as the name of a key code.
pub open spec fn invalid_code(value: Seq<char>) -> Seq<char> {
    value + " is an invalid key code"@
}

/// The text that rejects a layout in which `key` is not bound.
pub open spec fn unbound_key(key: Key) -> Seq<char> {
    "No binding for the key "@ + key.name()
}

/// What looking a key up finds: the code of the key's first binding, and
/// nothing only where no binding is the key's.
pub proof fn lemma_lookup_first(bindings: Bindings, key: Key)
    ensures
        match lookup(bindings, key) {
            Some(code) => exists|at: int| #[trigger]
                is_first_binding(bindings, key, at) && bindings[at].1 == code,
            None => forall|i: int| 0 <= i < bindings.len() ==> bindings[i].0 != key,
        },
    decreases bindings.len(),
{
    if bindings.len() > 0 {
        if bindings[0].0 == key {
            assert(is_first_binding(bindings, key, 0));
        } else {
            let rest = bindings.drop_first();
            lemma_lookup_first(rest, key);
            match lookup(rest, key) {
                Some(code) => {
                    let at = choose|at: int| #[trigger]
                        is_first_binding(rest, key, at) && rest[at].1 == code;
                    assert forall|i: int| 0 <= i < at + 1 implies bindings[i].0 != key by {
                        if i > 0 {
                            assert(bindings[i] == rest[i - 1]);
                        }
                    }
                    assert(is_first_binding(bindings, key, at + 1));
                },
                None => {
                    assert forall|i: int| 0 <= i < bindings.len() implies bindings[i].0
                        != key by {
                        if i > 0 {
                            assert(bindings[i] == rest[i - 1]);
                        }
                    }
                },
            }
        }
    }
}

impl Key {
    /// The number of keys.
    pub fn len() -> (n: usize)
        ensures
            n == 3,
    {
        3usize
    }

    /// The name by which a layout's configuration binds this key.
    pub open spec fn name(self) -> Seq<char> {
        match self {
            Key::Left => "left"@,
            Key::Right => "right"@,
            Key::Jump => "jump"@,
        }
    }

    /// The key of the given name: `left`, `right` or `jump`.
    pub open spec fn named(name: Seq<char>) -> Option<Key> {
        if name == "left"@ {
            Some(Key::Left)
        } else if name == "right"@ {
            Some(Key::Right)
        } else if name == "jump"@ {
            Some(Key::Jump)
        } else {
            None
        }
    }

    /// The key that moves the character in `direction`.
    pub open spec fn toward(direction: Direction) -> Key {
        match direction {
            Direction::Left => Key::Left,
            Direction::Right => Key::Right,
        }
    }

    /// The name by which a layout's configuration binds this key.
    pub fn as_str(&self) -> (name: &'static str)
        ensures
            name@ == self.name(),
    {
        match self {
            Key::Left => "left",
            Key::Right => "right",
            Key::Jump => "jump",
        }
    }
}

impl From<Direction> for Key {
    /// The key that moves the character in `direction`.
    fn from(direction: Direction) -> (key: Key) {
        match direction {
            Direction::Left => Key::Left,
            Direction::Right => Key::Right,
        }
    }
}

impl vstd::std_specs::convert::FromSpecImpl<Direction> for Key {
    open spec fn obeys_from_spec() -> bool {
        true
    }

    open spec fn from_spec(direction: Direction) -> Key {
        Key::toward(direction)
    }
}

impl FromStr for Key {
    type Err = FileError;

    /// The key of the given name. Any other text is rejected with an error
    /// that names it.
    fn from_str(s: &str) -> (result: Result<Key, FileError>)
        ensures
            match result {
                Ok(key) => Key::named(s@) == Some(key),
                Err(FileError::InvalidContentError(text)) => Key::named(s@) is None && text@
                    == invalid_key(s@),
                Err(FileError::IoError(_)) => false,
            },
    {
        let chars = chars_of(s);
        if spells(&chars, "left") {
            Ok(Key::Left)
        } else if spells(&chars, "right") {
            Ok(Key::Right)
        } else if spells(&chars, "jump") {
            Ok(Key::Jump)
        } else {
            Err(FileError::InvalidContentError(s.to_owned().concat(" is an invalid Key")))
        }
    }
}

/// Whether `s` is one or more of the letters `a` to `z`.
fn is_word_str(s: &str) -> (b: bool)
    ensures
        b == is_word(s@),
{
    let chars = chars_of(s);
    if chars.len() == 0 {
        return false;
    }
    let mut i: usize = 0;
    while i < chars.len()
        invariant
            i <= chars@.len(),
            chars@ == s@,
            forall|k: int| 0 <= k < i ==> 'a' <= #[trigger] chars@[k] <= 'z',
        decreases chars@.len() - i,
    {
        if !('a' <= chars[i] && chars[i] <= 'z') {
            return false;
        }
        i += 1;
    }
    true
}

/// The bindings of keys to virtual key codes, as a configuration made them.
/// A key may be bound more than once; its first binding counts.
pub struct Layout {
    keys: Vec<(Key, u16)>,
}

impl View for Layout {
    type V = Bindings;

    closed spec fn view(&self) -> Bindings {
        self.keys@
    }
}

impl Layout {
    /// The binding that one line of a configuration makes; or, for a line
    /// that binds nothing, the text that rejects it, if it has the form of an
    /// entry.
    fn parse_entry(line: &str) -> (outcome: Result<(Key, u16), Option<String>>)
        ensures
            match outcome {
                Ok(binding) => entry(line@) == Some(binding) && entry_rejection(line@) is None,
                Err(Some(text)) => entry(line@) is None && entry_rejection(line@) == Some(text@),
                Err(None) => entry(line@) is None && entry_rejection(line@) is None,
            },
    {
        let trimmed = trim_str(line);
        let parts = split_str(trimmed, '=');
        if parts.len() == 2 && is_word_str(parts[0]) && is_word_str(parts[1]) {
            match Key::from_str(parts[0]) {
                Ok(key) => match str_to_keycode(parts[1]) {
                    Some(code) => Ok((key, code)),
                    None => Err(Some(parts[1].to_owned().concat(" is an invalid key code"))),
                },
                Err(error) => Err(Some(error.to_string())),
            }
        } else {
            Err(None)
        }
    }

    /// The layout that the lines of a configuration file make, and the texts
    /// that reject lines of it. A line that binds nothing is passed over; one
    /// that has the form of an entry is rejected with a text, and no line
    /// makes the load fail.
    pub fn from_config_file(lines: &Vec<String>) -> (loaded: (Layout, Vec<String>))
        ensures
            loaded.0@ == entries(lines.deep_view()),
            loaded.1.deep_view() == rejections(lines.deep_view()),
    {
        let mut keys: Vec<(Key, u16)> = Vec::with_capacity(Key::len());
        let mut rejected: Vec<String> = Vec::new();
        let mut i: usize = 0;
        let ghost texts = lines.deep_view();
        while i < lines.len()
            invariant
                i <= lines@.len(),
                texts == lines.deep_view(),
                keys@ == entries(texts.take(i as int)),
                rejected.deep_view() == rejections(texts.take(i as int)),
            decreases lines@.len() - i,
        {
            assert(texts.take(i + 1).drop_last() == texts.take(i as int));
            match Layout::parse_entry(lines[i].as_str()) {
                Ok(binding) => {
                    keys.push(binding);
                },
                Err(Some(text)) => {
                    rejected.push(text);
                },
                Err(None) => {},
            }
            i += 1;
        }
        assert(texts.take(i as int) == texts);
        (Layout { keys }, rejected)
    }

    /// The code that `key` is bound to: that of its first binding.
    pub fn code_for(&self, key: &Key) -> (code: u16)
        requires
            lookup(self@, *key) is Some,
        ensures
            lookup(self@, *key) == Some(code),
    {
        let n = self.keys.len();
        let mut i: usize = 0;
        assert(self.keys@.skip(0) == self.keys@);
        loop
            invariant
                i <= n == self.keys@.len(),
                lookup(self.keys@, *key) is Some,
                lookup(self.keys@, *key) == lookup(self.keys@.skip(i as int), *key),
            decreases self.keys@.len() - i,
        {
            if self.keys[i].0 == *key {
                return self.keys[i].1;
            }
            assert(self.keys@.skip(i as int).drop_first() == self.keys@.skip(i + 1));
            i += 1;
        }
    }

    /// The code that `key` is bound to, if it is bound.
    pub fn get(&self, key: &Key) -> (code: Option<u16>)
        ensures
            code == lookup(self@, *key),
    {
        let mut i: usize = 0;
        assert(self.keys@.skip(0) == self.keys@);
        while i < self.keys.len()
            invariant
                i <= self.keys@.len(),
                lookup(self.keys@, *key) == lookup(self.keys@.skip(i as int), *key),
            decreases self.keys@.len() - i,
        {
            if self.keys[i].0 == *key {
                return Some(self.keys[i].1);
            }
            assert(self.keys@.skip(i as int).drop_first() == self.keys@.skip(i + 1));
            i += 1;
        }
        None
    }

    /// The number of bindings.
    pub fn len(&self) -> (n: usize)
        ensures
            n == self@.len(),
    {
        self.keys.len()
    }
}

/// A keyboard of the game: a layout in which every key is bound.
pub struct KeyBoard {
    layout: Layout,
}

impl View for KeyBoard {
    type V = Bindings;

    closed spec fn view(&self) -> Bindings {
        self.layout@
    }
}

impl KeyBoard {
    #[verifier::type_invariant]
    spec fn every_key_bound(self) -> bool {
        is_complete(self.layout@)
    }

    /// The code that `key` is bound to.
    pub open spec fn code(&self, key: Key) -> u16 {
        lookup(self@, key).unwrap()
    }

    /// The keyboard that the lines of a layout's configuration file make. A
    /// configuration that leaves a key unbound is rejected, with an error that
    /// names the first such key in the order left, right, jump.
    pub fn new(lines: &Vec<String>) -> (result: Result<KeyBoard, FileError>)
        ensures
            match result {
                Ok(keyboard) => keyboard@ == entries(lines.deep_view()) && is_complete(keyboard@),
                Err(FileError::InvalidContentError(text)) => first_unbound(
                    entries(lines.deep_view()),
                ) matches Some(key) && text@ == unbound_key(key),
                Err(FileError::IoError(_)) => false,
            },
    {
        let (layout, _) = Layout::from_config_file(lines);
        let missing = if layout.get(&Key::Left).is_none() {
            Some(Key::Left)
        } else if layout.get(&Key::Right).is_none() {
            Some(Key::Right)
        } else if layout.get(&Key::Jump).is_none() {
            Some(Key::Jump)
        } else {
            None
        };
        match missing {
            Some(key) => Err(
                FileError::InvalidContentError(
                    "No binding for the key ".to_owned().concat(key.as_str()),
                ),
            ),
            None => Ok(KeyBoard { layout }),
        }
    }

    /// The input that presses `key`.
    pub fn key_down(&self, key: Key) -> (input: KeyInput)
        ensures
            lookup(self@, key) is Some,
            input == key_event(0, self.code(key)),
    {
        proof {
            use_type_invariant(self);
        }
        crate::win::key_down(self.layout.code_for(&key))
    }

    /// The input that releases `key`.
    pub fn key_up(&self, key: Key) -> (input: KeyInput)
        ensures
            lookup(self@, key) is Some,
            input == key_event(KEYEVENTF_KEYUP, self.code(key)),
    {
        proof {
            use_type_invariant(self);
        }
        crate::win::key_up(self.layout.code_for(&key))
    }

    /// The number of bindings in the layout.
    pub fn len(&self) -> (n: usize)
        ensures
            n == self@.len(),
    {
        self.layout.len()
    }
}

} // verus!
