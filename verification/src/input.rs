//! The sixteen-key keypad: which keys are held down, and which key was
//! released last.

use vstd::prelude::*;
use vstd::string::*;

verus! {

/// One of the sixteen keys `0` to `F`.
#[derive(Clone, Copy, Debug, PartialEq, Eq, Structural)]
pub enum Button {
    B0,
    B1,
    B2,
    B3,
    B4,
    B5,
    B6,
    B7,
    B8,
    B9,
    BA,
    BB,
    BC,
    BD,
    BE,
    BF,
}

impl Button {
    /// The key's value, `0` for `B0` up to `15` for `BF`.
    pub open spec fn spec_code(self) -> u8 {
        match self {
            Button::B0 => 0,
            Button::B1 => 1,
            Button::B2 => 2,
            Button::B3 => 3,
            Button::B4 => 4,
            Button::B5 => 5,
            Button::B6 => 6,
            Button::B7 => 7,
            Button::B8 => 8,
            Button::B9 => 9,
            Button::BA => 10,
            Button::BB => 11,
            Button::BC => 12,
            Button::BD => 13,
            Button::BE => 14,
            Button::BF => 15,
        }
    }

    /// The key with value `n`; `BF` stands for every value above 14.
    pub open spec fn coded(n: int) -> Button {
        if n == 0 {
            Button::B0
        } else if n == 1 {
            Button::B1
        } else if n == 2 {
            Button::B2
        } else if n == 3 {
            Button::B3
        } else if n == 4 {
            Button::B4
        } else if n == 5 {
            Button::B5
        } else if n == 6 {
            Button::B6
        } else if n == 7 {
            Button::B7
        } else if n == 8 {
            Button::B8
        } else if n == 9 {
            Button::B9
        } else if n == 10 {
            Button::BA
        } else if n == 11 {
            Button::BB
        } else if n == 12 {
            Button::BC
        } else if n == 13 {
            Button::BD
        } else if n == 14 {
            Button::BE
        } else {
            Button::BF
        }
    }

    /// The key that a character of the keyboard stands for: the digits and
    /// the capital letters `A` to `F`.
    pub open spec fn of_char(c: char) -> Option<Button> {
        if c == '0' {
            Some(Button::B0)
        } else if c == '1' {
            Some(Button::B1)
        } else if c == '2' {
            Some(Button::B2)
        } else if c == '3' {
            Some(Button::B3)
        } else if c == '4' {
            Some(Button::B4)
        } else if c == '5' {
            Some(Button::B5)
        } else if c == '6' {
            Some(Button::B6)
        } else if c == '7' {
            Some(Button::B7)
        } else if c == '8' {
            Some(Button::B8)
        } else if c == '9' {
            Some(Button::B9)
        } else if c == 'A' {
            Some(Button::BA)
        } else if c == 'B' {
            Some(Button::BB)
        } else if c == 'C' {
            Some(Button::BC)
        } else if c == 'D' {
            Some(Button::BD)
        } else if c == 'E' {
            Some(Button::BE)
        } else if c == 'F' {
            Some(Button::BF)
        } else {
            None
        }
    }

    /// The key that the text of a keyboard key stands for: a text of exactly
    /// one character that `of_char` maps. Any other text stands for no key.
    pub open spec fn of_symbol(s: Seq<char>) -> Option<Button> {
        if s.len() == 1 {
            Button::of_char(s[0])
        } else {
            None
        }
    }

    /// The key's value.
    #[verifier::when_used_as_spec(spec_code)]
    pub fn code(self) -> (n: u8)
        ensures
            n == self.spec_code(),
            n <= 15,
    {
        match self {
            Button::B0 => 0,
            Button::B1 => 1,
            Button::B2 => 2,
            Button::B3 => 3,
            Button::B4 => 4,
            Button::B5 => 5,
            Button::B6 => 6,
            Button::B7 => 7,
            Button::B8 => 8,
            Button::B9 => 9,
            Button::BA => 10,
            Button::BB => 11,
            Button::BC => 12,
            Button::BD => 13,
            Button::BE => 14,
            Button::BF => 15,
        }
    }

    /// Maps the text that a keyboard key produces to a key of the keypad.
    /// Keys of the keyboard that stand for none give `None`.
    pub fn to_button(symbol: &str) -> (b: Option<Button>)
        ensures
            b == Button::of_symbol(symbol@),
    {
        if symbol.unicode_len() != 1 {
            return None;
        }
        match symbol.get_char(0) {
            'A' => Some(Button::BA),
            'B' => Some(Button::BB),
            'C' => Some(Button::BC),
            'D' => Some(Button::BD),
            'E' => Some(Button::BE),
            'F' => Some(Button::BF),
            '1' => Some(Button::B1),
            '2' => Some(Button::B2),
            '3' => Some(Button::B3),
            '4' => Some(Button::B4),
            '5' => Some(Button::B5),
            '6' => Some(Button::B6),
            '7' => Some(Button::B7),
            '8' => Some(Button::B8),
            '9' => Some(Button::B9),
            '0' => Some(Button::B0),
            _ => None,
        }
    }

    /// The key with the given value.
    pub fn from_u8(n: u8) -> (b: Button)
        requires
            n <= 15,
        ensures
            b == Button::coded(n as int),
            b.spec_code() == n,
    {
        match n {
            0x0 => Button::B0,
            0x1 => Button::B1,
            0x2 => Button::B2,
            0x3 => Button::B3,
            0x4 => Button::B4,
            0x5 => Button::B5,
            0x6 => Button::B6,
            0x7 => Button::B7,
            0x8 => Button::B8,
            0x9 => Button::B9,
            0xA => Button::BA,
            0xB => Button::BB,
            0xC => Button::BC,
            0xD => Button::BD,
            0xE => Button::BE,
            _ => Button::BF,
        }
    }
}

/// Mathematical model of the keypad.
#[verifier::ext_equal]
pub struct InputView {
    /// The keys that are held down, in the order in which they went down.
    pub pressing: Seq<Button>,
    /// The key that was released last, until it is taken or cleared.
    pub last_released: Option<Button>,
}

impl InputView {
    /// A keypad on which nothing has happened yet.
    pub open spec fn idle() -> InputView {
        InputView { pressing: Seq::empty(), last_released: None }
    }

    /// The set of keys that are held down.
    pub open spec fn held(self) -> Set<Button> {
        self.pressing.to_set()
    }

    /// The keypad after `key` went down.
    pub open spec fn pressed(self, key: Button) -> InputView {
        InputView { pressing: with_key(self.pressing, key), ..self }
    }

    /// The keypad after `key` came up.
    pub open spec fn released(self, key: Button) -> InputView {
        InputView { pressing: without_key(self.pressing, key), last_released: Some(key) }
    }

    /// The keypad with the slot of the last released key emptied.
    pub open spec fn cleared(self) -> InputView {
        InputView { last_released: None, ..self }
    }

    /// Whether the key with value `code` is held down. No key has a value
    /// above 15.
    pub open spec fn holds(self, code: u8) -> bool {
        code <= 15 && self.pressing.contains(Button::coded(code as int))
    }
}

/// Whether the keys stand in the order of their values, none of them twice.
pub open spec fn ascending(keys: Seq<Button>) -> bool {
    forall|k: int, l: int|
        0 <= k < l < keys.len() ==> (#[trigger] keys[k]).spec_code() < (
        #[trigger] keys[l]).spec_code()
}

/// The list of held keys after `key` went down: as it was if it held the
/// key, else with the key at its end.
pub open spec fn with_key(keys: Seq<Button>, key: Button) -> Seq<Button> {
    if keys.contains(key) {
        keys
    } else {
        keys.push(key)
    }
}

/// The list of held keys after `key` came up: the other keys, in the order
/// in which they stood.
pub open spec fn without_key(keys: Seq<Button>, key: Button) -> Seq<Button> {
    keys.filter(|b: Button| b != key)
}

/// What `without_key` keeps: every key but `key`, and none twice that did
/// not stand twice before.
pub proof fn lemma_without_key(keys: Seq<Button>, key: Button)
    ensures
        forall|b: Button|
            #[trigger] without_key(keys, key).contains(b) <==> (b != key && keys.contains(b)),
        keys.no_duplicates() ==> without_key(keys, key).no_duplicates(),
        !keys.contains(key) ==> without_key(keys, key) == keys,
    decreases keys.len(),
{
    reveal(Seq::filter);
    let rest = without_key(keys, key);
    if keys.len() > 0 {
        let front = keys.drop_last();
        let last = keys.last();
        let sub = without_key(front, key);
        lemma_without_key(front, key);
        assert(rest == if last != key {
            sub.push(last)
        } else {
            sub
        });
        assert forall|b: Button| #[trigger] rest.contains(b) <==> (b != key && keys.contains(
            b,
        )) by {
            if rest.contains(b) {
                let k = choose|k: int| 0 <= k < rest.len() && rest[k] == b;
                if k < sub.len() {
                    assert(sub[k] == b);
                    assert(sub.contains(b));
                    let j = choose|j: int| 0 <= j < front.len() && front[j] == b;
                    assert(keys[j] == b);
                } else {
                    assert(keys[keys.len() - 1] == b);
                }
            }
            if b != key && keys.contains(b) {
                let j = choose|j: int| 0 <= j < keys.len() && keys[j] == b;
                if j < front.len() {
                    assert(front[j] == b);
                    assert(front.contains(b));
                    assert(sub.contains(b));
                    let k = choose|k: int| 0 <= k < sub.len() && sub[k] == b;
                    assert(rest[k] == b);
                } else {
                    assert(rest[rest.len() - 1] == b);
                }
            }
        }
        if keys.no_duplicates() {
            assert(front.no_duplicates());
            if last != key {
                assert(!sub.contains(last)) by {
                    if sub.contains(last) {
                        assert(front.contains(last));
                        let j = choose|j: int| 0 <= j < front.len() && front[j] == last;
                        assert(keys[j] == keys[keys.len() - 1]);
                    }
                }
                assert forall|i: int, j: int|
                    0 <= i < rest.len() && 0 <= j < rest.len() && i != j implies rest[i]
                    != rest[j] by {
                    if i == sub.len() {
                        assert(sub[j] == rest[j]);
                        assert(sub.contains(rest[j]));
                    } else if j == sub.len() {
                        assert(sub[i] == rest[i]);
                        assert(sub.contains(rest[i]));
                    } else {
                        assert(sub[i] == rest[i] && sub[j] == rest[j]);
                    }
                }
            }
        }
        if !keys.contains(key) {
            assert(!front.contains(key)) by {
                if front.contains(key) {
                    let j = choose|j: int| 0 <= j < front.len() && front[j] == key;
                    assert(keys[j] == key);
                }
            }
            assert(last != key) by {
                assert(keys[keys.len() - 1] == last);
            }
            assert(rest =~= keys);
        }
    } else {
        assert(rest =~= keys);
    }
}

/// A press adds the key to the set of held keys, and a release takes it out.
/// Neither makes a key stand twice in the list.
pub proof fn lemma_held_keys(before: InputView, key: Button)
    ensures
        before.pressed(key).held() == before.held().insert(key),
        before.released(key).held() == before.held().remove(key),
        before.pressing.no_duplicates() ==> before.pressed(key).pressing.no_duplicates(),
        before.pressing.no_duplicates() ==> before.released(key).pressing.no_duplicates(),
{
    let keys = before.pressing;
    lemma_without_key(keys, key);
    assert(without_key(keys, key).to_set() =~= keys.to_set().remove(key));
    if keys.contains(key) {
        assert(keys.to_set() =~= keys.to_set().insert(key));
    } else {
        let more = keys.push(key);
        assert forall|b: Button| more.contains(b) <==> (b == key || keys.contains(b)) by {
            if keys.contains(b) {
                let j = choose|j: int| 0 <= j < keys.len() && keys[j] == b;
                assert(more[j] == b);
            }
            if b == key {
                assert(more[more.len() - 1] == b);
            }
        }
        assert(more.to_set() =~= keys.to_set().insert(key));
        if keys.no_duplicates() {
            assert forall|i: int, j: int|
                0 <= i < more.len() && 0 <= j < more.len() && i != j implies more[i]
                != more[j] by {
                if i < keys.len() {
                    assert(keys.contains(more[i]));
                }
                if j < keys.len() {
                    assert(keys.contains(more[j]));
                }
            }
        }
    }
}

/// State of the keypad, written by whoever receives the key events.
#[derive(Debug)]
pub struct Controller {
    /// The keys that are held down.
    pub pressing: Vec<Button>,
    /// The key that was released last.
    pub last_released: Option<Button>,
}

impl View for Controller {
    type V = InputView;

    open spec fn view(&self) -> InputView {
        InputView { pressing: self.pressing@, last_released: self.last_released }
    }
}

impl Default for Controller {
    fn default() -> (c: Self)
        ensures
            c@ == InputView::idle(),
    {
        Controller::new()
    }
}

impl Controller {
    /// A keypad with no key down and none released.
    pub fn new() -> (c: Controller)
        ensures
            c@ == InputView::idle(),
    {
        Controller { pressing: Vec::new(), last_released: None }
    }

    /// Whether `key` is held down.
    pub fn is_pressed(&self, key: Button) -> (down: bool)
        ensures
            down == self@.pressing.contains(key),
    {
        let mut i: usize = 0;
        while i < self.pressing.len()
            invariant
                i <= self.pressing@.len(),
                forall|j: int| 0 <= j < i ==> self.pressing@[j] != key,
            decreases self.pressing@.len() - i,
        {
            if self.pressing[i] == key {
                return true;
            }
            i += 1;
        }
        false
    }

    /// Records that `key` went down: a key that is not yet held goes to the
    /// end of the list, one that is held changes nothing.
    pub fn on_press(&mut self, key: Button)
        ensures
            final(self)@ == old(self)@.pressed(key),
            old(self)@.pressing.no_duplicates() ==> final(self)@.pressing.no_duplicates(),
    {
        proof {
            lemma_held_keys(self@, key);
        }
        if !self.is_pressed(key) {
            self.pressing.push(key);
        }
    }

    /// Records that `key` came up: it leaves the list of held keys, the other
    /// keys stay in their order, and it is the key that was released last.
    pub fn on_release(&mut self, key: Button)
        ensures
            final(self)@ == old(self)@.released(key),
            old(self)@.pressing.no_duplicates() ==> final(self)@.pressing.no_duplicates(),
    {
        let mut kept: Vec<Button> = Vec::new();
        let mut i: usize = 0;
        proof {
            assert(self.pressing@.take(0) =~= Seq::<Button>::empty());
            lemma_without_key(Seq::<Button>::empty(), key);
            lemma_held_keys(self@, key);
        }
        while i < self.pressing.len()
            invariant
                i <= self.pressing@.len(),
                self.pressing@ == old(self).pressing@,
                kept@ == without_key(self.pressing@.take(i as int), key),
            decreases self.pressing@.len() - i,
        {
            let b = self.pressing[i];
            proof {
                let next = self.pressing@.take(i + 1);
                assert(next.drop_last() =~= self.pressing@.take(i as int));
                assert(next.last() == b);
                reveal(Seq::filter);
            }
            if b != key {
                kept.push(b);
            }
            i += 1;
        }
        assert(self.pressing@.take(i as int) =~= self.pressing@);
        self.pressing = kept;
        self.last_released = Some(key);
    }

    /// Hands out the key that was released last and empties the slot.
    pub fn take_last_released(&mut self) -> (key: Option<Button>)
        ensures
            key == old(self)@.last_released,
            final(self)@ == old(self)@.cleared(),
    {
        let key = self.last_released;
        self.last_released = None;
        key
    }

    /// The keys that are held down, each once, in the order of their values.
    pub fn pressed_set(&self) -> (keys: Vec<Button>)
        ensures
            keys@.to_set() == self@.held(),
            ascending(keys@),
    {
        let mut keys: Vec<Button> = Vec::new();
        let mut n: u8 = 0;
        while n < 16
            invariant
                n <= 16,
                forall|k: int|
                    0 <= k < keys@.len() ==> (#[trigger] keys@[k]).spec_code() < n
                        && self@.pressing.contains(keys@[k]),
                ascending(keys@),
                forall|b: Button|
                    b.spec_code() < n && self@.pressing.contains(b) ==> #[trigger] keys@.contains(b),
            decreases 16 - n,
        {
            let b = Button::from_u8(n);
            if self.is_pressed(b) {
                let ghost before = keys@;
                keys.push(b);
                assert(keys@[keys@.len() - 1] == b);
                assert forall|c: Button|
                    c.spec_code() < n + 1 && self@.pressing.contains(c) implies #[trigger] keys@.contains(
                    c,
                ) by {
                    if c.spec_code() < n {
                        assert(before.contains(c));
                        let k = choose|k: int| 0 <= k < before.len() && before[k] == c;
                        assert(keys@[k] == c);
                    } else {
                        assert(c == b);
                    }
                }
            }
            n += 1;
        }
        assert(keys@.to_set() =~= self@.held()) by {
            assert forall|b: Button| keys@.contains(b) <==> self@.pressing.contains(b) by {
                if self@.pressing.contains(b) {
                    assert(b.spec_code() < 16);
                }
            }
        }
        keys
    }
}

/// The keypad as the interpreter sees it.
#[derive(Debug)]
pub struct Chip8Controller(pub Controller);

impl View for Chip8Controller {
    type V = InputView;

    open spec fn view(&self) -> InputView {
        self.0@
    }
}

impl Chip8Controller {
    /// The keys that are held down, in the order in which they are held.
    pub fn keys_to_buttons(&self) -> (keys: Vec<Button>)
        ensures
            keys@ == self@.pressing,
    {
        let mut keys: Vec<Button> = Vec::new();
        let mut i: usize = 0;
        while i < self.0.pressing.len()
            invariant
                i <= self.0.pressing@.len(),
                keys@ == self.0.pressing@.take(i as int),
            decreases self.0.pressing@.len() - i,
        {
            keys.push(self.0.pressing[i]);
            assert(keys@ =~= self.0.pressing@.take(i + 1));
            i += 1;
        }
        assert(keys@ =~= self.0.pressing@);
        keys
    }

    /// Whether the key with value `code` is held down. A value above 15
    /// names no key, so none with it is held.
    pub fn holds(&self, code: u8) -> (down: bool)
        ensures
            down == self@.holds(code),
    {
        if code <= 15 {
            self.0.is_pressed(Button::from_u8(code))
        } else {
            false
        }
    }
}

} // verus!
