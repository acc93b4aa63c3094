//! Pedal states: the three buttons of the pedal, as read from the input
//! device, fed to the control program and announced to clients.
use vstd::prelude::*;

verus! {

/// The state that one pedal button selects.
#[derive(Clone, Copy, Debug, PartialEq, Eq, Structural)]
pub enum PedalState {
    A,
    B,
    C,
}

impl PedalState {
    /// The symbol of the state on the wire and for the control program.
    pub open spec fn letter(self) -> char {
        match self {
            PedalState::A => 'a',
            PedalState::B => 'b',
            PedalState::C => 'c',
        }
    }

    /// The symbol of the state.
    pub fn symbol(&self) -> (r: char)
        ensures
            r == self.letter(),
    {
        match self {
            PedalState::A => 'a',
            PedalState::B => 'b',
            PedalState::C => 'c',
        }
    }

    /// The state whose symbol is `c`; other characters are not pedal
    /// input.
    pub fn from_symbol(c: char) -> (r: Option<PedalState>)
        ensures
            r matches Some(p) ==> p.letter() == c,
            r is None <==> (c != 'a' && c != 'b' && c != 'c'),
    {
        if c == 'a' {
            Some(PedalState::A)
        } else if c == 'b' {
            Some(PedalState::B)
        } else if c == 'c' {
            Some(PedalState::C)
        } else {
            None
        }
    }

    /// The state that a key code from the input device selects: the codes
    /// of `a`, `b` and `c`. Any other code is discarded.
    pub fn from_key(code: i32) -> (r: Option<PedalState>)
        ensures
            r matches Some(p) ==> p.letter() as u32 == code,
            r is None <==> !(97 <= code <= 99),
    {
        if code == 97 {
            Some(PedalState::A)
        } else if code == 98 {
            Some(PedalState::B)
        } else if code == 99 {
            Some(PedalState::C)
        } else {
            None
        }
    }

    fn symbol_text(&self) -> (r: &'static str)
        ensures
            r@ == seq![self.letter()],
    {
        proof {
            reveal_strlit("a");
            reveal_strlit("b");
            reveal_strlit("c");
        }
        match self {
            PedalState::A => "a",
            PedalState::B => "b",
            PedalState::C => "c",
        }
    }

    /// What the control program reads on its input to apply the state:
    /// `p <symbol>`.
    pub fn control_input(&self) -> (r: String)
        ensures
            r@ == "p "@ + seq![self.letter()],
    {
        let mut t = String::from_str("p ");
        t.append(self.symbol_text());
        t
    }

    /// The payload that tells clients the state: `PEDALSTATE <symbol>`.
    pub fn notice(&self) -> (r: String)
        ensures
            r@ == "PEDALSTATE "@ + seq![self.letter()],
    {
        let mut t = String::from_str("PEDALSTATE ");
        t.append(self.symbol_text());
        t
    }
}

} // verus!
