//! The negotiation vocabulary: names for the verb and option bytes of a
//! command, and the conversions between a name and its byte.

use vstd::prelude::*;

verus! {

/// The verb of a three-byte command.
#[derive(Debug, Clone, Copy, PartialEq, Eq)]
pub enum TelnetAction {
    Will,
    Wont,
    Do,
    Dont,
}

/// The option that a command is about, with the two markers that frame a
/// subnegotiation block.
#[derive(Debug, Clone, Copy, PartialEq, Eq)]
pub enum TelnetOption {
    Echo,
    SuppressGoAhead,
    TerminalType,
    WindowSize,
    Subnegotiation,
    SubnegotiationEnd,
}

impl TelnetAction {
    /// The byte that stands for this verb on the wire.
    pub open spec fn byte(self) -> u8 {
        match self {
            TelnetAction::Will => 251,
            TelnetAction::Wont => 252,
            TelnetAction::Do => 253,
            TelnetAction::Dont => 254,
        }
    }

    /// The verb that `b` stands for, if it stands for one.
    pub open spec fn of_byte(b: u8) -> Option<TelnetAction> {
        if b == 251 {
            Some(TelnetAction::Will)
        } else if b == 252 {
            Some(TelnetAction::Wont)
        } else if b == 253 {
            Some(TelnetAction::Do)
        } else if b == 254 {
            Some(TelnetAction::Dont)
        } else {
            None
        }
    }

    /// The byte that stands for this verb on the wire.
    pub fn to_u8(&self) -> (b: u8)
        ensures
            b == self.byte(),
    {
        match self {
            TelnetAction::Will => 251,
            TelnetAction::Wont => 252,
            TelnetAction::Do => 253,
            TelnetAction::Dont => 254,
        }
    }

    /// The verb that `b` stands for; `None` for every other byte.
    pub fn from_u8(b: u8) -> (action: Option<Self>)
        ensures
            action == Self::of_byte(b),
    {
        match b {
            251 => Some(TelnetAction::Will),
            252 => Some(TelnetAction::Wont),
            253 => Some(TelnetAction::Do),
            254 => Some(TelnetAction::Dont),
            _ => None,
        }
    }
}

impl TelnetOption {
    /// The byte that stands for this option on the wire.
    pub open spec fn byte(self) -> u8 {
        match self {
            TelnetOption::Echo => 1,
            TelnetOption::SuppressGoAhead => 3,
            TelnetOption::TerminalType => 24,
            TelnetOption::WindowSize => 31,
            TelnetOption::Subnegotiation => 250,
            TelnetOption::SubnegotiationEnd => 240,
        }
    }

    /// The option that `b` stands for, if it stands for one.
    pub open spec fn of_byte(b: u8) -> Option<TelnetOption> {
        if b == 1 {
            Some(TelnetOption::Echo)
        } else if b == 3 {
            Some(TelnetOption::SuppressGoAhead)
        } else if b == 24 {
            Some(TelnetOption::TerminalType)
        } else if b == 31 {
            Some(TelnetOption::WindowSize)
        } else if b == 250 {
            Some(TelnetOption::Subnegotiation)
        } else if b == 240 {
            Some(TelnetOption::SubnegotiationEnd)
        } else {
            None
        }
    }

    /// The byte that stands for this option on the wire.
    pub fn to_u8(&self) -> (b: u8)
        ensures
            b == self.byte(),
    {
        match self {
            TelnetOption::Echo => 1,
            TelnetOption::SuppressGoAhead => 3,
            TelnetOption::TerminalType => 24,
            TelnetOption::WindowSize => 31,
            TelnetOption::Subnegotiation => 250,
            TelnetOption::SubnegotiationEnd => 240,
        }
    }

    /// The option that `b` stands for; `None` for every other byte.
    pub fn from_u8(b: u8) -> (option: Option<Self>)
        ensures
            option == Self::of_byte(b),
    {
        match b {
            1 => Some(TelnetOption::Echo),
            3 => Some(TelnetOption::SuppressGoAhead),
            24 => Some(TelnetOption::TerminalType),
            31 => Some(TelnetOption::WindowSize),
            250 => Some(TelnetOption::Subnegotiation),
            240 => Some(TelnetOption::SubnegotiationEnd),
            _ => None,
        }
    }
}

/// A byte names the verb whose byte it is, and no other byte names it.
pub proof fn lemma_action_byte_round_trip(action: TelnetAction, b: u8)
    ensures
        TelnetAction::of_byte(action.byte()) == Some(action),
        TelnetAction::of_byte(b) == Some(action) <==> b == action.byte(),
{
}

/// A byte names the option whose byte it is, and no other byte names it.
pub proof fn lemma_option_byte_round_trip(option: TelnetOption, b: u8)
    ensures
        TelnetOption::of_byte(option.byte()) == Some(option),
        TelnetOption::of_byte(b) == Some(option) <==> b == option.byte(),
{
}

} // verus!
