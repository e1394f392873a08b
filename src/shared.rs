//! The unit of input that the matcher consumes.
use vstd::prelude::*;

verus! {

/// One argument: a token that the user typed, or the end of the input.
#[derive(Debug, Clone, PartialEq, Eq)]
pub enum Arg {
    User(String),
    EndOfInput,
    EndOfPartialInput,
}

/// What an argument stands for: its text, or `End` for either end marker.
pub enum ArgModel {
    User(Seq<char>),
    End,
}

impl View for Arg {
    type V = ArgModel;

    open spec fn view(&self) -> ArgModel {
        match self {
            Arg::User(s) => ArgModel::User(s@),
            _ => ArgModel::End,
        }
    }
}

impl Arg {
    /// The text of a user argument; the end markers have none.
    pub fn unwrap_user(&self) -> (r: &String)
        requires
            self is User,
        ensures
            self@ == ArgModel::User(r@),
    {
        match self {
            Arg::User(s) => s,
            _ => { proof { assert(false); } unreached() },
        }
    }
}

} // verus!
