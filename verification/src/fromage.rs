//! The launch arguments of the development version of the program
//! (play, edit or test).

use vstd::prelude::*;

verus! {

/// A game I make under supervision of my kids
#[derive(Debug, Clone, PartialEq)]
pub struct Fromage {
    pub sub: Option<SubCommand>,
}

#[derive(Debug, Clone, PartialEq)]
pub enum SubCommand {
    Play(PlaySubCommand),
    Edit(EditSubCommand),
    Test(TestSubCommand),
}

/// play a game
#[derive(Debug, Clone, PartialEq, Default)]
pub struct PlaySubCommand {
    /// optional path to a level file
    pub path: Option<String>,
}

/// edit a level
#[derive(Debug, Clone, PartialEq, Eq)]
pub struct EditSubCommand {
    /// format of the written level file (same as input if not precised)
    pub output_format: Option<String>,
    /// path to the level to create or modify
    pub path: String,
}

/// does a special test for the dev
#[derive(Debug, Clone, PartialEq, Eq)]
pub struct TestSubCommand {
    /// format of the written level file (same as input if not precised)
    pub output_format: Option<String>,
}

/// a copy of an optional string
pub fn copy_opt_string(s: &Option<String>) -> (r: Option<String>)
    ensures
        match (s, r) {
            (Some(a), Some(b)) => a@ == b@,
            (None, None) => true,
            _ => false,
        },
{
    match s {
        Some(a) => Some(a.clone()),
        None => None,
    }
}

impl Fromage {
    pub fn is_test(&self) -> (b: bool)
        ensures
            b == (self.sub matches Some(SubCommand::Test(_))),
    {
        match self.sub {
            Some(SubCommand::Test(_)) => true,
            _ => false,
        }
    }

    /// the requested format of written levels, if any
    pub fn output_format(&self) -> (r: Option<String>)
        ensures
            match (self.sub, r) {
                (Some(SubCommand::Edit(sub)), r) => match (sub.output_format, r) {
                    (Some(a), Some(b)) => a@ == b@,
                    (None, None) => true,
                    _ => false,
                },
                (Some(SubCommand::Test(sub)), r) => match (sub.output_format, r) {
                    (Some(a), Some(b)) => a@ == b@,
                    (None, None) => true,
                    _ => false,
                },
                (_, r) => r is None,
            },
    {
        match &self.sub {
            Some(SubCommand::Edit(sub)) => copy_opt_string(&sub.output_format),
            Some(SubCommand::Test(sub)) => copy_opt_string(&sub.output_format),
            _ => None,
        }
    }
}

} // verus!
