//! The launch arguments of the lapin program.

use vstd::prelude::*;

verus! {

/// A game I make under supervision of my kids
#[derive(Debug, Clone, PartialEq)]
pub struct Fromage {
    pub command: Option<Command>,
}

/// One of the root commands of Lapin
#[derive(Debug, Clone, PartialEq)]
pub enum Command {
    Play(PlayCommand),
    Edit(EditCommand),
    Campaign(CampaignCommand),
}

/// play a campaign or level
#[derive(Debug, Clone, PartialEq, Default)]
pub struct PlayCommand {
    /// optional path to a level file
    pub path: Option<String>,
}

/// create/edit a level
#[derive(Debug, Clone, PartialEq, Eq)]
pub struct EditCommand {
    /// format of the written level file (same as input if not precised)
    pub output_format: Option<String>,
    /// path to the level to create or modify
    pub path: String,
}

/// campaign building/packing tool
#[derive(Debug, Clone, PartialEq, Eq)]
pub struct CampaignCommand {
    pub sub: CampaignSubCommand,
}

/// various operations done on campaigns
#[derive(Debug, Clone, PartialEq, Eq)]
pub enum CampaignSubCommand {
    New(NewCampaignCommand),
    Pack(PackCampaignCommand),
}

/// create a campaign file
#[derive(Debug, Clone, PartialEq, Eq)]
pub struct NewCampaignCommand {
    /// format of the written level file (same as input if not precised)
    pub output_format: Option<String>,
    /// path to the file to create
    pub path: String,
}

/// pack all levels into a campaign file
#[derive(Debug, Clone, PartialEq, Eq)]
pub struct PackCampaignCommand {
    /// path to the unpacked file
    pub unpacked_path: String,
    /// path to the packed file to create
    pub packed_path: String,
}

impl Fromage {
    /// whether the command needs the terminal UI (all but campaign ones)
    pub fn needs_tui(&self) -> (b: bool)
        ensures
            b == !(self.command matches Some(Command::Campaign(_))),
    {
        match &self.command {
            Some(Command::Campaign(_)) => false,
            _ => true,
        }
    }
}

} // verus!
