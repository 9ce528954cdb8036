//! The two closed message sets exchanged between the tray and the GUI.
use vstd::prelude::*;

verus! {

/// A message that travels in a frame: each value is carried as a stable
/// ordinal, its tag.
pub trait Message: Sized {
    /// The ordinal that stands for this value on the wire.
    spec fn spec_tag(self) -> u32;

    /// The value that an ordinal stands for, if it stands for one.
    spec fn spec_from_tag(tag: u32) -> Option<Self>;

    /// Every value is recovered from its own ordinal.
    proof fn lemma_tag_round_trip(self)
        ensures
            Self::spec_from_tag(self.spec_tag()) == Some(self),
    ;

    fn tag(&self) -> (r: u32)
        ensures
            r == self.spec_tag(),
    ;

    fn from_tag(tag: u32) -> (r: Option<Self>)
        ensures
            r == Self::spec_from_tag(tag),
    ;
}

/// Actions to be performed by the GUI, sent by the tray.
#[derive(PartialEq, Eq, Structural, Debug, Clone, Copy)]
pub enum GuiAction {
    /// Close the GUI, which reports back that it closed.
    Close,
    /// Close the GUI as part of shutting the whole application down.
    Quit,
}

/// What the GUI reports to the tray.
#[derive(PartialEq, Eq, Structural, Debug, Clone, Copy)]
pub enum GuiResponse {
    /// The GUI is up and connected; sent once, first.
    Opened,
    /// The GUI is exiting; sent once, last.
    Closed,
}

impl Message for GuiAction {
    open spec fn spec_tag(self) -> u32 {
        match self {
            GuiAction::Close => 0,
            GuiAction::Quit => 1,
        }
    }

    open spec fn spec_from_tag(tag: u32) -> Option<Self> {
        if tag == 0 {
            Some(GuiAction::Close)
        } else if tag == 1 {
            Some(GuiAction::Quit)
        } else {
            None
        }
    }

    proof fn lemma_tag_round_trip(self) {
    }

    fn tag(&self) -> (r: u32) {
        match self {
            GuiAction::Close => 0,
            GuiAction::Quit => 1,
        }
    }

    fn from_tag(tag: u32) -> (r: Option<Self>) {
        if tag == 0 {
            Some(GuiAction::Close)
        } else if tag == 1 {
            Some(GuiAction::Quit)
        } else {
            None
        }
    }
}

impl Message for GuiResponse {
    open spec fn spec_tag(self) -> u32 {
        match self {
            GuiResponse::Opened => 0,
            GuiResponse::Closed => 1,
        }
    }

    open spec fn spec_from_tag(tag: u32) -> Option<Self> {
        if tag == 0 {
            Some(GuiResponse::Opened)
        } else if tag == 1 {
            Some(GuiResponse::Closed)
        } else {
            None
        }
    }

    proof fn lemma_tag_round_trip(self) {
    }

    fn tag(&self) -> (r: u32) {
        match self {
            GuiResponse::Opened => 0,
            GuiResponse::Closed => 1,
        }
    }

    fn from_tag(tag: u32) -> (r: Option<Self>) {
        if tag == 0 {
            Some(GuiResponse::Opened)
        } else if tag == 1 {
            Some(GuiResponse::Closed)
        } else {
            None
        }
    }
}

} // verus!
