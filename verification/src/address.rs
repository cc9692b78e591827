//! The addresses that the interpreter knows.

use vstd::prelude::*;
use crate::text::same_text;

verus! {

/// The closed set of addresses that have a handler.
#[derive(Clone, Copy, Debug, PartialEq, Eq, Structural)]
pub enum Address {
    /// `/VMC/Ext/Root/Pos`: the avatar's root pose.
    RootPos,
    /// `/VMC/Ext/Bone/Pos`: the pose of one bone.
    BonePos,
    /// `/VMC/Ext/Tra/Pos`: the pose of one tracker.
    TrackerPos,
    /// `/VMC/Ext/Blend/Val`: the weight of one blendshape.
    BlendVal,
    /// `/VMC/Ext/Blend/Apply`: the end of a batch of blendshape weights.
    BlendApply,
    /// `/VMC/Ext/OK`: the tracking status.
    Status,
    /// `/VMC/Ext/T`: the server's time.
    Time,
}

impl Address {
    /// The address as it stands in a message.
    pub open spec fn spec_text(self) -> Seq<char> {
        match self {
            Address::RootPos => "/VMC/Ext/Root/Pos"@,
            Address::BonePos => "/VMC/Ext/Bone/Pos"@,
            Address::TrackerPos => "/VMC/Ext/Tra/Pos"@,
            Address::BlendVal => "/VMC/Ext/Blend/Val"@,
            Address::BlendApply => "/VMC/Ext/Blend/Apply"@,
            Address::Status => "/VMC/Ext/OK"@,
            Address::Time => "/VMC/Ext/T"@,
        }
    }

    /// The address that `text` spells, if it is a known one. The whole text
    /// must match, character for character.
    pub open spec fn spec_parse(text: Seq<char>) -> Option<Address> {
        if text == Address::RootPos.spec_text() {
            Some(Address::RootPos)
        } else if text == Address::BonePos.spec_text() {
            Some(Address::BonePos)
        } else if text == Address::TrackerPos.spec_text() {
            Some(Address::TrackerPos)
        } else if text == Address::BlendVal.spec_text() {
            Some(Address::BlendVal)
        } else if text == Address::BlendApply.spec_text() {
            Some(Address::BlendApply)
        } else if text == Address::Status.spec_text() {
            Some(Address::Status)
        } else if text == Address::Time.spec_text() {
            Some(Address::Time)
        } else {
            None
        }
    }

    /// The address as it stands in a message.
    pub fn text(self) -> (text: &'static str)
        ensures
            text@ == self.spec_text(),
    {
        match self {
            Address::RootPos => "/VMC/Ext/Root/Pos",
            Address::BonePos => "/VMC/Ext/Bone/Pos",
            Address::TrackerPos => "/VMC/Ext/Tra/Pos",
            Address::BlendVal => "/VMC/Ext/Blend/Val",
            Address::BlendApply => "/VMC/Ext/Blend/Apply",
            Address::Status => "/VMC/Ext/OK",
            Address::Time => "/VMC/Ext/T",
        }
    }

    /// The address that `text` spells, if it is a known one.
    pub fn parse(text: &str) -> (known: Option<Address>)
        ensures
            known == Address::spec_parse(text@),
    {
        if same_text(text, Address::RootPos.text()) {
            Some(Address::RootPos)
        } else if same_text(text, Address::BonePos.text()) {
            Some(Address::BonePos)
        } else if same_text(text, Address::TrackerPos.text()) {
            Some(Address::TrackerPos)
        } else if same_text(text, Address::BlendVal.text()) {
            Some(Address::BlendVal)
        } else if same_text(text, Address::BlendApply.text()) {
            Some(Address::BlendApply)
        } else if same_text(text, Address::Status.text()) {
            Some(Address::Status)
        } else if same_text(text, Address::Time.text()) {
            Some(Address::Time)
        } else {
            None
        }
    }
}

/// Every known address is spelled differently, so parsing an address's text
/// gives that address back.
pub proof fn law_parse_text(address: Address)
    ensures
        Address::spec_parse(address.spec_text()) == Some(address),
{
    reveal_strlit("/VMC/Ext/Root/Pos");
    reveal_strlit("/VMC/Ext/Bone/Pos");
    reveal_strlit("/VMC/Ext/Tra/Pos");
    reveal_strlit("/VMC/Ext/Blend/Val");
    reveal_strlit("/VMC/Ext/Blend/Apply");
    reveal_strlit("/VMC/Ext/OK");
    reveal_strlit("/VMC/Ext/T");
    assert("/VMC/Ext/Root/Pos"@.len() == 17);
    assert("/VMC/Ext/Bone/Pos"@.len() == 17);
    assert("/VMC/Ext/Tra/Pos"@.len() == 16);
    assert("/VMC/Ext/Blend/Val"@.len() == 18);
    assert("/VMC/Ext/Blend/Apply"@.len() == 20);
    assert("/VMC/Ext/OK"@.len() == 11);
    assert("/VMC/Ext/T"@.len() == 10);
    assert("/VMC/Ext/Root/Pos"@[9] != "/VMC/Ext/Bone/Pos"@[9]);
}

} // verus!
