use vstd::prelude::*;

verus! {

/// A server listed in the invites file: its display name and invite link.
///
/// The link is held as the serialization of the parsed URL.
#[derive(Debug, Clone, PartialEq, Eq, Hash, PartialOrd, Ord)]
pub struct DiscordServer {
    pub name: String,
    pub invite_url: String,
}

/// The public profile of the server an invite leads to.
#[derive(Debug, Clone)]
pub struct ServerProfile {
    pub id: String,
    pub name: String,
}

/// What the invite endpoint reports for one invite code.
#[derive(Debug, Clone)]
pub struct InviteInfo {
    pub code: String,
    pub profile: ServerProfile,
    pub approximate_member_count: usize,
    pub approximate_presence_count: usize,
}

} // verus!
