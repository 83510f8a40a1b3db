//! The permissions that the chat platform knows.

use vstd::prelude::*;

verus! {

/// A permission that a role can grant to its holders.
#[allow(dead_code)]
#[derive(PartialEq, Eq, Copy, Clone, Hash, Debug, Structural)]
pub enum Permission {
    // General permissions
    Administrator,
    ViewAuditLog,
    ViewServerInsights,
    ManageServer,
    ManageRoles,
    ManageChannels,
    KickMembers,
    BanMembers,
    CreateInstantInvite,
    ChangeNickname,
    ManageNicknames,
    ManageEmojis,
    ManageWebhooks,
    ViewChannels,
    // Text permissions
    SendMessages,
    SendTTSMessages,
    ManageMessages,
    EmbedLinks,
    AttachFiles,
    ReadMessageHistory,
    MentionEveryone,
    UseExternalEmojis,
    AddReactions,
    UseSlashCommands,
    // Voice permissions
    Connect,
    Speak,
    Video,
    MuteMembers,
    DeafenMembers,
    MoveMembers,
    UseVoiceActivity,
    PrioritySpeaker,
}

} // verus!
