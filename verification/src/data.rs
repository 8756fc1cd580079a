use vstd::prelude::*;

verus! {

// ------------------------------------------------------------------
// Inert payload shapes carried inside dispatch events. They hold no
// behavior of their own; the protocol layer routes around them.
// ------------------------------------------------------------------

/// Rich-embed content attached to a message.
#[derive(Debug, PartialEq)]
pub struct EmbedInfo {
    /// title of embed
    pub title: Option<String>,
    /// type of embed (always "rich" for webhook embeds)
    pub embed_type: Option<String>,
    /// description of embed
    pub description: Option<String>,
    /// url of embed
    pub url: Option<String>,
    /// timestamp of embed content
    pub timestamp: Option<String>,
    /// color code of the embed
    pub color: Option<i32>,
    /// footer information
    pub footer: Option<EmbedFooterInfo>,
    /// image information
    pub image: Option<EmbedMediaInfo>,
    /// thumbnail information
    pub thumbnail: Option<EmbedMediaInfo>,
    /// video information
    pub video: Option<EmbedMediaInfo>,
    /// provider information
    pub provider: Option<EmbedProviderInfo>,
    /// author information
    pub author: Option<EmbedMediaInfo>,
    /// fields information
    pub fields: Option<Vec<EmbedFieldInfo>>,
}

/// The footer of an embed.
#[derive(Debug, PartialEq)]
pub struct EmbedFooterInfo {
    /// footer text
    pub text: String,
    /// url of footer icon (only supports http(s) and attachments)
    pub icon_url: Option<String>,
    /// a proxied url of footer icon
    pub proxy_icon_url: Option<String>,
}

/// An image, video, thumbnail or author block of an embed.
#[derive(Debug, PartialEq)]
pub struct EmbedMediaInfo {
    /// source url of the media (only supports http(s) and attachments)
    pub url: Option<String>,
    /// a proxied url of the media
    pub proxy_url: Option<String>,
    /// height of the media
    pub height: Option<i32>,
    /// width of the media
    pub width: Option<i32>,
}

/// The provider of an embed.
#[derive(Debug, PartialEq)]
pub struct EmbedProviderInfo {
    /// name of provider
    pub name: Option<String>,
    /// url of provider
    pub url: Option<String>,
}

/// One named field of an embed.
#[derive(Debug, PartialEq)]
pub struct EmbedFieldInfo {
    /// name of the field
    pub name: String,
    /// value of the field
    pub value: String,
    /// whether or not this field should display inline
    pub inline: Option<bool>,
}

/// One entry of the user's relationship list.
#[derive(Debug, PartialEq)]
pub struct UserRelationship {
    pub user_id: String,
    pub relationship_type: u8,
    pub nickname: Option<String>,
    pub id: String,
}

/// A user's custom status line.
#[derive(Debug, PartialEq)]
pub struct UserCustomStatusInfo {
    pub text: String,
    pub expires_at: String,
    pub emoji_name: String,
    pub emoji_id: String,
}

} // verus!
