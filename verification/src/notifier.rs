//! Status messages for the operator channel. This module says what is sent
//! and to whom; sending is the caller's business.

use crate::hook_configuration::{SlackConfiguration, SlackConfigurationView};
use crate::text::{clone_opt, opt_view};
use vstd::prelude::*;

verus! {

/// One message for the operator channel, with everything the transport needs
/// to deliver it.
#[derive(Debug, PartialEq, Eq)]
pub struct Notification {
    pub webhook_url: String,
    pub text: String,
    pub channel: String,
    pub username: String,
    pub icon_url: Option<String>,
    pub icon_emoji: Option<String>,
    pub unfurl_links: bool,
    pub link_names: bool,
}

/// The mathematical content of a [`Notification`].
pub struct NotificationView {
    pub webhook_url: Seq<char>,
    pub text: Seq<char>,
    pub channel: Seq<char>,
    pub username: Seq<char>,
    pub icon_url: Option<Seq<char>>,
    pub icon_emoji: Option<Seq<char>>,
    pub unfurl_links: bool,
    pub link_names: bool,
}

impl View for Notification {
    type V = NotificationView;

    open spec fn view(&self) -> NotificationView {
        NotificationView {
            webhook_url: self.webhook_url@,
            text: self.text@,
            channel: self.channel@,
            username: self.username@,
            icon_url: opt_view(self.icon_url),
            icon_emoji: opt_view(self.icon_emoji),
            unfurl_links: self.unfurl_links,
            link_names: self.link_names,
        }
    }
}

/// The message that carries `text` to the channel that `slack` describes:
/// links are unfurled and names are not linked.
pub open spec fn notification_for(slack: SlackConfigurationView, text: Seq<char>) -> NotificationView {
    NotificationView {
        webhook_url: slack.webhook_url,
        text,
        channel: slack.channel,
        username: slack.username,
        icon_url: slack.icon_url,
        icon_emoji: slack.icon_emoji,
        unfurl_links: true,
        link_names: false,
    }
}

/// The content of an optional message.
pub open spec fn notice_view(n: Option<Notification>) -> Option<NotificationView> {
    match n {
        Some(m) => Some(m@),
        None => None,
    }
}

impl Notification {
    /// The message that carries `text` to the channel that `slack` describes.
    pub fn new(slack: &SlackConfiguration, text: String) -> (notification: Notification)
        ensures
            notification@ == notification_for(slack@, text@),
    {
        Notification {
            webhook_url: slack.webhook_url.clone(),
            text,
            channel: slack.channel.clone(),
            username: slack.username.clone(),
            icon_url: clone_opt(&slack.icon_url),
            icon_emoji: clone_opt(&slack.icon_emoji),
            unfurl_links: true,
            link_names: false,
        }
    }
}

} // verus!
