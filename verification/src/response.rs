use vstd::prelude::*;

use crate::matching::{
    regex_is_match, regex_is_valid, regex_match, regex_replace, regex_replace_all, regex_valid,
};

verus! {

// Reactive response decisions for timeline statuses and notifications:
// given the matched text and the query instant's second, decide whether
// and how to reply.  Listening to the stream, composing the content
// features' replies, and posting are the caller's work; the decision is
// made here.

/// The options of a poll attached to a reply.
#[derive(Debug)]
pub struct PollOptions {
    pub options: Vec<String>,
    pub expires_in: u64,
}

impl PollOptions {
    pub fn new(options: Vec<String>, expires_in: u64) -> (r: PollOptions)
        ensures
            r.options == options,
            r.expires_in == expires_in,
    {
        PollOptions { options, expires_in }
    }
}

/// A decided reply: its text, whether it must be posted publicly without
/// a mention or a reply mark, and an attached poll, if any.
#[derive(Debug)]
pub struct StatusReply {
    pub text: String,
    pub force_public: bool,
    pub mention: bool,
    pub keep_reply_id: bool,
    pub poll: Option<PollOptions>,
}

/// The configuration of the status responder.
#[derive(Debug)]
pub struct StatusConfig {
    pub keemasan_regex: String,
    pub oshiete_regex: String,
    pub healthcheck_regex: String,
    pub healthcheck_responses: Vec<String>,
    pub can_i_regex: String,
    pub can_i_responses: Vec<String>,
    pub can_i_poll_secs: Vec<u8>,
    pub can_i_poll_options: Vec<String>,
    pub can_i_poll_expires_in: u64,
    pub ignore_acct_regex: Vec<String>,
    pub tag_p_regex: String,
    pub tag_other_regex: String,
}

/// The status responder.
#[derive(Debug)]
pub struct StatusProcessor {
    pub config: StatusConfig,
}

/// Whether a valid pattern of the list matches `text`.
pub open spec fn any_matches(patterns: Seq<String>, text: Seq<char>) -> bool {
    exists|i: int|
        0 <= i < patterns.len() && regex_valid(#[trigger] patterns[i]@) && regex_match(
            patterns[i]@,
            text,
        )
}

/// Whether a single configured pattern matches `text`.
pub open spec fn one_matches(pattern: Seq<char>, text: Seq<char>) -> bool {
    regex_valid(pattern) && regex_match(pattern, text)
}

impl StatusProcessor {
    /// Well-formedness: response lists are never empty, so a second of
    /// the minute always picks a response.
    pub open spec fn wf(self) -> bool {
        &&& 1 <= self.config.healthcheck_responses@.len()
        &&& 1 <= self.config.can_i_responses@.len()
    }

    /// Whether statuses of this account are ignored.
    pub fn is_ignore(&self, acct: &str) -> (r: bool)
        ensures
            r == any_matches(self.config.ignore_acct_regex@, acct@),
    {
        let mut i: usize = 0;
        while i < self.config.ignore_acct_regex.len()
            invariant
                i <= self.config.ignore_acct_regex@.len(),
                forall|j: int|
                    0 <= j < i ==> !(regex_valid(
                        #[trigger] self.config.ignore_acct_regex@[j]@,
                    ) && regex_match(self.config.ignore_acct_regex@[j]@, acct@)),
            decreases self.config.ignore_acct_regex@.len() - i,
        {
            let p = &self.config.ignore_acct_regex[i];
            if regex_is_valid(p.as_str()) && regex_is_match(p.as_str(), acct) {
                return true;
            }
            i = i + 1;
        }
        false
    }

    fn matches_one(pattern: &String, text: &str) -> (r: bool)
        ensures
            r == one_matches(pattern@, text@),
    {
        regex_is_valid(pattern.as_str()) && regex_is_match(pattern.as_str(), text)
    }

    /// Whether `sec` is one of the poll-trigger seconds.
    pub fn is_poll(&self, sec: u8) -> (r: bool)
        ensures
            r == (exists|i: int|
                0 <= i < self.config.can_i_poll_secs@.len()
                    && #[trigger] self.config.can_i_poll_secs@[i] == sec),
    {
        let mut i: usize = 0;
        while i < self.config.can_i_poll_secs.len()
            invariant
                i <= self.config.can_i_poll_secs@.len(),
                forall|j: int| 0 <= j < i ==> self.config.can_i_poll_secs@[j] != sec,
            decreases self.config.can_i_poll_secs@.len() - i,
        {
            if self.config.can_i_poll_secs[i] == sec {
                return true;
            }
            i = i + 1;
        }
        false
    }

    /// The poll question: the text with the bot's name, paragraph tags
    /// and other markup stripped.
    pub open spec fn poll_text(self, text: Seq<char>) -> Seq<char> {
        regex_replace(
            self.config.tag_other_regex@,
            regex_replace(
                self.config.tag_p_regex@,
                regex_replace(self.config.keemasan_regex@, text, Seq::empty()),
                "\n"@,
            ),
            Seq::empty(),
        )
    }

    /// Strip the bot's name and markup from a poll question; the text is
    /// returned unchanged where a pattern does not compile.
    pub fn format_for_poll(&self, text: &str) -> (r: String)
        ensures
            (regex_valid(self.config.keemasan_regex@) && regex_valid(self.config.tag_p_regex@)
                && regex_valid(self.config.tag_other_regex@)) ==> r@ == self.poll_text(text@),
            !(regex_valid(self.config.keemasan_regex@) && regex_valid(self.config.tag_p_regex@)
                && regex_valid(self.config.tag_other_regex@)) ==> r@ == text@,
    {
        if regex_is_valid(self.config.keemasan_regex.as_str()) && regex_is_valid(
            self.config.tag_p_regex.as_str(),
        ) && regex_is_valid(self.config.tag_other_regex.as_str()) {
            let s1 = regex_replace_all(self.config.keemasan_regex.as_str(), text, "");
            let s2 = regex_replace_all(self.config.tag_p_regex.as_str(), s1.as_str(), "\n");
            let s3 = regex_replace_all(self.config.tag_other_regex.as_str(), s2.as_str(), "");
            proof {
                reveal_strlit("");
                assert(""@ =~= Seq::<char>::empty());
            }
            s3
        } else {
            text.to_owned()
        }
    }

    /// Decide the reply to a status: an ignored account gets nothing; a
    /// question to the bot gets the features' joined reply, or a shrug;
    /// a health check or a permission question gets a canned response
    /// picked by the second, the latter sometimes as a public poll; and
    /// anything else falls through to the banter reply.
    pub fn process_status(
        &self,
        acct: &String,
        content: &str,
        is_local_public: bool,
        second: u8,
        responder_reply: Option<String>,
        keema_reply: Option<String>,
    ) -> (r: Option<StatusReply>)
        requires
            self.wf(),
            second < 60,
        ensures
            any_matches(self.config.ignore_acct_regex@, acct@) ==> r is None,
            !any_matches(self.config.ignore_acct_regex@, acct@) ==> {
                let oshiete = one_matches(self.config.oshiete_regex@, content@) && one_matches(
                    self.config.keemasan_regex@,
                    content@,
                );
                let healthcheck = one_matches(self.config.keemasan_regex@, content@)
                    && one_matches(self.config.healthcheck_regex@, content@);
                let can_i = one_matches(self.config.keemasan_regex@, content@) && one_matches(
                    self.config.can_i_regex@,
                    content@,
                );
                let poll_sec = exists|i: int|
                    0 <= i < self.config.can_i_poll_secs@.len()
                        && #[trigger] self.config.can_i_poll_secs@[i] == second;
                if oshiete {
                    (r matches Some(rep) && rep.mention && rep.keep_reply_id == !is_local_public
                        && !rep.force_public && rep.poll is None && (match responder_reply {
                        Option::Some(t) => rep.text@ == t@,
                        Option::None => rep.text@ == "？"@,
                    }))
                } else if healthcheck {
                    (r matches Some(rep) && rep.mention && rep.keep_reply_id && !rep.force_public
                        && rep.poll is None && rep.text@
                        == self.config.healthcheck_responses@[second as int % self.config.healthcheck_responses@.len() as int]@)
                } else if can_i && poll_sec {
                    (r matches Some(rep) && !rep.mention && !rep.keep_reply_id && rep.force_public
                        && (rep.poll matches Some(p) && p.options@
                        == self.config.can_i_poll_options@ && p.expires_in
                        == self.config.can_i_poll_expires_in) && ((regex_valid(
                        self.config.keemasan_regex@,
                    ) && regex_valid(self.config.tag_p_regex@) && regex_valid(
                        self.config.tag_other_regex@,
                    )) ==> rep.text@ == self.poll_text(content@)))
                } else if can_i {
                    (r matches Some(rep) && rep.mention && rep.keep_reply_id && !rep.force_public
                        && rep.poll is None && rep.text@
                        == self.config.can_i_responses@[second as int % self.config.can_i_responses@.len() as int]@)
                } else {
                    match keema_reply {
                        Option::Some(t) => (r matches Some(rep) && rep.mention
                            && rep.keep_reply_id && !rep.force_public && rep.poll is None
                            && rep.text@ == t@),
                        Option::None => r is None,
                    }
                }
            },
    {
        if self.is_ignore(acct.as_str()) {
            return None;
        }
        let keemasan = StatusProcessor::matches_one(&self.config.keemasan_regex, content);
        let oshiete = StatusProcessor::matches_one(&self.config.oshiete_regex, content) && keemasan;
        if oshiete {
            let text = match responder_reply {
                Some(t) => t,
                None => "？".to_owned(),
            };
            return Some(
                StatusReply {
                    text,
                    force_public: false,
                    mention: true,
                    keep_reply_id: !is_local_public,
                    poll: None,
                },
            );
        }
        if keemasan && StatusProcessor::matches_one(&self.config.healthcheck_regex, content) {
            let idx = (second as usize) % self.config.healthcheck_responses.len();
            return Some(
                StatusReply {
                    text: self.config.healthcheck_responses[idx].clone(),
                    force_public: false,
                    mention: true,
                    keep_reply_id: true,
                    poll: None,
                },
            );
        }
        if keemasan && StatusProcessor::matches_one(&self.config.can_i_regex, content) {
            if self.is_poll(second) {
                let mut opts: Vec<String> = Vec::new();
                let mut i: usize = 0;
                while i < self.config.can_i_poll_options.len()
                    invariant
                        i <= self.config.can_i_poll_options@.len(),
                        opts@.len() == i,
                        forall|k: int|
                            0 <= k < i ==> #[trigger] opts@[k]
                                == self.config.can_i_poll_options@[k],
                    decreases self.config.can_i_poll_options@.len() - i,
                {
                    opts.push(self.config.can_i_poll_options[i].clone());
                    i = i + 1;
                }
                proof {
                    assert(opts@ =~= self.config.can_i_poll_options@);
                }
                return Some(
                    StatusReply {
                        text: self.format_for_poll(content),
                        force_public: true,
                        mention: false,
                        keep_reply_id: false,
                        poll: Some(
                            PollOptions::new(opts, self.config.can_i_poll_expires_in),
                        ),
                    },
                );
            }
            let idx = (second as usize) % self.config.can_i_responses.len();
            return Some(
                StatusReply {
                    text: self.config.can_i_responses[idx].clone(),
                    force_public: false,
                    mention: true,
                    keep_reply_id: true,
                    poll: None,
                },
            );
        }
        match keema_reply {
            Some(t) => Some(
                StatusReply {
                    text: t,
                    force_public: false,
                    mention: true,
                    keep_reply_id: true,
                    poll: None,
                },
            ),
            None => None,
        }
    }
}

/// The configuration of the notification responder.
#[derive(Debug)]
pub struct NotificationConfig {
    pub follow_regex: String,
    pub unfollow_regex: String,
    pub followed_message: String,
    pub unfollowed_message: String,
}

/// The decided reaction to a mention: follow the sender back and confirm,
/// unfollow and confirm, or nothing.
#[derive(Debug)]
pub enum FollowAction {
    Follow { message: String },
    Unfollow { message: String },
    NoAction,
}

/// The notification responder.
#[derive(Debug)]
pub struct NotificationProcessor {
    pub config: NotificationConfig,
}

impl NotificationProcessor {
    /// Decide the reaction to a mention's text: a follow request is
    /// answered by following and the follow confirmation, an unfollow
    /// request by unfollowing and its confirmation, anything else by
    /// nothing.
    pub fn process(&self, content: &str) -> (r: FollowAction)
        ensures
            one_matches(self.config.follow_regex@, content@) ==> (r matches FollowAction::Follow {
                message,
            } && message@ == self.config.followed_message@),
            (!one_matches(self.config.follow_regex@, content@) && one_matches(
                self.config.unfollow_regex@,
                content@,
            )) ==> (r matches FollowAction::Unfollow { message } && message@
                == self.config.unfollowed_message@),
            (!one_matches(self.config.follow_regex@, content@) && !one_matches(
                self.config.unfollow_regex@,
                content@,
            )) ==> r is NoAction,
    {
        if StatusProcessor::matches_one(&self.config.follow_regex, content) {
            FollowAction::Follow { message: self.config.followed_message.clone() }
        } else if StatusProcessor::matches_one(&self.config.unfollow_regex, content) {
            FollowAction::Unfollow { message: self.config.unfollowed_message.clone() }
        } else {
            FollowAction::NoAction
        }
    }
}

} // verus!
