//! The Discord activity being built: texts, images and timestamps, with
//! empty texts treated as absent.
use vstd::prelude::*;
use crate::text::char_len;

verus! {

/// A rich-presence activity. Timestamps are whole seconds since the epoch.
#[derive(Debug, Clone)]
pub struct Activity {
    pub details: Option<String>,
    pub state: Option<String>,
    pub large_image: Option<String>,
    pub large_text: Option<String>,
    pub small_image: Option<String>,
    pub small_text: Option<String>,
    pub start_time: Option<u64>,
    pub end_time: Option<u64>,
}

pub struct ActivityV {
    pub details: Option<Seq<char>>,
    pub state: Option<Seq<char>>,
    pub large_image: Option<Seq<char>>,
    pub large_text: Option<Seq<char>>,
    pub small_image: Option<Seq<char>>,
    pub small_text: Option<Seq<char>>,
    pub start_time: Option<u64>,
    pub end_time: Option<u64>,
}

pub open spec fn ov(o: Option<String>) -> Option<Seq<char>> {
    match o {
        Some(s) => Some(s@),
        None => None,
    }
}

impl View for Activity {
    type V = ActivityV;

    open spec fn view(&self) -> ActivityV {
        ActivityV {
            details: ov(self.details),
            state: ov(self.state),
            large_image: ov(self.large_image),
            large_text: ov(self.large_text),
            small_image: ov(self.small_image),
            small_text: ov(self.small_text),
            start_time: self.start_time,
            end_time: self.end_time,
        }
    }
}

/// A text field as stored: an empty text is no text.
pub open spec fn text_field(s: Seq<char>) -> Option<Seq<char>> {
    if s.len() == 0 { None } else { Some(s) }
}

fn text_value(s: String) -> (r: Option<String>)
    ensures
        ov(r) == text_field(s@),
{
    if char_len(s.as_str()) == 0 { None } else { Some(s) }
}

impl Activity {
    /// An activity with nothing set.
    pub fn new() -> (r: Self)
        ensures
            r@ == (ActivityV {
                details: None,
                state: None,
                large_image: None,
                large_text: None,
                small_image: None,
                small_text: None,
                start_time: None,
                end_time: None,
            }),
    {
        Activity {
            details: None,
            state: None,
            large_image: None,
            large_text: None,
            small_image: None,
            small_text: None,
            start_time: None,
            end_time: None,
        }
    }

    pub fn set_details(&mut self, details: String)
        ensures
            final(self)@ == (ActivityV { details: text_field(details@), ..old(self)@ }),
    {
        self.details = text_value(details);
    }

    pub fn set_state(&mut self, state: String)
        ensures
            final(self)@ == (ActivityV { state: text_field(state@), ..old(self)@ }),
    {
        self.state = text_value(state);
    }

    pub fn set_large_image(&mut self, large_image: String)
        ensures
            final(self)@ == (ActivityV { large_image: text_field(large_image@), ..old(self)@ }),
    {
        self.large_image = text_value(large_image);
    }

    pub fn set_large_text(&mut self, large_text: String)
        ensures
            final(self)@ == (ActivityV { large_text: text_field(large_text@), ..old(self)@ }),
    {
        self.large_text = text_value(large_text);
    }

    pub fn set_small_image(&mut self, small_image: String)
        ensures
            final(self)@ == (ActivityV { small_image: text_field(small_image@), ..old(self)@ }),
    {
        self.small_image = text_value(small_image);
    }

    pub fn set_small_text(&mut self, small_text: String)
        ensures
            final(self)@ == (ActivityV { small_text: text_field(small_text@), ..old(self)@ }),
    {
        self.small_text = text_value(small_text);
    }

    pub fn set_start_time(&mut self, start_time: u64)
        ensures
            final(self)@ == (ActivityV { start_time: Some(start_time), ..old(self)@ }),
    {
        self.start_time = Some(start_time);
    }

    pub fn set_end_time(&mut self, end_time: u64)
        ensures
            final(self)@ == (ActivityV { end_time: Some(end_time), ..old(self)@ }),
    {
        self.end_time = Some(end_time);
    }

    /// What is sent to Discord: image texts only with their image, the
    /// small image only with a large one, timestamps where set.
    pub fn to_discord_fields(&self) -> (r: DiscordFields)
        ensures
            r@ == discord_fields(self@),
    {
        let has_large = self.large_image.is_some();
        let has_small = has_large && self.small_image.is_some();
        DiscordFields {
            details: self.details.clone(),
            state: self.state.clone(),
            large_image: if has_large { self.large_image.clone() } else { None },
            large_text: if has_large { self.large_text.clone() } else { None },
            small_image: if has_small { self.small_image.clone() } else { None },
            small_text: if has_small { self.small_text.clone() } else { None },
            start: self.start_time,
            end: self.end_time,
        }
    }

    /// Two activities show the same: equal texts and images, and equal
    /// timestamps where both have one.
    pub fn same_as(&self, other: &Activity) -> (r: bool)
        ensures
            r == same_activity(self@, other@),
    {
        let texts = opt_eq(&self.details, &other.details) && opt_eq(&self.state, &other.state)
            && opt_eq(&self.large_image, &other.large_image) && opt_eq(&self.large_text, &other.large_text)
            && opt_eq(&self.small_image, &other.small_image) && opt_eq(&self.small_text, &other.small_text);
        let start_ok = match (self.start_time, other.start_time) {
            (Some(a), Some(b)) => a == b,
            _ => true,
        };
        let end_ok = match (self.end_time, other.end_time) {
            (Some(a), Some(b)) => a == b,
            _ => true,
        };
        texts && start_ok && end_ok
    }
}

fn opt_eq(a: &Option<String>, b: &Option<String>) -> (r: bool)
    ensures
        r == (ov(*a) == ov(*b)),
{
    crate::text::opt_string_eq(a, b)
}

/// Equality of activities as shown: timestamps count only where both are set.
pub open spec fn same_activity(a: ActivityV, b: ActivityV) -> bool {
    &&& a.details == b.details && a.state == b.state
    &&& a.large_image == b.large_image && a.large_text == b.large_text
    &&& a.small_image == b.small_image && a.small_text == b.small_text
    &&& (a.start_time is Some && b.start_time is Some ==> a.start_time == b.start_time)
    &&& (a.end_time is Some && b.end_time is Some ==> a.end_time == b.end_time)
}

/// The fields of the activity sent to Discord.
#[derive(Debug, Clone)]
pub struct DiscordFields {
    pub details: Option<String>,
    pub state: Option<String>,
    pub large_image: Option<String>,
    pub large_text: Option<String>,
    pub small_image: Option<String>,
    pub small_text: Option<String>,
    pub start: Option<u64>,
    pub end: Option<u64>,
}

impl View for DiscordFields {
    type V = ActivityV;

    open spec fn view(&self) -> ActivityV {
        ActivityV {
            details: ov(self.details),
            state: ov(self.state),
            large_image: ov(self.large_image),
            large_text: ov(self.large_text),
            small_image: ov(self.small_image),
            small_text: ov(self.small_text),
            start_time: self.start,
            end_time: self.end,
        }
    }
}

pub open spec fn discord_fields(a: ActivityV) -> ActivityV {
    let has_large = a.large_image is Some;
    let has_small = has_large && a.small_image is Some;
    ActivityV {
        details: a.details,
        state: a.state,
        large_image: if has_large { a.large_image } else { None },
        large_text: if has_large { a.large_text } else { None },
        small_image: if has_small { a.small_image } else { None },
        small_text: if has_small { a.small_text } else { None },
        start_time: a.start_time,
        end_time: a.end_time,
    }
}

/// Activity comparison is reflexive and symmetric (it is not transitive:
/// an activity without timestamps is the same as two that differ in theirs).
pub proof fn law_same_activity_reflexive_symmetric(a: ActivityV, b: ActivityV)
    ensures
        same_activity(a, a),
        same_activity(a, b) == same_activity(b, a),
{
}

/// What goes to Discord: the texts and times as they are; the large image
/// and its text whenever there is a large image; the small image and its
/// text alongside it whenever there is a large image too; no image or image
/// text at all without a large image.
pub proof fn law_discord_fields_images(a: ActivityV)
    ensures
        discord_fields(a).details == a.details && discord_fields(a).state == a.state,
        discord_fields(a).start_time == a.start_time && discord_fields(a).end_time == a.end_time,
        a.large_image is Some ==> discord_fields(a).large_image == a.large_image
            && discord_fields(a).large_text == a.large_text
            && discord_fields(a).small_image == a.small_image
            && discord_fields(a).small_text == (if a.small_image is Some { a.small_text } else { None }),
        a.large_image is None ==> discord_fields(a).large_image is None && discord_fields(a).large_text is None
            && discord_fields(a).small_image is None && discord_fields(a).small_text is None,
{
}

} // verus!
