use vstd::prelude::*;

verus! {

/// Somewhere to send a text message.
pub trait Messenger {
    fn send(&self, msg: &str);
}

/// How much of a quota a value uses.
#[derive(Clone, Copy, Debug, PartialEq, Eq, Structural)]
pub enum QuotaLevel {
    /// Under 75%.
    Within,
    /// At least 75%.
    Warning,
    /// At least 90%.
    Urgent,
    /// At least 100%.
    Over,
}

/// The level of `value` against `max`, with the percentage taken as the exact
/// ratio `value / max`. A zero maximum puts every positive value over quota
/// and leaves zero within it.
pub open spec fn quota_level(value: nat, max: nat) -> QuotaLevel {
    if (max == 0 && value > 0) || (max > 0 && value >= max) {
        QuotaLevel::Over
    } else if max > 0 && 10 * value >= 9 * max {
        QuotaLevel::Urgent
    } else if max > 0 && 4 * value >= 3 * max {
        QuotaLevel::Warning
    } else {
        QuotaLevel::Within
    }
}

/// The message that goes with a level, if any.
pub open spec fn quota_message(level: QuotaLevel) -> Option<Seq<char>> {
    match level {
        QuotaLevel::Within => None,
        QuotaLevel::Warning => Some("Warning: You've used up over 75% of your quota!"@),
        QuotaLevel::Urgent => Some("Urgent warning: You've used up over 90% of your quota!"@),
        QuotaLevel::Over => Some("Error: You are over your quota!"@),
    }
}

/// The characters of an optional message.
pub open spec fn message_view(m: Option<&str>) -> Option<Seq<char>> {
    match m {
        Some(s) => Some(s@),
        None => None,
    }
}

/// The level of `value` against `max`.
pub fn level_of(value: usize, max: usize) -> (r: QuotaLevel)
    ensures
        r == quota_level(value as nat, max as nat),
{
    let v = value as u128;
    let m = max as u128;
    if (m == 0 && v > 0) || (m > 0 && v >= m) {
        QuotaLevel::Over
    } else if m > 0 && 10 * v >= 9 * m {
        QuotaLevel::Urgent
    } else if m > 0 && 4 * v >= 3 * m {
        QuotaLevel::Warning
    } else {
        QuotaLevel::Within
    }
}

impl QuotaLevel {
    /// The message for this level; none under 75%.
    pub fn message(&self) -> (r: Option<&'static str>)
        ensures
            message_view(r) == quota_message(*self),
    {
        match self {
            QuotaLevel::Within => None,
            QuotaLevel::Warning => Some("Warning: You've used up over 75% of your quota!"),
            QuotaLevel::Urgent => Some("Urgent warning: You've used up over 90% of your quota!"),
            QuotaLevel::Over => Some("Error: You are over your quota!"),
        }
    }
}

/// Tracks a value against a maximum and tells a messenger when the value
/// reaches 75%, 90% or 100% of it.
pub struct LimitTracker<'a, T: Messenger> {
    messenger: &'a T,
    value: usize,
    max: usize,
}

impl<'a, T> LimitTracker<'a, T> where T: Messenger {
    /// The value last set.
    pub closed spec fn current(&self) -> usize {
        self.value
    }

    /// The maximum given at construction.
    pub closed spec fn maximum(&self) -> usize {
        self.max
    }

    /// The messenger told of each level reached.
    pub closed spec fn notified(&self) -> &'a T {
        self.messenger
    }

    /// A tracker at value 0 against `max`.
    pub fn new(messenger: &'a T, max: usize) -> (r: LimitTracker<'a, T>)
        ensures
            r.current() == 0,
            r.maximum() == max,
            r.notified() == messenger,
    {
        LimitTracker { messenger, value: 0, max }
    }

    /// Sets the value (not adding to it) and sends the messenger the message
    /// for the level of the new value, if there is one; the message sent is
    /// returned. Each call judges the new value afresh.
    pub fn set_value(&mut self, value: usize) -> (sent: Option<&'static str>)
        ensures
            final(self).current() == value,
            final(self).maximum() == old(self).maximum(),
            final(self).notified() == old(self).notified(),
            message_view(sent) == quota_message(quota_level(value as nat, old(self).maximum() as nat)),
    {
        self.value = value;
        let level = level_of(self.value, self.max);
        let sent = level.message();
        match sent {
            Some(msg) => self.messenger.send(msg),
            None => {},
        }
        sent
    }
}

} // verus!
