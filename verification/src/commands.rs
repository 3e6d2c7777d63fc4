//! The `/join` slash command: which voice channel it names, and what the
//! bot does and answers once it has looked the guild and channel up.

use twilight_model::id::marker::ChannelMarker;
use twilight_model::id::Id;
use crate::text::{decimal, digit_char};
use vstd::prelude::*;

verus! {

/// `c` is an ASCII decimal digit.
pub open spec fn is_ascii_digit(c: char) -> bool {
    48 <= (c as u32) <= 57
}

/// The value of a run of decimal digits, most significant first.
pub open spec fn digits_value(s: Seq<char>) -> nat
    decreases s.len(),
{
    if s.len() == 0 {
        0
    } else {
        digits_value(s.drop_last()) * 10 + ((s.last() as u32) - 48) as nat
    }
}

/// `s` without one leading `+`, if it has one.
pub open spec fn unsigned_digits(s: Seq<char>) -> Seq<char> {
    if s.len() > 0 && s[0] == '+' {
        s.drop_first()
    } else {
        s
    }
}

/// What parsing `s` as a non-zero `u64` gives: an optional `+`, then one or
/// more ASCII digits whose value lies in `1..=u64::MAX`; anything else is
/// refused.
pub open spec fn parse_nonzero_u64(s: Seq<char>) -> Option<u64> {
    let digits = unsigned_digits(s);
    if digits.len() > 0 && (forall|i: int| 0 <= i < digits.len() ==> is_ascii_digit(digits[i]))
        && 0 < digits_value(digits) <= u64::MAX {
        Some(digits_value(digits) as u64)
    } else {
        None
    }
}

/// The digit character of `d` is the ASCII code `48 + d`.
proof fn lemma_digit_char(d: int)
    requires
        0 <= d < 10,
    ensures
        digit_char(d) as u32 == 48 + d,
{
    let digits = seq!['0', '1', '2', '3', '4', '5', '6', '7', '8', '9'];
    if d == 0 {
        assert(digits[0] == '0');
    } else if d == 1 {
        assert(digits[1] == '1');
    } else if d == 2 {
        assert(digits[2] == '2');
    } else if d == 3 {
        assert(digits[3] == '3');
    } else if d == 4 {
        assert(digits[4] == '4');
    } else if d == 5 {
        assert(digits[5] == '5');
    } else if d == 6 {
        assert(digits[6] == '6');
    } else if d == 7 {
        assert(digits[7] == '7');
    } else if d == 8 {
        assert(digits[8] == '8');
    } else {
        assert(digits[9] == '9');
    }
}

/// The decimal digits of `n` are ASCII digits worth `n`.
proof fn lemma_decimal_digits(n: nat)
    ensures
        decimal(n).len() > 0,
        forall|i: int| 0 <= i < decimal(n).len() ==> is_ascii_digit(#[trigger] decimal(n)[i]),
        digits_value(decimal(n)) == n,
        decimal(n)[0] != '+',
    decreases n,
{
    lemma_digit_char((n % 10) as int);
    if n < 10 {
        assert(decimal(n) == seq![digit_char(n as int)]);
        assert(decimal(n).drop_last() =~= Seq::<char>::empty());
        assert(digits_value(Seq::<char>::empty()) == 0);
        assert(decimal(n).last() == digit_char(n as int));
        assert(digits_value(decimal(n)) == digits_value(decimal(n).drop_last()) * 10 + ((
        decimal(n).last() as u32) - 48) as nat);
    } else {
        lemma_decimal_digits(n / 10);
        let d = (n % 10) as int;
        assert(decimal(n) == decimal(n / 10).push(digit_char(d)));
        assert(decimal(n).drop_last() =~= decimal(n / 10));
        assert(decimal(n)[0] == decimal(n / 10)[0]);
        assert(decimal(n).last() == digit_char(d));
        assert(digits_value(decimal(n)) == digits_value(decimal(n).drop_last()) * 10 + ((
        decimal(n).last() as u32) - 48) as nat);
        assert(n / 10 * 10 + n % 10 == n);
        assert forall|i: int| 0 <= i < decimal(n).len() implies is_ascii_digit(
            #[trigger] decimal(n)[i],
        ) by {
            if i < decimal(n / 10).len() {
                assert(decimal(n)[i] == decimal(n / 10)[i]);
            }
        }
    }
}

/// The decimal text of a non-zero id, as the voice Identify writes it,
/// parses back to the same id.
pub proof fn lemma_decimal_parses_back(n: u64)
    requires
        n > 0,
    ensures
        parse_nonzero_u64(decimal(n as nat)) == Some(n),
{
    lemma_decimal_digits(n as nat);
    assert(unsigned_digits(decimal(n as nat)) == decimal(n as nat));
}

/// `s.parse::<Id<ChannelMarker>>()` (twilight-model's `FromStr for Id`,
/// which is `NonZeroU64::from_str(s).map(Id::from_nonzero)`), taken to the
/// id's number. Claims: the result is what the standard library documents
/// for parsing an unsigned integer, with zero refused as `NonZeroU64` does.
#[verifier::external_body]
fn parse_channel_id(s: &str) -> (id: Option<u64>)
    ensures
        id == parse_nonzero_u64(s@),
{
    match s.parse::<Id<ChannelMarker>>() {
        Ok(id) => Some(id.get()),
        Err(_) => None,
    }
}

/// `/join channel_id:<id>`: join the voice channel with that id.
#[derive(Debug)]
pub struct JoinCommand {
    pub channel_id: String,
}

/// What `/join` ends in once the guild and the channel were looked up.
#[derive(Debug, PartialEq, Eq, Structural)]
pub enum JoinOutcome {
    /// Both were found: the bot joins the channel.
    Joined,
    /// One of them was not found: the bot stays where it is.
    Failed,
}

impl JoinCommand {
    /// The channel's id, if the option holds a non-zero decimal number.
    pub fn channel(&self) -> (id: Option<u64>)
        ensures
            id == parse_nonzero_u64(self.channel_id@),
    {
        parse_channel_id(self.channel_id.as_str())
    }

    /// The bot joins only when both the guild and the channel were found.
    pub fn outcome(guild_found: bool, channel_found: bool) -> (outcome: JoinOutcome)
        ensures
            outcome == (if guild_found && channel_found {
                JoinOutcome::Joined
            } else {
                JoinOutcome::Failed
            }),
    {
        if guild_found && channel_found {
            JoinOutcome::Joined
        } else {
            JoinOutcome::Failed
        }
    }
}

impl JoinOutcome {
    /// The bot joins the voice channel.
    pub fn joins_channel(&self) -> (joins: bool)
        ensures
            joins == (*self == JoinOutcome::Joined),
    {
        match self {
            JoinOutcome::Joined => true,
            JoinOutcome::Failed => false,
        }
    }

    /// The bot's reply to the command.
    pub fn reply(&self) -> (content: &'static str)
        ensures
            *self == JoinOutcome::Joined ==> content@ == "Joined voice channel"@,
            *self == JoinOutcome::Failed ==> content@ == "Failed to join voice channel"@,
    {
        match self {
            JoinOutcome::Joined => "Joined voice channel",
            JoinOutcome::Failed => "Failed to join voice channel",
        }
    }
}

} // verus!
