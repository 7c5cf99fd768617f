//! The chat message: the greeting, the mentions under it, and where and how
//! it is sent.

use crate::members::members_view;
use crate::text::{append_decimal, decimal, join};
use vstd::prelude::*;
use vstd::string::*;

verus! {

/// The token that mentions one recipient.
pub open spec fn mention(id: u64) -> Seq<char> {
    "<@"@ + decimal(id as nat) + ">"@
}

/// The mention tokens of a list of members, in its order.
pub open spec fn mention_tokens(members: Seq<(Seq<char>, u64)>) -> Seq<Seq<char>> {
    Seq::new(members.len(), |i: int| mention(members[i].1))
}

/// The message: the greeting, a line break, and the mentions with a blank
/// between each two.
pub open spec fn message_text(members: Seq<(Seq<char>, u64)>, greeting: Seq<char>) -> Seq<char> {
    greeting + "\n"@ + join(mention_tokens(members), " "@)
}

/// Puts the mentions of the members under the greeting.
pub fn format_message(members: &[(String, u64)], generated_message: &str) -> (message: String)
    ensures
        message@ == message_text(members_view(members@), generated_message@),
{
    let ghost tokens = mention_tokens(members_view(members@));
    let mut message = String::from_str(generated_message);
    message.append("\n");
    let n = members.len();
    let mut i: usize = 0;
    assert(tokens.subrange(0, 0) =~= Seq::<Seq<char>>::empty());
    assert(message@ =~= generated_message@ + "\n"@ + join(tokens.subrange(0, 0), " "@));
    while i < n
        invariant
            i <= n,
            n == members@.len(),
            tokens == mention_tokens(members_view(members@)),
            message@ == generated_message@ + "\n"@ + join(tokens.subrange(0, i as int), " "@),
        decreases n - i,
    {
        let ghost before = message@;
        let ghost done = join(tokens.subrange(0, i as int), " "@);
        if i > 0 {
            message.append(" ");
        }
        message.append("<@");
        append_decimal(&mut message, members[i].1);
        message.append(">");
        proof {
            let next = tokens.subrange(0, i + 1);
            assert(next.drop_last() =~= tokens.subrange(0, i as int));
            assert(next.last() == mention(members@[i as int].1));
            if i > 0 {
                assert(message@ =~= generated_message@ + "\n"@ + (done + " "@ + next.last()));
            } else {
                assert(done =~= Seq::<char>::empty());
                assert(message@ =~= generated_message@ + "\n"@ + next.last());
            }
        }
        i += 1;
    }
    assert(tokens.subrange(0, n as int) =~= tokens);
    message
}

/// The address to which the messages of a channel are posted.
pub open spec fn message_url_text(channel_id: Seq<char>) -> Seq<char> {
    "https://discord.com/api/v9/channels/"@ + channel_id + "/messages"@
}

/// Writes the address to which the messages of a channel are posted.
pub fn message_url(channel_id: &str) -> (url: String)
    ensures
        url@ == message_url_text(channel_id@),
{
    let mut url = String::from_str("https://discord.com/api/v9/channels/");
    url.append(channel_id);
    url.append("/messages");
    url
}

/// What is reported when a setting is missing: the setting and the cause.
pub open spec fn env_var_error_text(var: Seq<char>, cause: Seq<char>) -> Seq<char> {
    "Failed to find "@ + var + ": "@ + cause
}

/// Writes the report of a missing setting.
pub fn env_var_error(var: &str, cause: &str) -> (report: String)
    ensures
        report@ == env_var_error_text(var@, cause@),
{
    let mut report = String::from_str("Failed to find ");
    report.append(var);
    report.append(": ");
    report.append(cause);
    report
}

/// What is reported when the list of members cannot be read.
pub open spec fn members_error_text(cause: Seq<char>) -> Seq<char> {
    "Failed to read 'GOOD_MORNING_MEMBERS': "@ + cause
}

/// Writes the report of an unreadable list of members.
pub fn members_error(cause: &str) -> (report: String)
    ensures
        report@ == members_error_text(cause@),
{
    let mut report = String::from_str("Failed to read 'GOOD_MORNING_MEMBERS': ");
    report.append(cause);
    report
}

/// What is reported when the message could not be sent: the cause, as the
/// transport or the service gave it, behind a fixed opening.
pub open spec fn send_error_text(cause: Seq<char>) -> Seq<char> {
    "Failed to send message: "@ + cause
}

/// Writes the report of a failed post.
pub fn send_error(cause: &str) -> (report: String)
    ensures
        report@ == send_error_text(cause@),
{
    let mut report = String::from_str("Failed to send message: ");
    report.append(cause);
    report
}

/// Whether a byte may stand in the value of a request header: the tab, and
/// every byte from the blank on but the delete character.
pub open spec fn is_header_byte(b: u8) -> bool {
    (b >= 32 && b != 127) || b == 9
}

/// Whether a text may be the value of a request header: each byte of its
/// UTF-8 form may stand there.
pub open spec fn is_header_value(text: Seq<char>) -> bool {
    let bytes = vstd::utf8::encode_utf8(text);
    forall|i: int| 0 <= i < bytes.len() ==> is_header_byte(#[trigger] bytes[i])
}

/// Asks `reqwest::header::HeaderValue::from_str` whether it takes the text.
/// Not proved: that it takes a text exactly when every byte of it is a tab,
/// or is at least 32 and not 127, which is the test it makes byte by byte.
#[verifier::external_body]
fn header_value_accepts(text: &str) -> (accepted: bool)
    ensures
        accepted == is_header_value(text@),
{
    reqwest::header::HeaderValue::from_str(text).is_ok()
}

/// What is reported of a token that cannot be sent in a header.
pub open spec fn token_error_text() -> Seq<char> {
    "failed to parse header value"@
}

/// Checks that the token can be sent in the authorization header.
pub fn check_token(token: &str) -> (checked: Result<(), String>)
    ensures
        checked is Ok <==> is_header_value(token@),
        checked is Err ==> checked->Err_0@ == token_error_text(),
{
    if header_value_accepts(token) {
        Ok(())
    } else {
        Err(String::from_str("failed to parse header value"))
    }
}

} // verus!
