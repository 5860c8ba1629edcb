//! How what is handed on and what is answered belong together.

use vstd::prelude::*;
use vstd::utf8::*;
use crate::discord::interaction::{
    callback_tree, error_tree, failure_notice, failure_notice_tree, interaction_event,
    interaction_reply, optional_event, optional_request, options_text, thinking_tree,
};
use crate::discord::polling::mention_event;
use crate::discord::reply::{
    answer, delivery_view, interaction_answer, mention_answer, request_view,
};
use crate::discord::types::{
    DiscordChannelMessage, DiscordCommandOption, DiscordInteraction, DiscordUser, EmittedMessage,
};
use crate::http::{content_type_tree, json_bytes, HttpRequest, RequestView};
use crate::json::JsonTree;
use crate::plain;
use crate::serde_bridge::json_text;

verus! {

/// The answer to a message that an interaction gave rise to goes to that interaction.
pub proof fn answers_reach_their_interaction(
    interaction: DiscordInteraction,
    content: Seq<char>,
    embeds: Option<JsonTree>,
)
    ensures
        interaction_event(interaction) matches Some(event) ==> answer(
            event.metadata,
            content,
            embeds,
        ) == Ok::<_, Seq<char>>(
            interaction_answer(interaction.application_id@, interaction.token@, content, embeds),
        ),
{
}

/// The answer to a message that mentions the bot is a reply to that message in its
/// channel.
pub proof fn answers_reply_to_their_mention(
    msg: DiscordChannelMessage,
    bot_id: Seq<char>,
    content: Seq<char>,
    embeds: Option<JsonTree>,
)
    ensures
        answer(mention_event(msg, bot_id).metadata, content, embeds) == Ok::<_, Seq<char>>(
            mention_answer(msg.channel_id@, msg.id@, content, embeds),
        ),
{
}

/// Every interaction is answered with status 200, whatever its type.
pub proof fn interactions_are_always_acknowledged(interaction_type: u8)
    ensures
        interaction_reply(interaction_type).status == 200,
{
}

/// Only slash commands and components of a message are handed on; a slash command
/// always is.
pub proof fn only_commands_and_components_are_handed_on(interaction: DiscordInteraction)
    ensures
        interaction_event(interaction) is Some <==> (interaction.interaction_type == 2 || (
        interaction.interaction_type == 3 && interaction.message is Some)),
{
}

/// What is handed on for an interaction names the user who acts, whatever message it
/// belongs to: the member's user where there is a member, else the user of the interaction,
/// by ID and by the global name or else the user name. Where nobody acts both are empty.
pub proof fn events_name_the_user_who_acts(interaction: DiscordInteraction, user: DiscordUser)
    ensures
        interaction_event(interaction) matches Some(event) ==> {
            &&& plain::acts(interaction, user) ==> event.user_id == user.id@ && plain::is_name(
                event.user_name,
                user.global_name,
                user.username@,
            )
            &&& interaction.member is None && interaction.user is None ==> event.user_id
                == Seq::<char>::empty() && event.user_name == Some(Seq::<char>::empty())
        },
{
    match user.global_name {
        Some(global) => {
            if global@.len() == 0 {
                assert(global@ =~= Seq::<char>::empty());
            }
        },
        None => {},
    }
}

/// The author of a message does not matter to what is handed on for its component.
pub proof fn the_author_of_a_component_does_not_matter(
    interaction: DiscordInteraction,
    other: DiscordInteraction,
)
    requires
        other == (DiscordInteraction { message: other.message, ..interaction }),
        interaction.message is Some,
        other.message is Some,
        interaction.message->0.content@ == other.message->0.content@,
        interaction.message->0.channel_id@ == other.message->0.channel_id@,
    ensures
        interaction_event(interaction) == interaction_event(other),
{
}

/// What is handed on for an interaction keeps what the answer needs: its ID, its token and
/// its application, and the channel: that of the interaction for a command, that of the
/// message for a component.
pub proof fn events_keep_their_interaction(interaction: DiscordInteraction)
    ensures
        interaction_event(interaction) matches Some(event) ==> {
            &&& event.thread_id is None
            &&& event.metadata.interaction_id == Some(interaction.id@)
            &&& event.metadata.token == Some(interaction.token@)
            &&& event.metadata.application_id == Some(interaction.application_id@)
            &&& event.metadata.source_message_id is None
            &&& event.metadata.thread_id is None
            &&& interaction.interaction_type == 2 ==> event.metadata.channel_id == match interaction.channel_id {
                Some(id) => id@,
                None => Seq::<char>::empty(),
            }
            &&& interaction.interaction_type == 3 ==> event.metadata.channel_id
                == interaction.message->0.channel_id@
        },
{
}

/// What is handed on for a command is a slash, its name and, where it has options, a blank
/// and the options; for a component it is a note of the click and the text of the message.
pub proof fn events_say_what_was_done(interaction: DiscordInteraction)
    ensures
        interaction_event(interaction) matches Some(event) ==> {
            &&& interaction.interaction_type == 2 && interaction.data is None ==> event.content
                == seq!['/']
            &&& interaction.interaction_type == 2 && interaction.data is Some
                && interaction.data->0.options is None ==> event.content == seq!['/']
                + interaction.data->0.name@
            &&& interaction.interaction_type == 2 && interaction.data is Some
                && interaction.data->0.options is Some ==> event.content == seq!['/']
                + interaction.data->0.name@ + seq![' '] + options_text(
                interaction.data->0.options->0@,
            )
            &&& interaction.interaction_type == 3 ==> event.content == "[Button clicked] "@
                + interaction.message->0.content@
        },
{
    reveal_strlit("/");
    reveal_strlit(" ");
    assert("/"@ =~= seq!['/']);
    assert(" "@ =~= seq![' ']);
}

/// An option is its name, a colon, a blank and its value as JSON; a comma and a blank stand
/// between two options, and the options keep their order.
pub proof fn options_are_listed_in_order(
    first: Seq<DiscordCommandOption>,
    option: DiscordCommandOption,
)
    ensures
        options_text(Seq::empty()) == Seq::<char>::empty(),
        options_text(seq![option]) == option.name@ + seq![':', ' '] + json_text(
            option.value.tree(),
        ),
        first.len() > 0 ==> options_text(first + seq![option]) == options_text(first) + seq![
            ',',
            ' ',
        ] + options_text(seq![option]),
{
    reveal_strlit(": ");
    reveal_strlit(", ");
    assert(": "@ =~= seq![':', ' ']);
    assert(", "@ =~= seq![',', ' ']);
    if first.len() > 0 {
        assert((first + seq![option]).drop_last() == first);
        assert((first + seq![option]).last() == option);
    }
}

/// A ping is answered with a pong, a slash command with a note that the answer is on its
/// way, and anything else with an acknowledgement; each as JSON and with status 200.
pub proof fn interactions_are_answered_by_their_type(interaction_type: u8)
    ensures
        ({
            let reply = interaction_reply(interaction_type);
            &&& reply.status == 200
            &&& reply.headers_json == json_text(content_type_tree())
            &&& exists|tree: JsonTree|
                reply.body == encode_utf8(#[trigger] json_text(tree)) && plain::field(
                    tree,
                    "type"@,
                ) == Some(
                    JsonTree::Number(
                        seq![
                            if interaction_type == 1 {
                                '1'
                            } else if interaction_type == 2 {
                                '5'
                            } else {
                                '6'
                            },
                        ],
                    ),
                ) && (interaction_type == 2 ==> plain::field(tree, "data"@) is Some
                    && plain::text_under(plain::field(tree, "data"@)->0, "content"@) == Some(
                    "🤔 Thinking..."@,
                ) && crate::discord::reply::only_field(
                    plain::field(tree, "data"@)->0,
                    "content"@,
                    JsonTree::Text("🤔 Thinking..."@),
                )) && (interaction_type != 2 ==> plain::field(tree, "data"@) is None) && (forall|
                    key: Seq<char>,
                | #[trigger]
                    plain::field(tree, key) is Some ==> key == "type"@ || key == "data"@)
        }),
{
    reveal_strlit("type");
    reveal_strlit("data");
    assert("type"@[0] == 't');
    assert("data"@[0] == 'd');
    crate::digits::numbers_are_written_digit_by_digit(0, 1);
    crate::digits::numbers_are_written_digit_by_digit(0, 5);
    crate::digits::numbers_are_written_digit_by_digit(0, 6);
    let one = callback_tree(1);
    let six = callback_tree(6);
    let five = thinking_tree();
    let body = interaction_reply(interaction_type).body;
    assert(crate::digits::signed_decimal(1) =~= seq!['1']);
    assert(crate::digits::signed_decimal(5) =~= seq!['5']);
    assert(crate::digits::signed_decimal(6) =~= seq!['6']);
    if interaction_type == 1 {
        assert(body == encode_utf8(json_text(one)));
        assert(plain::field(one, "type"@) == Some(JsonTree::Number(seq!['1'])));
    } else if interaction_type == 2 {
        assert(body == encode_utf8(json_text(five)));
        assert(plain::field(five, "type"@) == Some(JsonTree::Number(seq!['5'])));
    } else {
        assert(body == encode_utf8(json_text(six)));
        assert(plain::field(six, "type"@) == Some(JsonTree::Number(seq!['6'])));
    }
}

/// What cannot be read is answered with the reason.
pub proof fn refusals_give_their_reason(reason: Seq<char>)
    ensures
        crate::discord::reply::only_field(error_tree(reason), "error"@, JsonTree::Text(reason)),
{
}

/// The notice of a command that could not be handed on goes to that command's webhook, and
/// only its user sees it.
pub proof fn failure_notices_reach_their_interaction(interaction: DiscordInteraction)
    ensures
        ({
            let notice = failure_notice(interaction);
            &&& notice.method == "POST"@
            &&& notice.url == "https://discord.com/api/v10/webhooks/"@
                + interaction.application_id@ + "/"@ + interaction.token@
            &&& notice.headers_json == json_text(content_type_tree())
            &&& notice.timeout_ms is None
            &&& exists|tree: JsonTree|
                notice.body == Some(encode_utf8(#[trigger] json_text(tree))) && plain::text_under(
                    tree,
                    "content"@,
                ) == Some("❌ Internal Error: Failed to process command metadata."@)
                    && plain::field(tree, "flags"@) == Some(JsonTree::Number(seq!['6', '4'])) && (forall|
                    key: Seq<char>,
                | #[trigger]
                    plain::field(tree, key) is Some ==> key == "content"@ || key == "flags"@)
        }),
{
    reveal_strlit("content");
    reveal_strlit("flags");
    assert("content"@.len() == 7);
    assert("flags"@.len() == 5);
    crate::digits::numbers_are_written_digit_by_digit(6, 4);
    crate::digits::numbers_are_written_digit_by_digit(0, 6);
    assert(crate::digits::signed_decimal(64) =~= seq!['6', '4']);
    let tree = failure_notice_tree();
    assert(json_bytes(tree) == encode_utf8(json_text(tree)));
}

/// What an outcome says is what it holds: a message, a request or an error, and none where
/// there is none.
pub proof fn outcomes_say_what_they_hold(
    message: EmittedMessage,
    request: HttpRequest,
    reason: String,
)
    ensures
        optional_event(Some(message)) == Some(message@),
        optional_event(None) is None,
        optional_request(Some(request)) == Some(request@),
        optional_request(None) is None,
        request_view(Ok(request)) == Ok::<_, Seq<char>>(request@),
        request_view(Err(reason)) == Err::<RequestView, _>(reason@),
        delivery_view(Ok(())) == Ok::<(), Seq<char>>(()),
        delivery_view(Err(reason)) == Err::<(), _>(reason@),
{
}

} // verus!
