//! The command dispatcher: classifies one inbound chat message against
//! the bot's command grammar and produces the action to take — no
//! reply, a reply text, or one captioning call to the provider.

use vstd::prelude::*;

use crate::imgflip::ImgflipClient;
use crate::text::{
    find_char, first_index, is_single_line, single_line, split_on, split_str, starts_with, str_eq,
    trim_str, trimmed,
};

verus! {

/// One parsed inbound chat message.
pub enum Command {
    Ping,
    SourceInfo,
    ListMemes,
    Caption { name: String, texts: Vec<String> },
    Unrecognized,
}

/// What the dispatcher asks its caller to do for one message: nothing,
/// send a reply, or caption the given template with the given texts and
/// then reply with the outcome.
pub enum DispatchAction {
    NoReply,
    Reply(String),
    CallProvider { template_id: String, texts: Vec<String> },
}

/// The names joined for the list reply, each followed by a comma and a
/// space.
pub open spec fn list_names_text(names: Seq<Seq<char>>) -> Seq<char>
    decreases names.len(),
{
    if names.len() == 0 {
        Seq::empty()
    } else {
        list_names_text(names.drop_last()) + names.last() + ", "@
    }
}

/// The full reply to a list request: every known name, then the usage
/// hint.
pub open spec fn list_reply_text(names: Seq<Seq<char>>) -> Seq<char> {
    "Available meme templates: "@ + list_names_text(names)
        + "\nuse the format: !meme <Name>\n<TEXT1>\n<TEXT2>\n..."@
}

/// The reply sent when a caption request names an unknown template.
pub open spec fn not_found_text(name: Seq<char>) -> Seq<char> {
    "meme not found: "@ + name
}

/// How one message classifies: `!ping` exactly is a ping; a `!source`
/// prefix asks for the source; a `!meme` prefix with no second word or
/// with no line break is a list request, and otherwise a caption
/// request whose template name is the trimmed first line after the
/// first space and whose texts are the remaining lines; anything else
/// is unrecognized.
pub open spec fn classify_spec(msg: Seq<char>, c: Command) -> bool {
    if msg == "!ping"@ {
        c == Command::Ping
    } else if "!source"@.is_prefix_of(msg) {
        c == Command::SourceInfo
    } else if "!meme"@.is_prefix_of(msg) {
        if first_index(msg, ' ') == msg.len() || single_line(msg) {
            c == Command::ListMemes
        } else {
            let lines = split_on(msg.subrange(first_index(msg, ' ') + 1, msg.len() as int), '\n');
            c matches Command::Caption { name, texts } && name@ == trimmed(lines[0])
                && texts.deep_view() == lines.drop_first()
        }
    } else {
        c == Command::Unrecognized
    }
}

/// Parses one inbound message against the command grammar.
pub fn classify(msg: &str) -> (c: Command)
    ensures
        classify_spec(msg@, c),
{
    if str_eq(msg, "!ping") {
        Command::Ping
    } else if starts_with(msg, "!source") {
        Command::SourceInfo
    } else if starts_with(msg, "!meme") {
        match find_char(msg, ' ') {
            None => Command::ListMemes,
            Some(i) => {
                if is_single_line(msg) {
                    Command::ListMemes
                } else {
                    let n = msg.unicode_len();
                    let rest = msg.substring_char(i + 1, n);
                    let lines = split_str(rest, '\n');
                    let ghost lv = split_on(rest@, '\n');
                    proof {
                        assert(lv.len() >= 1);
                    }
                    let name = trim_str(lines[0].as_str());
                    let mut texts: Vec<String> = Vec::new();
                    let ln = lines.len();
                    let mut j: usize = 1;
                    while j < ln
                        invariant
                            ln == lines@.len(),
                            lines.deep_view() == lv,
                            1 <= j <= ln,
                            texts.deep_view() =~~= lv.subrange(1, j as int),
                        decreases ln - j,
                    {
                        let ghost before = texts.deep_view();
                        texts.push(lines[j].clone());
                        proof {
                            assert(texts.deep_view() =~~= before.push(lv[j as int]));
                            assert(texts.deep_view() =~~= lv.subrange(1, j as int + 1));
                        }
                        j = j + 1;
                    }
                    proof {
                        assert(texts.deep_view() =~~= lv.drop_first());
                    }
                    Command::Caption { name, texts }
                }
            },
        }
    } else {
        Command::Unrecognized
    }
}

/// Builds the reply to a list request from the registry's names.
fn build_list_reply(client: &ImgflipClient) -> (r: String)
    ensures
        r@ == list_reply_text(client.registry.names_view()),
{
    let names = client.list_memes();
    let ghost nv = client.registry.names_view();
    let mut s = String::from_str("Available meme templates: ");
    let n = names.len();
    let mut i: usize = 0;
    while i < n
        invariant
            n == names@.len(),
            names.deep_view() == nv,
            0 <= i <= n,
            s@ == "Available meme templates: "@ + list_names_text(nv.take(i as int)),
        decreases n - i,
    {
        s.append(names[i].as_str());
        s.append(", ");
        proof {
            assert(nv.take(i as int + 1).drop_last() =~~= nv.take(i as int));
            assert(nv.take(i as int + 1).last() == nv[i as int]);
            assert(s@ =~= "Available meme templates: "@ + list_names_text(nv.take(i as int + 1)));
        }
        i = i + 1;
    }
    proof {
        assert(nv.take(n as int) =~~= nv);
    }
    s.append("\nuse the format: !meme <Name>\n<TEXT1>\n<TEXT2>\n...");
    proof {
        assert(s@ =~= list_reply_text(nv));
    }
    s
}

/// What acting on one parsed command yields: fixed replies for ping and
/// source requests, the full name list for a list request, and for a
/// caption request either the provider call for the looked-up template
/// id or the not-found reply; an unrecognized message yields no reply.
pub open spec fn respond_spec(client: ImgflipClient, cmd: Command, act: DispatchAction) -> bool {
    match cmd {
        Command::Ping => act matches DispatchAction::Reply(s) && s@ == "!Pong"@,
        Command::SourceInfo => act matches DispatchAction::Reply(s) && s@
            == "source available at: https://github.com/squidboylan/meme-bot"@,
        Command::ListMemes => act matches DispatchAction::Reply(s) && s@ == list_reply_text(
            client.registry.names_view(),
        ),
        Command::Caption { name, texts } => match client.registry.spec_lookup(name@) {
            Option::Some(id) => act matches DispatchAction::CallProvider { template_id, texts: t }
                && template_id@ == id && t.deep_view() == texts.deep_view(),
            Option::None => act matches DispatchAction::Reply(s) && s@ == not_found_text(name@),
        },
        Command::Unrecognized => act == DispatchAction::NoReply,
    }
}

/// Acts on one parsed command.
pub fn respond(client: &ImgflipClient, cmd: Command) -> (act: DispatchAction)
    requires
        client.wf(),
    ensures
        respond_spec(*client, cmd, act),
{
    match cmd {
        Command::Ping => DispatchAction::Reply(String::from_str("!Pong")),
        Command::SourceInfo => DispatchAction::Reply(
            String::from_str("source available at: https://github.com/squidboylan/meme-bot"),
        ),
        Command::ListMemes => DispatchAction::Reply(build_list_reply(client)),
        Command::Caption { name, texts } => match client.registry.lookup(name.as_str()) {
            Some(id) => DispatchAction::CallProvider { template_id: id, texts },
            None => {
                let mut s = String::from_str("meme not found: ");
                s.append(name.as_str());
                DispatchAction::Reply(s)
            },
        },
        Command::Unrecognized => DispatchAction::NoReply,
    }
}

/// How one inbound message dispatches, end to end: the classification
/// of `classify_spec` acted on as `respond_spec` says. Exactly one
/// reply or call comes out of a recognized command, and nothing
/// otherwise.
pub open spec fn dispatch_spec(client: ImgflipClient, msg: Seq<char>, act: DispatchAction) -> bool {
    if msg == "!ping"@ {
        act matches DispatchAction::Reply(s) && s@ == "!Pong"@
    } else if "!source"@.is_prefix_of(msg) {
        act matches DispatchAction::Reply(s) && s@
            == "source available at: https://github.com/squidboylan/meme-bot"@
    } else if "!meme"@.is_prefix_of(msg) {
        if first_index(msg, ' ') == msg.len() || single_line(msg) {
            act matches DispatchAction::Reply(s) && s@ == list_reply_text(
                client.registry.names_view(),
            )
        } else {
            let lines = split_on(msg.subrange(first_index(msg, ' ') + 1, msg.len() as int), '\n');
            match client.registry.spec_lookup(trimmed(lines[0])) {
                Option::Some(id) => act matches DispatchAction::CallProvider {
                    template_id,
                    texts,
                } && template_id@ == id && texts.deep_view() == lines.drop_first(),
                Option::None => act matches DispatchAction::Reply(s) && s@ == not_found_text(
                    trimmed(lines[0]),
                ),
            }
        }
    } else {
        act == DispatchAction::NoReply
    }
}

/// A caption request naming a template the registry does not know is
/// answered with exactly the not-found reply and never with a provider
/// call: dispatching such a message issues no network call.
pub proof fn lemma_unknown_template_gets_not_found(
    client: ImgflipClient,
    msg: Seq<char>,
    act: DispatchAction,
)
    requires
        dispatch_spec(client, msg, act),
        "!meme"@.is_prefix_of(msg),
        first_index(msg, ' ') < msg.len(),
        !single_line(msg),
        client.registry.spec_lookup(
            trimmed(split_on(msg.subrange(first_index(msg, ' ') + 1, msg.len() as int), '\n')[0]),
        ) is None,
    ensures
        act matches DispatchAction::Reply(s) && s@ == not_found_text(
            trimmed(split_on(msg.subrange(first_index(msg, ' ') + 1, msg.len() as int), '\n')[0]),
        ),
{
    reveal_strlit("!ping");
    reveal_strlit("!meme");
    reveal_strlit("!source");
    if msg == "!ping"@ {
        assert(msg[1] == "!meme"@[1]);
        assert(false);
    }
    if "!source"@.is_prefix_of(msg) {
        assert(msg[1] == "!source"@[1]);
        assert(msg[1] == "!meme"@[1]);
        assert(false);
    }
}

/// Dispatches one inbound message: classifies it and acts on it.
pub fn dispatch(client: &ImgflipClient, msg: &str) -> (act: DispatchAction)
    requires
        client.wf(),
    ensures
        dispatch_spec(*client, msg@, act),
{
    let cmd = classify(msg);
    respond(client, cmd)
}

} // verus!
