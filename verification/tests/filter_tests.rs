use grammers_friendly::filters::{admin, command, custom, deleted, edited, private, query, regex,
    reply, text, Filter, LeafKind, ParamKind, PatternError, QueryPart};
use grammers_friendly::{CallbackQuery, Chat, ChatKind, Context, Identity, Message, MessageDeletion,
    Update};

fn msg(text: &str) -> Update {
    Update::NewMessage(Message {
        text: text.to_string(),
        chat: Chat { kind: ChatKind::Group, id: 100 },
        sender: Some(Chat { kind: ChatKind::User, id: 7 }),
        reply_to_message_id: None,
    })
}

fn ctx() -> Context {
    Context { me: None, custom_outcomes: Vec::new() }
}

fn bot_ctx(name: &str) -> Context {
    Context {
        me: Some(Identity { id: 42, username: Some(name.to_string()), is_bot: true }),
        custom_outcomes: Vec::new(),
    }
}

#[test]
fn and_with_false_first_skips_second() {
    // the first leaf rejects a plain message, so the second is never consulted
    let f = Filter::Deleted(deleted()).and(Filter::Text(text("hi")));
    let mut trace = Vec::new();
    let r = f.evaluate_traced(&ctx(), &msg("hi"), &mut trace);
    assert!(!r);
    assert_eq!(trace, vec![LeafKind::Deleted]);
}

#[test]
fn or_with_true_first_skips_second() {
    let f = Filter::Text(text("hi")).or(Filter::Deleted(deleted()));
    let mut trace = Vec::new();
    let r = f.evaluate_traced(&ctx(), &msg("say hi"), &mut trace);
    assert!(r);
    assert_eq!(trace, vec![LeafKind::Text]);
}

#[test]
fn and_with_true_first_consults_second() {
    let f = Filter::Text(text("hi")).and(Filter::Reply(reply()));
    let mut trace = Vec::new();
    let r = f.evaluate_traced(&ctx(), &msg("hi"), &mut trace);
    assert!(!r);
    assert_eq!(trace, vec![LeafKind::Text, LeafKind::Reply]);
}

#[test]
fn not_negates_on_every_input() {
    let f = Filter::Edited(edited()).not();
    assert!(f.evaluate(&ctx(), &msg("x")));
    let edited_update = Update::MessageEdited(Message {
        text: "x".to_string(),
        chat: Chat { kind: ChatKind::Group, id: 1 },
        sender: None,
        reply_to_message_id: None,
    });
    assert!(!f.evaluate(&ctx(), &edited_update));
}

#[test]
fn command_matches_plain_and_suffixed() {
    let f = command("/", "start");
    let ctx = bot_ctx("mybot");
    assert!(f.passes(&ctx, &msg("/start")));
    assert!(f.passes(&ctx, &msg("/start@mybot")));
    assert!(f.passes(&ctx, &msg("/start now")));
    assert!(f.passes(&ctx, &msg("/start@mybot now")));
}

#[test]
fn command_rejects_longer_words_and_missing_prefix() {
    let f = command("/", "start");
    let ctx = bot_ctx("mybot");
    assert!(!f.passes(&ctx, &msg("/started")));
    assert!(!f.passes(&ctx, &msg("start")));
    assert!(!f.passes(&ctx, &msg("/start@otherbot")));
    assert!(!f.passes(&ctx, &msg("")));
}

#[test]
fn command_without_resolved_name_rejects_suffix() {
    let f = command("/", "start");
    assert!(f.passes(&ctx(), &msg("/start")));
    assert!(!f.passes(&ctx(), &msg("/start@mybot")));
}

#[test]
fn command_with_several_prefixes() {
    let f = command("/!", "help");
    assert!(f.passes(&ctx(), &msg("!help")));
    assert!(f.passes(&ctx(), &msg("/help")));
    assert!(!f.passes(&ctx(), &msg("?help")));
}

#[test]
fn command_with_empty_prefix_matches_first_token() {
    let f = command("", "ping");
    assert!(f.passes(&ctx(), &msg("ping")));
    assert!(f.passes(&ctx(), &msg("  ping pong")));
    assert!(!f.passes(&ctx(), &msg("pong ping")));
    assert!(!f.passes(&ctx(), &msg("")));
}

#[test]
fn query_matches_int_placeholder() {
    let f = query("add name:int").unwrap();
    assert!(f.passes(&msg("add 5")));
    assert!(!f.passes(&msg("add five")));
}

#[test]
fn query_compiles_parts() {
    let f = query("add name:int").unwrap();
    assert_eq!(f.parts.len(), 2);
    assert_eq!(f.parts[0], QueryPart::Literal("add".to_string()));
    assert_eq!(f.parts[1], QueryPart::Param { kind: ParamKind::Int, optional: false });
}

#[test]
fn query_rejects_unknown_tag() {
    assert_eq!(query("add name:widget").err(), Some(PatternError::UnknownTag));
}

#[test]
fn query_optional_placeholder_may_be_absent() {
    let f = query("add name:int:maybe").unwrap();
    assert!(f.passes(&msg("add 5")));
    assert!(f.passes(&msg("add")));
    // with the placeholder skipped, trailing tokens are free text
    assert!(f.passes(&msg("add x")));
    let g = query("add name:int?").unwrap();
    assert!(g.passes(&msg("add")));
}

#[test]
fn query_kinds() {
    assert!(query("go name:str").unwrap().passes(&msg("go there")));
    assert!(!query("go name:str").unwrap().passes(&msg("go +++")));
    assert!(query("go name:sym").unwrap().passes(&msg("go +++")));
    assert!(query("go name:bool").unwrap().passes(&msg("go yes")));
    assert!(!query("go name:bool").unwrap().passes(&msg("go maybe")));
    assert!(query("go name:float").unwrap().passes(&msg("go 1.25")));
    assert!(!query("go name:float").unwrap().passes(&msg("go 125")));
    assert!(query("go name:all").unwrap().passes(&msg("go anything")));
}

#[test]
fn query_matches_callback_payload() {
    let f = query("page name:int").unwrap();
    let u = Update::CallbackQuery(CallbackQuery {
        data: "page 3".to_string(),
        chat: Chat { kind: ChatKind::Group, id: 1 },
        sender: Chat { kind: ChatKind::User, id: 2 },
    });
    assert!(f.passes(&u));
}

#[test]
fn regex_filter_matches_text() {
    let f = regex("ab+c").unwrap();
    assert!(f.passes(&msg("xxabbbcyy")));
    assert!(!f.passes(&msg("abc".to_uppercase().as_str())));
    assert!(!f.passes(&msg("ac")));
}

#[test]
fn regex_filter_rejects_malformed_pattern() {
    assert_eq!(regex("(unclosed").err(), Some(PatternError::InvalidRegex));
}

#[test]
fn text_filter_is_substring_search() {
    let f = text("ell");
    assert!(f.passes(&msg("hello")));
    assert!(!f.passes(&msg("heaven")));
}

#[test]
fn deleted_and_edited_masks() {
    let del = Update::MessageDeleted(MessageDeletion { message_ids: vec![1], channel_id: None });
    assert!(deleted().passes(&del));
    assert!(!deleted().passes(&msg("x")));
    assert!(!edited().passes(&del));
}

#[test]
fn private_filter_checks_chat_kind() {
    let direct = Update::NewMessage(Message {
        text: "x".to_string(),
        chat: Chat { kind: ChatKind::User, id: 9 },
        sender: Some(Chat { kind: ChatKind::User, id: 9 }),
        reply_to_message_id: None,
    });
    assert!(private().passes(&direct));
    assert!(!private().passes(&msg("x")));
}

#[test]
fn reply_filter_checks_reply_id() {
    let rep = Update::NewMessage(Message {
        text: "x".to_string(),
        chat: Chat { kind: ChatKind::Group, id: 1 },
        sender: None,
        reply_to_message_id: Some(55),
    });
    assert!(reply().passes(&rep));
    assert!(!reply().passes(&msg("x")));
}

#[test]
fn admin_filter_uses_cache() {
    let mut f = admin();
    assert_eq!(f.pending_lookup(&msg("x")), Some((100, 7)));
    assert!(!f.passes(&msg("x")));
    f.record(100, 7, true);
    assert_eq!(f.pending_lookup(&msg("x")), None);
    assert!(f.passes(&msg("x")));
    f.record(100, 7, false);
    // the first recorded verdict stays authoritative
    assert!(f.passes(&msg("x")));
}

#[test]
fn custom_filter_reads_recorded_verdicts() {
    let f = custom(7);
    let mut c = ctx();
    assert!(!f.passes(&c));
    c.record_outcome(7, true);
    assert!(f.passes(&c));
}
