use grammers_friendly::filters::{text, Filter};
use grammers_friendly::utils::{gen_page_buttons, split_kb_to_columns, split_kb_to_rows, split_query,
    InlineButton};
use grammers_friendly::{Action, Chat, ChatKind, Context, Dispatcher, Handler, Identity, Message,
    Middleware, Module, Router, RunState, Update};

fn msg_from(sender_id: i64, text: &str) -> Update {
    Update::NewMessage(Message {
        text: text.to_string(),
        chat: Chat { kind: ChatKind::Group, id: 100 },
        sender: Some(Chat { kind: ChatKind::User, id: sender_id }),
        reply_to_message_id: None,
    })
}

fn own_ctx(own_id: i64) -> Context {
    Context {
        me: Some(Identity { id: own_id, username: Some("mybot".to_string()), is_bot: true }),
        custom_outcomes: Vec::new(),
    }
}

fn one_handler_dispatcher(ignore_self: bool) -> Dispatcher {
    Dispatcher::new()
        .add_router(Router::new().add_handler(Handler::new_message(1, Filter::Text(text("")))))
        .ignore_updates_from_self(ignore_self)
}

#[test]
fn self_update_is_discarded_whole() {
    let d = one_handler_dispatcher(true);
    let state = RunState::start();
    let mut actions = Vec::new();
    let (next, outcome) = d.accept_update(state, &own_ctx(7), &msg_from(7, "x"), &mut actions);
    assert_eq!(outcome, None);
    assert_eq!(actions, Vec::<Action>::new());
    assert_eq!(next.spawned, 0);
}

#[test]
fn foreign_update_is_dispatched() {
    let d = one_handler_dispatcher(true);
    let state = RunState::start();
    let mut actions = Vec::new();
    let (next, outcome) = d.accept_update(state, &own_ctx(7), &msg_from(8, "x"), &mut actions);
    assert_eq!(outcome, Some(true));
    assert_eq!(actions, vec![Action::RunHandler(1)]);
    assert_eq!(next.spawned, 1);
}

#[test]
fn self_update_dispatched_when_filtering_off() {
    let d = one_handler_dispatcher(false);
    let state = RunState::start();
    let mut actions = Vec::new();
    let (_, outcome) = d.accept_update(state, &own_ctx(7), &msg_from(7, "x"), &mut actions);
    assert_eq!(outcome, Some(true));
    assert_eq!(actions, vec![Action::RunHandler(1)]);
}

#[test]
fn routers_tried_in_attachment_order() {
    let d = Dispatcher::new()
        .add_router(Router::new().add_handler(Handler::new_message(1, Filter::Text(text("absent")))))
        .add_router(Router::new().add_handler(Handler::new_message(2, Filter::Text(text("")))));
    let mut actions = Vec::new();
    let handled = d.handle_update(&own_ctx(7), &msg_from(8, "x"), &mut actions);
    assert!(handled);
    assert_eq!(actions, vec![Action::RunHandler(2)]);
}

#[test]
fn dispatcher_modules_and_middlewares_snapshot_at_router_attach() {
    let d = Dispatcher::new()
        .add_module(Module { key: 1, value: 10 })
        .add_middleware(Middleware::before(5))
        .add_router(Router::new().add_handler(Handler::new_message(1, Filter::Text(text("")))));
    let late = d.add_module(Module { key: 2, value: 20 });
    assert_eq!(late.routers[0].data.get_module(1), Some(Module { key: 1, value: 10 }));
    assert_eq!(late.routers[0].data.get_module(2), None);
    let mut actions = Vec::new();
    assert!(late.routers[0].handle_update(&own_ctx(7), &msg_from(8, "x"), &mut actions));
    assert_eq!(
        actions,
        vec![
            Action::ModuleAnte(Module { key: 1, value: 10 }),
            Action::CallBefore(5),
            Action::RunHandler(1),
            Action::ModulePost(Module { key: 1, value: 10 }),
        ]
    );
}

#[test]
fn shutdown_then_drain_before_finish() {
    let d = one_handler_dispatcher(false);
    let mut state = RunState::start();
    let mut actions = Vec::new();
    let (s1, _) = d.accept_update(state, &own_ctx(7), &msg_from(8, "a"), &mut actions);
    let (s2, _) = d.accept_update(s1, &own_ctx(7), &msg_from(8, "b"), &mut actions);
    state = s2.on_shutdown();
    assert!(!state.accepting);
    assert!(!state.can_finish());
    state = state.on_task_done();
    assert!(!state.can_finish());
    state = state.on_task_done();
    assert!(state.can_finish());
}

#[test]
fn split_query_splits_on_whitespace() {
    assert_eq!(split_query("add 5 extra"), vec!["add", "5", "extra"]);
    assert_eq!(split_query("  spaced   out "), vec!["spaced", "out"]);
    assert_eq!(split_query(""), Vec::<String>::new());
}

#[test]
fn split_kb_chunks_buttons() {
    let buttons = vec![
        InlineButton::new("a", "1"),
        InlineButton::new("b", "2"),
        InlineButton::new("c", "3"),
        InlineButton::new("d", "4"),
        InlineButton::new("e", "5"),
    ];
    let rows = split_kb_to_columns(buttons, 2);
    assert_eq!(rows.len(), 3);
    assert_eq!(rows[0], vec![InlineButton::new("a", "1"), InlineButton::new("b", "2")]);
    assert_eq!(rows[2], vec![InlineButton::new("e", "5")]);
}

#[test]
fn split_kb_to_rows_uses_difference() {
    let buttons = vec![
        InlineButton::new("a", "1"),
        InlineButton::new("b", "2"),
        InlineButton::new("c", "3"),
    ];
    // 3 buttons, count 1: chunks of 2
    let rows = split_kb_to_rows(buttons, 1);
    assert_eq!(rows.len(), 2);
    assert_eq!(rows[0].len(), 2);
    assert_eq!(rows[1].len(), 1);
}

#[test]
fn page_buttons_when_window_covers_everything() {
    let r = gen_page_buttons(1, 3, "p :page:", 5);
    assert_eq!(r.len(), 3);
    assert_eq!(r[0].text, "• 1 •");
    assert_eq!(r[0].data, "p 1");
    assert_eq!(r[1].text, "2 ·");
    assert_eq!(r[1].data, "p 2");
    assert_eq!(r[2].text, "3 ·");
}

#[test]
fn page_buttons_window_in_the_middle() {
    let r = gen_page_buttons(5, 10, ":page:", 3);
    assert_eq!(r.len(), 3);
    assert_eq!(r[0].text, ". 1");
    assert_eq!(r[0].data, "1");
    assert_eq!(r[1].text, "• 5 •");
    assert_eq!(r[1].data, "5");
    assert_eq!(r[2].text, "10 .");
    assert_eq!(r[2].data, "10");
}

#[test]
fn page_buttons_near_the_end() {
    let r = gen_page_buttons(10, 10, "x :page: y", 3);
    assert_eq!(r.len(), 4);
    assert_eq!(r[0].text, ". 1");
    assert_eq!(r[1].text, "· 8");
    assert_eq!(r[2].text, "· 9");
    assert_eq!(r[3].text, "• 10 •");
    assert_eq!(r[3].data, "x 10 y");
}

#[test]
fn spawn_counter_near_its_cap() {
    let d = one_handler_dispatcher(false);
    let state = RunState { accepting: true, spawned: u64::MAX - 1, completed: u64::MAX - 1 };
    let mut actions = Vec::new();
    let (next, outcome) = d.accept_update(state, &own_ctx(7), &msg_from(8, "x"), &mut actions);
    assert_eq!(outcome, Some(true));
    assert_eq!(next.spawned, u64::MAX);
    let done = next.on_shutdown().on_task_done();
    assert!(done.can_finish());
}

#[test]
fn page_buttons_with_extreme_window_width() {
    let r = gen_page_buttons(1, 1, ":page:", i64::MAX - 1);
    assert_eq!(r.len(), 1);
    assert_eq!(r[0].text, "• 1 •");
    assert_eq!(r[0].data, "1");
}
