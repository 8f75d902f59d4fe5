use grammers_friendly::filters::{deleted, text, Filter};
use grammers_friendly::MessageDeletion;
use grammers_friendly::{Action, Chat, ChatKind, Context, Handler, Message, Middleware, Module,
    Router, Update};

fn msg(text: &str) -> Update {
    Update::NewMessage(Message {
        text: text.to_string(),
        chat: Chat { kind: ChatKind::Group, id: 100 },
        sender: Some(Chat { kind: ChatKind::User, id: 7 }),
        reply_to_message_id: None,
    })
}

fn ctx() -> Context {
    Context { me: None, custom_outcomes: Vec::new() }
}

#[test]
fn first_matching_handler_wins() {
    let r = Router::new()
        .add_handler(Handler::new_message(1, Filter::Text(text("absent"))))
        .add_handler(Handler::new_message(2, Filter::Text(text("hi"))))
        .add_handler(Handler::new_message(3, Filter::Text(text("hi"))));
    let mut actions = Vec::new();
    let handled = r.handle_update(&ctx(), &msg("hi there"), &mut actions);
    assert!(handled);
    assert_eq!(actions, vec![Action::RunHandler(2)]);
}

#[test]
fn mask_is_checked_before_the_filter() {
    // an always-passing filter on an edited-message handler must not fire
    // for a new message
    let r = Router::new()
        .add_handler(Handler::message_edited(1, Filter::Text(text(""))))
        .add_handler(Handler::new_message(2, Filter::Text(text(""))));
    let mut actions = Vec::new();
    assert!(r.handle_update(&ctx(), &msg("x"), &mut actions));
    assert_eq!(actions, vec![Action::RunHandler(2)]);
}

#[test]
fn middlewares_bracket_the_matched_handler() {
    let r = Router::new()
        .add_handler(Handler::new_message(9, Filter::Text(text(""))))
        .add_middleware(Middleware::before(1))
        .add_middleware(Middleware::after(2))
        .add_middleware(Middleware::before(3))
        .add_module(Module { key: 5, value: 50 });
    let mut actions = Vec::new();
    assert!(r.handle_update(&ctx(), &msg("x"), &mut actions));
    assert_eq!(
        actions,
        vec![
            Action::ModuleAnte(Module { key: 5, value: 50 }),
            Action::CallBefore(1),
            Action::CallBefore(3),
            Action::RunHandler(9),
            Action::CallAfter(2),
            Action::ModulePost(Module { key: 5, value: 50 }),
        ]
    );
}

#[test]
fn no_middleware_runs_without_a_match() {
    let r = Router::new()
        .add_handler(Handler::new_message(9, Filter::Text(text("absent"))))
        .add_middleware(Middleware::before(1))
        .add_module(Module { key: 5, value: 50 });
    let mut actions = Vec::new();
    assert!(!r.handle_update(&ctx(), &msg("x"), &mut actions));
    assert_eq!(
        actions,
        vec![
            Action::ModuleAnte(Module { key: 5, value: 50 }),
            Action::ModulePost(Module { key: 5, value: 50 }),
        ]
    );
}

#[test]
fn sub_routers_tried_in_order_first_success_stops() {
    let sub1 = Router::new().add_handler(Handler::new_message(1, Filter::Text(text("absent"))));
    let sub2 = Router::new().add_handler(Handler::new_message(2, Filter::Text(text("hi")))).add_module(
        Module { key: 21, value: 0 },
    );
    let sub3 = Router::new().add_handler(Handler::new_message(3, Filter::Text(text("hi")))).add_module(
        Module { key: 31, value: 0 },
    );
    let r = Router::new().add_sub_router(sub1).add_sub_router(sub2).add_sub_router(sub3);
    let mut actions = Vec::new();
    let handled = r.handle_update(&ctx(), &msg("hi"), &mut actions);
    assert!(handled);
    // sub1 was tried (no hooks: it has no modules), sub2 ran its callback,
    // sub3 was never reached
    assert_eq!(
        actions,
        vec![
            Action::ModuleAnte(Module { key: 21, value: 0 }),
            Action::RunHandler(2),
            Action::ModulePost(Module { key: 21, value: 0 }),
        ]
    );
}

#[test]
fn unhandled_when_nothing_matches() {
    let sub = Router::new().add_handler(Handler::new_message(1, Filter::Text(text("absent"))));
    let r = Router::new().add_sub_router(sub).add_handler(
        Handler::message_edited(2, Filter::Text(text(""))),
    );
    let mut actions = Vec::new();
    assert!(!r.handle_update(&ctx(), &msg("x"), &mut actions));
    assert_eq!(actions, Vec::<Action>::new());
}

#[test]
fn deletion_notice_reaches_deleted_mask() {
    let r = Router::new().add_handler(Handler::message_deleted(4, Filter::Deleted(deleted())));
    let mut actions = Vec::new();
    let del = Update::MessageDeleted(MessageDeletion { message_ids: vec![9], channel_id: None });
    assert!(r.handle_update(&ctx(), &del, &mut actions));
    assert_eq!(actions, vec![Action::RunHandler(4)]);
}

#[test]
fn module_attached_before_sub_router_is_visible_inside_it() {
    let child = Router::new();
    let parent = Router::new().add_module(Module { key: 1, value: 11 }).add_sub_router(child);
    let inherited = parent.sub_routers[0].data.get_module(1);
    assert_eq!(inherited, Some(Module { key: 1, value: 11 }));
}

#[test]
fn module_attached_after_sub_router_is_not_visible_inside_it() {
    let child = Router::new();
    let parent = Router::new().add_sub_router(child).add_module(Module { key: 2, value: 22 });
    assert_eq!(parent.data.get_module(2), Some(Module { key: 2, value: 22 }));
    assert_eq!(parent.sub_routers[0].data.get_module(2), None);
}

#[test]
fn child_own_module_shadows_inherited_one() {
    let child = Router::new().add_module(Module { key: 1, value: 77 });
    let parent = Router::new().add_module(Module { key: 1, value: 11 }).add_sub_router(child);
    assert_eq!(parent.sub_routers[0].data.get_module(1), Some(Module { key: 1, value: 77 }));
}

#[test]
fn middlewares_inherited_at_attach_time() {
    let child = Router::new().add_handler(Handler::new_message(1, Filter::Text(text(""))));
    let parent = Router::new().add_middleware(Middleware::before(8)).add_sub_router(child);
    let mut actions = Vec::new();
    assert!(parent.handle_update(&ctx(), &msg("x"), &mut actions));
    assert_eq!(actions, vec![Action::CallBefore(8), Action::RunHandler(1)]);
}

#[test]
fn data_module_listing_and_lookup() {
    let mut data = grammers_friendly::Data::new();
    data.push_module(Module { key: 1, value: 10 });
    data.push_module(Module { key: 2, value: 20 });
    data.push_module(Module { key: 1, value: 30 });
    assert_eq!(data.modules().len(), 3);
    // first concrete-type match wins
    assert_eq!(data.get_module(1), Some(Module { key: 1, value: 10 }));
    assert_eq!(data.get_module(3), None);
}
