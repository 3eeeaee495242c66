use fourthage_mud::command::CommandExecutionError;
use fourthage_mud::db::AccountRow;
use fourthage_mud::entities::{Description, EntityRegistry, EntityRegistryError, Location, Name};
use fourthage_mud::event::{EventBus, EventBusError, GameEvent};
use fourthage_mud::model::ids::{Alias, EntityId, RoomId};
use fourthage_mud::model::rooms::{Direction, RoomGraph, RoomGraphNode};
use fourthage_mud::session::{
    end_session, error_response, handle_input, login_step_exec, start_session, welcome, InputOutcome, LoginAction,
    LoginEvent, LoginState, SessionError,
};

fn account(uuid: u128, name: &str, is_admin: bool) -> AccountRow {
    AccountRow {
        id: EntityId::from_uuid(uuid),
        username: name.to_string(),
        is_admin,
        password_hash: format!("hash-of-{name}"),
    }
}

fn world() -> (EntityRegistry, RoomGraph, RoomId) {
    let mut entities = EntityRegistry::new();
    let start = RoomId::from_uuid(1);
    entities.spawn(Some(start.as_entity()), Alias::new("start")).unwrap();
    entities.update_component(&start.as_entity(), Name::new("Starting Room")).unwrap();
    entities.update_component(&start.as_entity(), Description::new("The room that you start in.")).unwrap();
    let mut rooms = RoomGraph::new(start);
    rooms.update_room(start, RoomGraphNode::new(Vec::new()));
    (entities, rooms, start)
}

fn step(state: LoginState, event: LoginEvent) -> (LoginState, Vec<String>, LoginAction) {
    login_step_exec(state, event)
}

#[test]
fn login_with_existing_account() {
    let (s, said, next) = step(LoginState::Start, LoginEvent::Begin);
    assert_eq!(vec!["Enter your username:".to_string()], said);
    assert!(matches!(next, LoginAction::ReadLine));
    let (s, said, next) = step(s, LoginEvent::Line(Some("player1".to_string())));
    assert!(said.is_empty());
    assert!(matches!(&next, LoginAction::LookUpAccount(u) if u == "player1"));
    let (s, said, next) = step(s, LoginEvent::AccountFound(Some(account(5, "player1", false))));
    assert_eq!(vec!["Enter your password:".to_string()], said);
    assert!(matches!(next, LoginAction::ReadLine));
    let (s, _, next) = step(s, LoginEvent::Line(Some("secret".to_string())));
    assert!(matches!(&next, LoginAction::VerifyPassword(p, h) if p == "secret" && h == "hash-of-player1"));
    let (_, said, next) = step(s, LoginEvent::PasswordChecked(true));
    assert!(said.is_empty());
    assert!(matches!(&next, LoginAction::LoggedIn(a) if a.username == "player1"));
}

#[test]
fn login_with_wrong_password_ends() {
    let (s, _, _) = step(LoginState::AwaitingUsername, LoginEvent::Line(Some("p".to_string())));
    let (s, _, _) = step(s, LoginEvent::AccountFound(Some(account(5, "p", false))));
    let (s, _, _) = step(s, LoginEvent::Line(Some("wrong".to_string())));
    let (s, said, next) = step(s, LoginEvent::PasswordChecked(false));
    assert_eq!(vec!["Incorrect password.".to_string()], said);
    assert!(matches!(next, LoginAction::End));
    assert!(matches!(s, LoginState::Finished));
}

#[test]
fn new_account_needs_matching_confirmation() {
    let (s, _, _) = step(LoginState::AwaitingUsername, LoginEvent::Line(Some("newbie".to_string())));
    let (s, said, _) = step(s, LoginEvent::AccountFound(None));
    assert_eq!(vec!["New account; enter your password:".to_string()], said);
    let (s, said, _) = step(s, LoginEvent::Line(Some("one".to_string())));
    assert_eq!(vec!["Confirm your password:".to_string()], said);
    let (s, said, next) = step(s, LoginEvent::Line(Some("two".to_string())));
    assert_eq!(
        vec!["Passwords do not match.".to_string(), "New account; enter your password:".to_string()],
        said
    );
    assert!(matches!(next, LoginAction::ReadLine));
    let (s, _, _) = step(s, LoginEvent::Line(Some("three".to_string())));
    let (s, said, next) = step(s, LoginEvent::Line(Some("three".to_string())));
    assert!(said.is_empty());
    assert!(matches!(&next, LoginAction::CreateAccount(u, p) if u == "newbie" && p == "three"));
    let (_, _, next) = step(s, LoginEvent::AccountCreated(account(6, "newbie", false)));
    assert!(matches!(&next, LoginAction::LoggedIn(a) if a.id == EntityId::from_uuid(6)));
}

#[test]
fn closed_connection_ends_login() {
    let (_, said, next) = step(LoginState::AwaitingUsername, LoginEvent::Line(None));
    assert!(said.is_empty());
    assert!(matches!(next, LoginAction::End));
    let (_, _, next) = step(LoginState::AwaitingConfirmation("u".to_string(), "p".to_string()), LoginEvent::Line(None));
    assert!(matches!(next, LoginAction::End));
}

#[test]
fn session_start_welcome_and_end() {
    let (mut entities, _rooms, start) = world();
    let mut bus = EventBus::new();
    let acct = account(20, "player1", true);
    let (ctx, _receiver) = match start_session(&acct, Location::new(start.as_entity()), &mut entities, &mut bus) {
        Ok(s) => s,
        Err(_) => panic!("login should succeed"),
    };
    assert_eq!(EntityId::from_uuid(20), ctx.player_id);
    assert!(ctx.is_admin);
    assert_eq!("Welcome player1!", welcome(&ctx, &entities));
    assert_eq!(1, bus.resolve_targets(&[ctx.player_id]).len());

    // A second session for the same account is refused.
    assert!(matches!(
        start_session(&acct, Location::new(start.as_entity()), &mut entities, &mut bus),
        Err(SessionError::Login)
    ));

    end_session(&ctx, &mut entities, &mut bus);
    assert!(bus.resolve_targets(&[ctx.player_id]).is_empty());
    assert!(entities.get_alias(&ctx.player_id).is_err());
}

#[test]
fn input_is_answered() {
    let (mut entities, mut rooms, start) = world();
    let mut bus = EventBus::new();
    let (ctx, _r1) = match start_session(&account(20, "player1", false), Location::new(start.as_entity()), &mut entities, &mut bus) {
        Ok(s) => s,
        Err(_) => panic!("login should succeed"),
    };
    let (other, _r2) = match start_session(&account(21, "player2", false), Location::new(start.as_entity()), &mut entities, &mut bus) {
        Ok(s) => s,
        Err(_) => panic!("login should succeed"),
    };
    match handle_input(&ctx, &mut entities, &mut rooms, "dance") {
        Ok(InputOutcome::Reply(Some(s))) => assert_eq!("Unknown command: 'dance'", s),
        _ => panic!("unknown command"),
    }
    match handle_input(&ctx, &mut entities, &mut rooms, "go") {
        Ok(InputOutcome::Reply(Some(s))) => assert_eq!("Go where?", s),
        _ => panic!("syntax"),
    }
    match handle_input(&ctx, &mut entities, &mut rooms, "link sideways start") {
        Ok(InputOutcome::Reply(Some(s))) => assert_eq!("Invalid direction: sideways", s),
        _ => panic!("direction"),
    }
    match handle_input(&ctx, &mut entities, &mut rooms, "roominfo") {
        Ok(InputOutcome::Reply(Some(s))) => assert_eq!("You are not allowed to do that.", s),
        _ => panic!("unauthorized"),
    }
    match handle_input(&ctx, &mut entities, &mut rooms, "say hello") {
        Ok(InputOutcome::Deliver(deliveries, reply)) => {
            assert_eq!(Some("You say: hello".to_string()), reply);
            assert_eq!(1, deliveries.len());
            assert_eq!(vec![other.player_id], deliveries[0].targets);
            match &deliveries[0].event {
                GameEvent::Message(m) => assert_eq!("player1 says: hello", m),
                GameEvent::SessionEnded => panic!("wrong event"),
            }
        },
        _ => panic!("say delivers"),
    }
    match handle_input(&ctx, &mut entities, &mut rooms, "look") {
        Ok(InputOutcome::Reply(Some(s))) => {
            assert_eq!("Starting Room\n\nThe room that you start in.\n\nHere is: player2\n\nFrom here you can go: \n", s)
        },
        _ => panic!("look"),
    }
    match handle_input(&ctx, &mut entities, &mut rooms, "go north") {
        Ok(InputOutcome::Reply(Some(s))) => assert_eq!("You cannot go north from here.", s),
        _ => panic!("go"),
    }
    rooms.update_room(start, RoomGraphNode::new(vec![(Direction::North, RoomId::from_uuid(99))]));
    match handle_input(&ctx, &mut entities, &mut rooms, "go north") {
        Err(SessionError::Internal(s)) => assert_eq!("Could not retrieve room based on current room ID", s),
        _ => panic!("a missing room is an internal error"),
    }
}

#[test]
fn errors_become_responses() {
    assert_eq!(Some("An error occurred during login.".to_string()), error_response(&SessionError::Login));
    assert_eq!(
        Some("An internal error occurred.".to_string()),
        error_response(&SessionError::Internal("x".to_string()))
    );
    assert_eq!(None, error_response(&SessionError::Send));
    assert_eq!(None, error_response(&SessionError::Recv));
    match SessionError::from(CommandExecutionError::Unrecoverable("boom".to_string())) {
        SessionError::Internal(s) => assert_eq!("boom", s),
        _ => panic!("internal"),
    }
    match SessionError::from_registry(EntityRegistryError::UnknownEntity(EntityId::from_uuid(255))) {
        SessionError::Internal(s) => {
            assert_eq!("Attempted to update property of unknown entity '00000000-0000-0000-0000-0000000000ff'", s)
        },
        _ => panic!("internal"),
    }
    assert!(matches!(
        SessionError::from_registry(EntityRegistryError::DuplicateSpawn(EntityId::from_uuid(1))),
        SessionError::Login
    ));
    match SessionError::from_bus(EventBusError::CouldNotSend) {
        SessionError::Internal(s) => assert_eq!("Event bus failed to send", s),
        _ => panic!("internal"),
    }
}
