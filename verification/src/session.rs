//! A player's session: logging in, entering the game, answering each line of input, and
//! leaving. The connection itself (reading lines, writing text, the database and the
//! password hashes) is the caller's; these functions decide what to do with what it
//! hands over.
use vstd::prelude::*;
use tokio::sync::mpsc::Receiver;
use crate::command::{
    command_outcome, parse_spec, CommandExecutionError, CommandParseError, CommandResult, CommandResultView, Command,
    SaveRequest, ParseErrorView,
};
use crate::entities::{
    despawned, receives, ComponentKind, ComponentValue, EntityRegistry, EntityRegistryError, Location, Name,
};
use crate::event::{Event, EventBus, EventBusError, EventTargetResolver, EventView, GameEvent};
use crate::model::ids::{uuid_text, Alias, EntityId};
use crate::model::rooms::RoomGraph;
use crate::text::{cat2, cat3, owned, str_eq};
use crate::db::{AccountRow, AccountView};

verus! {

/// The player of a session and whether that player may use administrator commands.
#[derive(Clone, Copy, PartialEq, Eq, Structural, Debug)]
pub struct SessionContext {
    pub player_id: EntityId,
    pub is_admin: bool,
}

/// Why a session ended abnormally.
#[derive(Debug)]
pub enum SessionError {
    Login,
    Internal(String),
    Send,
    Recv,
}

pub enum SessionErrorView {
    Login,
    Internal(Seq<char>),
    Send,
    Recv,
}

impl View for SessionError {
    type V = SessionErrorView;

    open spec fn view(&self) -> SessionErrorView {
        match self {
            SessionError::Login => SessionErrorView::Login,
            SessionError::Internal(s) => SessionErrorView::Internal(s@),
            SessionError::Send => SessionErrorView::Send,
            SessionError::Recv => SessionErrorView::Recv,
        }
    }
}

/// The session error that a registry error becomes.
pub open spec fn registry_session_error(e: EntityRegistryError) -> SessionErrorView {
    match e {
        EntityRegistryError::UnknownEntity(id) => SessionErrorView::Internal(
            "Attempted to update property of unknown entity '"@ + uuid_text(id.uuid) + "'"@,
        ),
        EntityRegistryError::DuplicateSpawn(_) => SessionErrorView::Login,
        EntityRegistryError::DuplicateAlias(_) => SessionErrorView::Login,
        EntityRegistryError::InconsistentInternalState => SessionErrorView::Internal(
            "Entity registry is in an inconsistent state"@,
        ),
    }
}

impl SessionError {
    /// The session error that a registry error becomes: a player entity that already
    /// exists, or whose alias is taken, is a failed login.
    pub fn from_registry(e: EntityRegistryError) -> (r: SessionError)
        ensures
            r@ == registry_session_error(e),
    {
        match e {
            EntityRegistryError::UnknownEntity(id) => {
                let text = id.to_string();
                SessionError::Internal(cat3("Attempted to update property of unknown entity '", text.as_str(), "'"))
            },
            EntityRegistryError::DuplicateSpawn(_) => SessionError::Login,
            EntityRegistryError::DuplicateAlias(_) => SessionError::Login,
            EntityRegistryError::InconsistentInternalState => SessionError::Internal(
                owned("Entity registry is in an inconsistent state"),
            ),
        }
    }

    /// The session error that an event bus error becomes.
    pub fn from_bus(e: EventBusError) -> (r: SessionError)
        ensures
            r@ == match e {
                EventBusError::InvalidMutex => SessionErrorView::Internal("Event bus holds invalid mutex"@),
                EventBusError::CouldNotSend => SessionErrorView::Internal("Event bus failed to send"@),
            },
    {
        match e {
            EventBusError::InvalidMutex => SessionError::Internal(owned("Event bus holds invalid mutex")),
            EventBusError::CouldNotSend => SessionError::Internal(owned("Event bus failed to send")),
        }
    }
}

impl From<CommandExecutionError> for SessionError {
    fn from(value: CommandExecutionError) -> (r: SessionError) {
        match value {
            CommandExecutionError::Unrecoverable(s) => SessionError::Internal(s),
        }
    }
}

impl vstd::std_specs::convert::FromSpecImpl<CommandExecutionError> for SessionError {
    open spec fn obeys_from_spec() -> bool {
        true
    }

    open spec fn from_spec(v: CommandExecutionError) -> SessionError {
        match v {
            CommandExecutionError::Unrecoverable(s) => SessionError::Internal(s),
        }
    }
}

/// What the player is told when the session ends with an error: nothing when the
/// connection itself failed.
pub open spec fn error_text(e: SessionErrorView) -> Option<Seq<char>> {
    match e {
        SessionErrorView::Login => Some("An error occurred during login."@),
        SessionErrorView::Internal(_) => Some("An internal error occurred."@),
        SessionErrorView::Send => None,
        SessionErrorView::Recv => None,
    }
}

/// The last message to the player of a session that ended with `e`, if any.
pub fn error_response(e: &SessionError) -> (r: Option<String>)
    ensures
        match r {
            Some(s) => error_text(e@) == Some(s@),
            None => error_text(e@) is None,
        },
{
    match e {
        SessionError::Login => Some(owned("An error occurred during login.")),
        SessionError::Internal(_) => Some(owned("An internal error occurred.")),
        SessionError::Send => None,
        SessionError::Recv => None,
    }
}

/// Where a login stands.
pub enum LoginState {
    /// Nothing has been said yet.
    Start,
    AwaitingUsername,
    /// The account of this user name is being looked up.
    LookingUp(String),
    /// The account exists; its password is asked for.
    AwaitingPassword(AccountRow),
    /// The password given for the account is being checked.
    CheckingPassword(AccountRow),
    /// No account has this user name; a password for a new one is asked for.
    AwaitingNewPassword(String),
    /// The new password is to be typed again.
    AwaitingConfirmation(String, String),
    /// The new account is being created.
    Creating(String),
    Finished,
}

/// What the caller reports back to the login.
pub enum LoginEvent {
    Begin,
    /// A line from the player, or `None` when the connection closed.
    Line(Option<String>),
    /// The account with the user name that was looked up, if there is one.
    AccountFound(Option<AccountRow>),
    /// Whether the password matched the account's hash.
    PasswordChecked(bool),
    AccountCreated(AccountRow),
}

/// What the caller does next, after sending the lines of the step.
pub enum LoginAction {
    ReadLine,
    LookUpAccount(String),
    /// Check a password against a stored hash.
    VerifyPassword(String, String),
    /// Create an account with a user name and (to be hashed) password.
    CreateAccount(String, String),
    /// The login succeeded with this account.
    LoggedIn(AccountRow),
    /// The login ended without an account.
    End,
}

pub enum LoginStateView {
    Start,
    AwaitingUsername,
    LookingUp(Seq<char>),
    AwaitingPassword(AccountView),
    CheckingPassword(AccountView),
    AwaitingNewPassword(Seq<char>),
    AwaitingConfirmation(Seq<char>, Seq<char>),
    Creating(Seq<char>),
    Finished,
}

pub enum LoginEventView {
    Begin,
    Line(Option<Seq<char>>),
    AccountFound(Option<AccountView>),
    PasswordChecked(bool),
    AccountCreated(AccountView),
}

pub enum LoginActionView {
    ReadLine,
    LookUpAccount(Seq<char>),
    VerifyPassword(Seq<char>, Seq<char>),
    CreateAccount(Seq<char>, Seq<char>),
    LoggedIn(AccountView),
    End,
}

impl View for LoginState {
    type V = LoginStateView;

    open spec fn view(&self) -> LoginStateView {
        match self {
            LoginState::Start => LoginStateView::Start,
            LoginState::AwaitingUsername => LoginStateView::AwaitingUsername,
            LoginState::LookingUp(u) => LoginStateView::LookingUp(u@),
            LoginState::AwaitingPassword(a) => LoginStateView::AwaitingPassword(a@),
            LoginState::CheckingPassword(a) => LoginStateView::CheckingPassword(a@),
            LoginState::AwaitingNewPassword(u) => LoginStateView::AwaitingNewPassword(u@),
            LoginState::AwaitingConfirmation(u, p) => LoginStateView::AwaitingConfirmation(u@, p@),
            LoginState::Creating(u) => LoginStateView::Creating(u@),
            LoginState::Finished => LoginStateView::Finished,
        }
    }
}

impl View for LoginEvent {
    type V = LoginEventView;

    open spec fn view(&self) -> LoginEventView {
        match self {
            LoginEvent::Begin => LoginEventView::Begin,
            LoginEvent::Line(None) => LoginEventView::Line(None),
            LoginEvent::Line(Some(s)) => LoginEventView::Line(Some(s@)),
            LoginEvent::AccountFound(None) => LoginEventView::AccountFound(None),
            LoginEvent::AccountFound(Some(a)) => LoginEventView::AccountFound(Some(a@)),
            LoginEvent::PasswordChecked(b) => LoginEventView::PasswordChecked(*b),
            LoginEvent::AccountCreated(a) => LoginEventView::AccountCreated(a@),
        }
    }
}

impl View for LoginAction {
    type V = LoginActionView;

    open spec fn view(&self) -> LoginActionView {
        match self {
            LoginAction::ReadLine => LoginActionView::ReadLine,
            LoginAction::LookUpAccount(u) => LoginActionView::LookUpAccount(u@),
            LoginAction::VerifyPassword(p, h) => LoginActionView::VerifyPassword(p@, h@),
            LoginAction::CreateAccount(u, p) => LoginActionView::CreateAccount(u@, p@),
            LoginAction::LoggedIn(a) => LoginActionView::LoggedIn(a@),
            LoginAction::End => LoginActionView::End,
        }
    }
}

/// One step of a login: the next state, the lines to send, in order, and what to do then.
pub open spec fn login_step(s: LoginStateView, e: LoginEventView) -> (LoginStateView, Seq<Seq<char>>, LoginActionView) {
    let new_password = "New account; enter your password:"@;
    match (s, e) {
        (LoginStateView::Start, LoginEventView::Begin) => (
            LoginStateView::AwaitingUsername,
            seq!["Enter your username:"@],
            LoginActionView::ReadLine,
        ),
        (LoginStateView::AwaitingUsername, LoginEventView::Line(Some(u))) => (
            LoginStateView::LookingUp(u),
            seq![],
            LoginActionView::LookUpAccount(u),
        ),
        (LoginStateView::LookingUp(_), LoginEventView::AccountFound(Some(a))) => (
            LoginStateView::AwaitingPassword(a),
            seq!["Enter your password:"@],
            LoginActionView::ReadLine,
        ),
        (LoginStateView::LookingUp(u), LoginEventView::AccountFound(None)) => (
            LoginStateView::AwaitingNewPassword(u),
            seq![new_password],
            LoginActionView::ReadLine,
        ),
        (LoginStateView::AwaitingPassword(a), LoginEventView::Line(Some(p))) => (
            LoginStateView::CheckingPassword(a),
            seq![],
            LoginActionView::VerifyPassword(p, a.password_hash),
        ),
        (LoginStateView::CheckingPassword(a), LoginEventView::PasswordChecked(true)) => (
            LoginStateView::Finished,
            seq![],
            LoginActionView::LoggedIn(a),
        ),
        (LoginStateView::CheckingPassword(_), LoginEventView::PasswordChecked(false)) => (
            LoginStateView::Finished,
            seq!["Incorrect password."@],
            LoginActionView::End,
        ),
        (LoginStateView::AwaitingNewPassword(u), LoginEventView::Line(Some(p))) => (
            LoginStateView::AwaitingConfirmation(u, p),
            seq!["Confirm your password:"@],
            LoginActionView::ReadLine,
        ),
        (LoginStateView::AwaitingConfirmation(u, p), LoginEventView::Line(Some(c))) => if c == p {
            (LoginStateView::Creating(u), seq![], LoginActionView::CreateAccount(u, p))
        } else {
            (LoginStateView::AwaitingNewPassword(u), seq!["Passwords do not match."@, new_password], LoginActionView::ReadLine)
        },
        (LoginStateView::Creating(_), LoginEventView::AccountCreated(a)) => (
            LoginStateView::Finished,
            seq![],
            LoginActionView::LoggedIn(a),
        ),
        // A closed connection, or an event that the state does not wait for, ends the login.
        _ => (LoginStateView::Finished, seq![], LoginActionView::End),
    }
}

pub open spec fn login_step_view(r: (LoginState, Vec<String>, LoginAction)) -> (LoginStateView, Seq<Seq<char>>, LoginActionView) {
    (r.0@, r.1@.map_values(|s: String| s@), r.2@)
}

fn lines1(a: &str) -> (r: Vec<String>)
    ensures
        r@.map_values(|s: String| s@) == seq![a@],
{
    let mut r: Vec<String> = Vec::new();
    r.push(owned(a));
    assert(r@.map_values(|s: String| s@) =~= seq![a@]);
    r
}

/// Advances a login by one event.
pub fn login_step_exec(state: LoginState, event: LoginEvent) -> (r: (LoginState, Vec<String>, LoginAction))
    ensures
        login_step_view(r) == login_step(state@, event@),
{
    let none: Vec<String> = Vec::new();
    assert(none@.map_values(|s: String| s@) =~= Seq::<Seq<char>>::empty());
    match (state, event) {
        (LoginState::Start, LoginEvent::Begin) => (LoginState::AwaitingUsername, lines1("Enter your username:"), LoginAction::ReadLine),
        (LoginState::AwaitingUsername, LoginEvent::Line(Some(u))) => {
            let name = u.clone();
            (LoginState::LookingUp(u), none, LoginAction::LookUpAccount(name))
        },
        (LoginState::LookingUp(_), LoginEvent::AccountFound(Some(a))) => (
            LoginState::AwaitingPassword(a),
            lines1("Enter your password:"),
            LoginAction::ReadLine,
        ),
        (LoginState::LookingUp(u), LoginEvent::AccountFound(None)) => (
            LoginState::AwaitingNewPassword(u),
            lines1("New account; enter your password:"),
            LoginAction::ReadLine,
        ),
        (LoginState::AwaitingPassword(a), LoginEvent::Line(Some(p))) => {
            let hash = a.password_hash.clone();
            (LoginState::CheckingPassword(a), none, LoginAction::VerifyPassword(p, hash))
        },
        (LoginState::CheckingPassword(a), LoginEvent::PasswordChecked(ok)) => if ok {
            (LoginState::Finished, none, LoginAction::LoggedIn(a))
        } else {
            (LoginState::Finished, lines1("Incorrect password."), LoginAction::End)
        },
        (LoginState::AwaitingNewPassword(u), LoginEvent::Line(Some(p))) => (
            LoginState::AwaitingConfirmation(u, p),
            lines1("Confirm your password:"),
            LoginAction::ReadLine,
        ),
        (LoginState::AwaitingConfirmation(u, p), LoginEvent::Line(Some(c))) => {
            if str_eq(c.as_str(), p.as_str()) {
                let name = u.clone();
                (LoginState::Creating(u), none, LoginAction::CreateAccount(name, p))
            } else {
                let mut lines: Vec<String> = Vec::new();
                lines.push(owned("Passwords do not match."));
                lines.push(owned("New account; enter your password:"));
                assert(lines@.map_values(|s: String| s@) =~= seq!["Passwords do not match."@, "New account; enter your password:"@]);
                (LoginState::AwaitingNewPassword(u), lines, LoginAction::ReadLine)
            }
        },
        (LoginState::Creating(_), LoginEvent::AccountCreated(a)) => (LoginState::Finished, none, LoginAction::LoggedIn(a)),
        _ => (LoginState::Finished, none, LoginAction::End),
    }
}

/// A login ends with an account only after that account's password was checked and
/// matched, or after the account was created.
pub proof fn law_login_needs_password_or_new_account(s: LoginStateView, e: LoginEventView)
    ensures
        login_step(s, e).2 matches LoginActionView::LoggedIn(a) ==> {
            ||| s == LoginStateView::CheckingPassword(a) && e == LoginEventView::PasswordChecked(true)
            ||| s is Creating && e == LoginEventView::AccountCreated(a)
        },
{
}

/// An account is created only with a password that was typed twice the same.
pub proof fn law_new_account_confirmed(s: LoginStateView, e: LoginEventView)
    ensures
        login_step(s, e).2 matches LoginActionView::CreateAccount(u, p) ==> {
            &&& s == LoginStateView::AwaitingConfirmation(u, p)
            &&& e == LoginEventView::Line(Some(p))
        },
{
}

/// A password is checked only against the hash of the account whose password was asked
/// for.
pub proof fn law_password_checked_against_account(s: LoginStateView, e: LoginEventView)
    ensures
        login_step(s, e).2 matches LoginActionView::VerifyPassword(p, h) ==> {
            &&& s matches LoginStateView::AwaitingPassword(a) && h == a.password_hash
            &&& e == LoginEventView::Line(Some(p))
            &&& login_step(s, e).0 == LoginStateView::CheckingPassword(s->AwaitingPassword_0)
        },
{
}

/// Puts the player of an account into the game at `location`: the player entity (with the
/// account's identifier, the user name as alias and as name) and its subscription to
/// game events. A player entity that already exists, or a user name that is already an
/// alias, fails the login; in the second case the entity is registered nonetheless.
pub fn start_session(
    account: &AccountRow,
    location: Location,
    entities: &mut EntityRegistry,
    bus: &mut EventBus,
) -> (r: Result<(SessionContext, Receiver<GameEvent>), SessionError>)
    ensures
        match r {
            Ok((ctx, _)) => {
                &&& ctx == (SessionContext { player_id: account.id, is_admin: account.is_admin })
                &&& !old(entities).aliases().contains_key(account.id)
                &&& !old(entities).alias_index().contains_key(account.username@)
                &&& final(entities).aliases() == old(entities).aliases().insert(account.id, account.username@)
                &&& final(entities).alias_index() == old(entities).alias_index().insert(account.username@, account.id)
                &&& final(entities).table(ComponentKind::Location) == old(entities).table(ComponentKind::Location).insert(
                    account.id,
                    ComponentValue::Location(location.value),
                )
                &&& final(entities).table(ComponentKind::Name) == old(entities).table(ComponentKind::Name).insert(
                    account.id,
                    ComponentValue::Name(account.username@),
                )
                &&& forall|k: ComponentKind| k != ComponentKind::Location && k != ComponentKind::Name
                    ==> #[trigger] final(entities).table(k) == old(entities).table(k)
                &&& final(bus)@ == old(bus)@.insert(account.id)
                &&& final(bus).keeps_others(old(bus), account.id)
            },
            Err(e) => {
                &&& e@ == SessionErrorView::Login
                &&& *final(bus) == *old(bus)
                &&& final(entities).same_tables(old(entities))
                &&& final(entities).alias_index() == old(entities).alias_index()
                &&& if old(entities).aliases().contains_key(account.id) {
                    final(entities).aliases() == old(entities).aliases()
                } else {
                    &&& old(entities).alias_index().contains_key(account.username@)
                    &&& final(entities).aliases() == old(entities).aliases().insert(account.id, account.username@)
                }
            },
        },
{
    let alias = Alias::new(account.username.as_str());
    let ghost e0 = *old(entities);
    let id = match entities.spawn(Some(account.id), alias) {
        Ok(id) => id,
        Err(_) => {
            return Err(SessionError::Login);
        },
    };
    let ghost e1 = *entities;
    match entities.update_component(&id, location) {
        Ok(()) => {},
        Err(e) => {
            return Err(SessionError::from_registry(e));
        },
    }
    match entities.update_component(&id, Name::new(account.username.as_str())) {
        Ok(()) => {},
        Err(e) => {
            return Err(SessionError::from_registry(e));
        },
    }
    proof {
        assert forall|k: ComponentKind| k != ComponentKind::Location && k != ComponentKind::Name
            implies #[trigger] entities.table(k) == old(entities).table(k) by {
            assert(e1.table(k) == e0.table(k));
        }
    }
    let receiver = bus.register(&id);
    Ok((SessionContext { player_id: id, is_admin: account.is_admin }, receiver))
}

/// The greeting for the player of a session, who has a name.
pub fn welcome(context: &SessionContext, entities: &EntityRegistry) -> (s: String)
    requires
        entities.aliases().contains_key(context.player_id),
        entities.table(ComponentKind::Name).contains_key(context.player_id),
    ensures
        s@ == "Welcome "@ + crate::command::text_of(entities.table(ComponentKind::Name)[context.player_id]) + "!"@,
{
    match entities.get_component::<Name>(&context.player_id) {
        Ok(Some(name)) => cat3("Welcome ", name.as_str(), "!"),
        _ => String::new(),
    }
}

/// Takes the player of a session out of the game: its subscription ends and its entity
/// is despawned.
pub fn end_session(context: &SessionContext, entities: &mut EntityRegistry, bus: &mut EventBus)
    ensures
        final(bus)@ == old(bus)@.remove(context.player_id),
        final(bus).keeps_others(old(bus), context.player_id),
        despawned(old(entities), final(entities), context.player_id, if old(entities).aliases().contains_key(context.player_id) {
            Ok::<(), EntityRegistryError>(())
        } else {
            Err::<(), EntityRegistryError>(EntityRegistryError::UnknownEntity(context.player_id))
        }),
{
    bus.unregister(&context.player_id);
    let _ = entities.despawn(&context.player_id);
}

/// A game event with the entities it goes to.
pub struct Delivery {
    pub event: GameEvent,
    pub targets: Vec<EntityId>,
}

/// What answering a line of input leaves to the caller.
pub enum InputOutcome {
    /// Send the text, if any.
    Reply(Option<String>),
    /// Publish each event to its targets, then send the text, if any.
    Deliver(Vec<Delivery>, Option<String>),
    /// Write the records, then send the answer that `SaveRequest::answer` gives.
    Save(SaveRequest),
}

/// The answer to a line that is not a valid command.
pub open spec fn parse_error_text(e: ParseErrorView) -> Seq<char> {
    match e {
        ParseErrorView::UnknownCommand(s) => "Unknown command: '"@ + s + "'"@,
        ParseErrorView::InvalidSyntax(s) => s,
        ParseErrorView::InvalidDirection(s) => "Invalid direction: "@ + s,
    }
}

/// The answer to a command that only an administrator may give.
pub open spec fn unauthorized_text() -> Seq<char> {
    "You are not allowed to do that."@
}

/// `ds` carries the events of `events`, in order, each to exactly the entities of `reg`
/// that receive it.
pub open spec fn delivers(reg: &EntityRegistry, events: Seq<EventView>, ds: Seq<Delivery>) -> bool {
    &&& ds.len() == events.len()
    &&& forall|i: int| 0 <= i < ds.len() ==> {
        &&& (#[trigger] ds[i]).event@ == events[i].event
        &&& ds[i].targets@.no_duplicates()
        &&& forall|e: EntityId| ds[i].targets@.contains(e) <==> receives(reg, events[i].target, e)
    }
}

/// What the caller is left with after command outcome `o`, in registry `reg`.
pub open spec fn input_result(reg: &EntityRegistry, o: Result<CommandResultView, Seq<char>>, r: Result<InputOutcome, SessionError>) -> bool {
    match o {
        Err(m) => r matches Err(e) && e@ == SessionErrorView::Internal(m),
        Ok(CommandResultView::Query(s)) => r matches Ok(InputOutcome::Reply(Some(t))) && t@ == s,
        Ok(CommandResultView::Unauthorized) => r matches Ok(InputOutcome::Reply(Some(t))) && t@ == unauthorized_text(),
        Ok(CommandResultView::Save(request)) => r matches Ok(InputOutcome::Save(q)) && q@ == request,
        Ok(CommandResultView::Action(events, response)) => r matches Ok(InputOutcome::Deliver(ds, text)) && delivers(reg, events, ds@)
            && match text {
            Some(t) => response == Some(t@),
            None => response is None,
        },
    }
}

/// What answering a line does: a line that is not a command is answered with why; a
/// command is carried out and its outcome handed over.
pub open spec fn input_outcome(
    old_reg: &EntityRegistry,
    reg: &EntityRegistry,
    old_graph: &RoomGraph,
    graph: &RoomGraph,
    ctx: SessionContext,
    input: Seq<char>,
    r: Result<InputOutcome, SessionError>,
) -> bool {
    match parse_spec(input) {
        Err(e) => r matches Ok(InputOutcome::Reply(Some(t))) && t@ == parse_error_text(e) && reg == old_reg && graph == old_graph,
        Ok(c) => exists|o: Result<CommandResultView, Seq<char>>| #[trigger] command_outcome(old_reg, reg, old_graph, graph, ctx, c, o)
            && input_result(reg, o, r),
    }
}

/// The events of an action, each with the entities that receive it.
fn deliveries(entities: &EntityRegistry, events: &[Event]) -> (r: Vec<Delivery>)
    ensures
        delivers(entities, events@.map_values(|e: Event| e@), r@),
{
    let ghost views = events@.map_values(|e: Event| e@);
    let mut r: Vec<Delivery> = Vec::new();
    let mut i: usize = 0;
    while i < events.len()
        invariant
            i <= events.len(),
            views == events@.map_values(|e: Event| e@),
            r@.len() == i,
            forall|j: int| 0 <= j < i ==> {
                &&& (#[trigger] r@[j]).event@ == views[j].event
                &&& r@[j].targets@.no_duplicates()
                &&& forall|e: EntityId| r@[j].targets@.contains(e) <==> receives(entities, views[j].target, e)
            },
        decreases events.len() - i,
    {
        let targets = match entities.resolve(&events[i].target) {
            Ok(ids) => ids,
            Err(_) => Vec::new(),
        };
        let event = events[i].event.clone();
        r.push(Delivery { event, targets });
        i = i + 1;
    }
    r
}

/// Answers one line of input from the player of a session.
pub fn handle_input(
    context: &SessionContext,
    entities: &mut EntityRegistry,
    rooms: &mut RoomGraph,
    input: &str,
) -> (r: Result<InputOutcome, SessionError>)
    ensures
        input_outcome(old(entities), final(entities), old(rooms), final(rooms), *context, input@, r),
{
    let command = match Command::parse(input) {
        Ok(c) => c,
        Err(CommandParseError::UnknownCommand(s)) => {
            return Ok(InputOutcome::Reply(Some(cat3("Unknown command: '", s.as_str(), "'"))));
        },
        Err(CommandParseError::InvalidSyntax(s)) => {
            return Ok(InputOutcome::Reply(Some(s)));
        },
        Err(CommandParseError::InvalidDirection(s)) => {
            return Ok(InputOutcome::Reply(Some(cat2("Invalid direction: ", s.as_str()))));
        },
    };
    let ghost c = command@;
    let result = crate::command::handle_command(context, entities, rooms, command);
    let ghost o = crate::command::outcome(result);
    let r = match result {
        Err(e) => Err(SessionError::from(e)),
        Ok(CommandResult::Query(q)) => Ok(InputOutcome::Reply(Some(owned(q.response())))),
        Ok(CommandResult::Unauthorized) => Ok(InputOutcome::Reply(Some(owned("You are not allowed to do that.")))),
        Ok(CommandResult::Save(request)) => Ok(InputOutcome::Save(request)),
        Ok(CommandResult::Action(action)) => {
            let ds = deliveries(entities, action.events());
            let text = match action.response() {
                Some(t) => Some(t.clone()),
                None => None,
            };
            Ok(InputOutcome::Deliver(ds, text))
        },
    };
    assert(input_result(entities, o, r));
    r
}

} // verus!
