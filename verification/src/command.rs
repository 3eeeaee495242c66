//! Player commands: parsing a line of input into a command, and carrying a command out
//! against the entity registry and the room graph.
use vstd::prelude::*;

pub mod admin;
pub mod save;
use crate::model::ids::{uuid_text, Alias, EntityId, RoomId};
use crate::model::rooms::{direction_name, opposite_of, RoomGraph};
use crate::entities::{
    entity_debug, lists, lists2, registry_error_debug, ComponentKind, ComponentStorage, ComponentValue, Description,
    EntityRegistry, EntityRegistryError, Item, Location, Name, Npc, Player,
};
use crate::event::{Event, EventTarget, EventView, GameEvent, GameEventView};
use crate::session::SessionContext;
use crate::data::{keyed_views, write_error_debug, DataWriteError, EntityDataView, ItemData, NpcData, RoomData, RoomDataView};
use crate::model::rooms::{direction_from_word, Direction, DirectionParseError};
use crate::text::{lemma_text_order_total, sort_texts, text_order, ascii_lower, cat2, cat3, contains, seq_contains, join, join_from, joined_from, lowercase, owned, seq_join, split_words, str_eq, to_lowercase, views, words};

verus! {

/// The keywords by which a player names an entity.
pub struct Keywords(pub Vec<String>);

impl View for Keywords {
    type V = Seq<Seq<char>>;

    open spec fn view(&self) -> Seq<Seq<char>> {
        views(self.0@)
    }
}

impl Keywords {
    /// The display form: the keywords separated by single spaces.
    pub fn to_string(&self) -> (text: String)
        ensures
            text@ == seq_join(self@, " "@),
    {
        join(&self.0, " ")
    }
}

pub enum Command {
    Go(Direction),
    Say(String),
    Who,
    Look,
    Inventory,
    /// take <keywords>
    Take(Keywords),
    /// drop <keywords>
    Drop(Keywords),
    /// inspect <keywords>
    Inspect(Keywords),
    // Admin commands
    Edit(EditTarget, EditField, String),
    Save(SaveTarget, String),
    Link(Direction, Alias),
    Unlink(Direction),
    Create(Direction, Alias),
    Spawn(SpawnTarget, Alias),
    RoomInfo,
    // Session management commands
    Quit,
}

#[derive(Clone, Copy, PartialEq, Eq, Structural, Debug)]
pub enum SpawnTarget {
    Item,
    Npc,
}

pub enum EditTarget {
    Room,
    Entity(Alias),
}

#[derive(Clone, Copy, PartialEq, Eq, Structural, Debug)]
pub enum EditField {
    Description,
    Name,
}

#[derive(Clone, Copy, PartialEq, Eq, Structural, Debug)]
pub enum SaveTarget {
    Rooms,
    Items,
    Npcs,
}

pub enum CommandParseError {
    UnknownCommand(String),
    InvalidSyntax(String),
    InvalidDirection(String),
}

impl From<DirectionParseError> for CommandParseError {
    fn from(value: DirectionParseError) -> (e: CommandParseError) {
        match value {
            DirectionParseError::Invalid(s) => CommandParseError::InvalidDirection(s),
        }
    }
}

impl vstd::std_specs::convert::FromSpecImpl<DirectionParseError> for CommandParseError {
    open spec fn obeys_from_spec() -> bool {
        true
    }

    open spec fn from_spec(v: DirectionParseError) -> CommandParseError {
        match v {
            DirectionParseError::Invalid(s) => CommandParseError::InvalidDirection(s),
        }
    }
}

pub enum EditTargetView {
    Room,
    Entity(Seq<char>),
}

/// A command with its texts as character sequences.
pub enum CommandView {
    Go(Direction),
    Say(Seq<char>),
    Who,
    Look,
    Inventory,
    Take(Seq<Seq<char>>),
    Drop(Seq<Seq<char>>),
    Inspect(Seq<Seq<char>>),
    Edit(EditTargetView, EditField, Seq<char>),
    Save(SaveTarget, Seq<char>),
    Link(Direction, Seq<char>),
    Unlink(Direction),
    Create(Direction, Seq<char>),
    Spawn(SpawnTarget, Seq<char>),
    RoomInfo,
    Quit,
}

pub enum ParseErrorView {
    UnknownCommand(Seq<char>),
    InvalidSyntax(Seq<char>),
    InvalidDirection(Seq<char>),
}

impl View for EditTarget {
    type V = EditTargetView;

    open spec fn view(&self) -> EditTargetView {
        match self {
            EditTarget::Room => EditTargetView::Room,
            EditTarget::Entity(a) => EditTargetView::Entity(a@),
        }
    }
}

impl View for Command {
    type V = CommandView;

    open spec fn view(&self) -> CommandView {
        match self {
            Command::Go(d) => CommandView::Go(*d),
            Command::Say(s) => CommandView::Say(s@),
            Command::Who => CommandView::Who,
            Command::Look => CommandView::Look,
            Command::Inventory => CommandView::Inventory,
            Command::Take(k) => CommandView::Take(k@),
            Command::Drop(k) => CommandView::Drop(k@),
            Command::Inspect(k) => CommandView::Inspect(k@),
            Command::Edit(t, f, c) => CommandView::Edit(t@, *f, c@),
            Command::Save(t, p) => CommandView::Save(*t, p@),
            Command::Link(d, a) => CommandView::Link(*d, a@),
            Command::Unlink(d) => CommandView::Unlink(*d),
            Command::Create(d, a) => CommandView::Create(*d, a@),
            Command::Spawn(t, a) => CommandView::Spawn(*t, a@),
            Command::RoomInfo => CommandView::RoomInfo,
            Command::Quit => CommandView::Quit,
        }
    }
}

impl View for CommandParseError {
    type V = ParseErrorView;

    open spec fn view(&self) -> ParseErrorView {
        match self {
            CommandParseError::UnknownCommand(s) => ParseErrorView::UnknownCommand(s@),
            CommandParseError::InvalidSyntax(s) => ParseErrorView::InvalidSyntax(s@),
            CommandParseError::InvalidDirection(s) => ParseErrorView::InvalidDirection(s@),
        }
    }
}

pub open spec fn parse_result_view(r: Result<Command, CommandParseError>) -> Result<CommandView, ParseErrorView> {
    match r {
        Ok(c) => Ok(c@),
        Err(e) => Err(e@),
    }
}

pub open spec fn syntax(msg: Seq<char>) -> Result<CommandView, ParseErrorView> {
    Err(ParseErrorView::InvalidSyntax(msg))
}

/// The text after the verb: the remaining words separated by single spaces.
pub open spec fn rest_text(w: Seq<Seq<char>>) -> Seq<char> {
    joined_from(w, 1, " "@)
}

/// The command for a verb taking keywords: `Take`, `Drop` or `Inspect` of `keywords`.
pub open spec fn keyword_command(verb: Seq<char>, keywords: Seq<Seq<char>>) -> Result<CommandView, ParseErrorView> {
    if verb == "take"@ {
        if keywords.len() == 0 { syntax("Take what?"@) } else { Ok(CommandView::Take(keywords)) }
    } else if verb == "drop"@ {
        if keywords.len() == 0 { syntax("Drop what?"@) } else { Ok(CommandView::Drop(keywords)) }
    } else {
        if keywords.len() == 0 { syntax("Inspect what?"@) } else { Ok(CommandView::Inspect(keywords)) }
    }
}

pub open spec fn parse_go(w: Seq<Seq<char>>) -> Result<CommandView, ParseErrorView> {
    if w.len() < 2 {
        syntax("Go where?"@)
    } else {
        match direction_from_word(ascii_lower(w[1])) {
            Some(d) => Ok(CommandView::Go(d)),
            None => syntax("You can't go "@ + w[1] + "!"@),
        }
    }
}

pub open spec fn parse_edit(w: Seq<Seq<char>>) -> Result<CommandView, ParseErrorView> {
    if w.len() < 2 {
        syntax("Edit what?"@)
    } else if w.len() < 3 {
        syntax("Edit which field?"@)
    } else {
        let target = if w[1] == "room"@ { EditTargetView::Room } else { EditTargetView::Entity(w[1]) };
        let field = if w[2] == "desc"@ || w[2] == "description"@ {
            Some(EditField::Description)
        } else if w[2] == "name"@ || w[2] == "title"@ {
            Some(EditField::Name)
        } else {
            None
        };
        match field {
            None => Err(ParseErrorView::UnknownCommand("Unknown edit field '"@ + w[2] + "'"@)),
            Some(f) => {
                let content = joined_from(w, 3, " "@);
                if content.len() == 0 {
                    syntax("No edit content!"@)
                } else {
                    Ok(CommandView::Edit(target, f, content))
                }
            },
        }
    }
}

pub open spec fn parse_save(w: Seq<Seq<char>>) -> Result<CommandView, ParseErrorView> {
    if w.len() < 2 {
        syntax("Save what?"@)
    } else {
        let target = if w[1] == "rooms"@ {
            Some(SaveTarget::Rooms)
        } else if w[1] == "items"@ {
            Some(SaveTarget::Items)
        } else if w[1] == "npcs"@ {
            Some(SaveTarget::Npcs)
        } else {
            None
        };
        match target {
            None => Err(ParseErrorView::UnknownCommand("Don't know how to save '"@ + w[1] + "'!"@)),
            Some(t) => if w.len() < 3 { syntax("Save to where?"@) } else { Ok(CommandView::Save(t, w[2])) },
        }
    }
}

/// `link`, `unlink` and `create`: a direction, then (but for `unlink`) an alias.
pub open spec fn parse_exit_command(verb: Seq<char>, w: Seq<Seq<char>>) -> Result<CommandView, ParseErrorView> {
    if w.len() < 2 {
        if verb == "link"@ {
            syntax("Link in which direction?"@)
        } else if verb == "unlink"@ {
            syntax("Unlink which direction?"@)
        } else {
            syntax("Create in which direction?"@)
        }
    } else {
        match direction_from_word(ascii_lower(w[1])) {
            None => Err(ParseErrorView::InvalidDirection(ascii_lower(w[1]))),
            Some(d) => if verb == "unlink"@ {
                Ok(CommandView::Unlink(d))
            } else if w.len() < 3 {
                if verb == "link"@ { syntax("Link to where?"@) } else { syntax("Create what?"@) }
            } else if verb == "link"@ {
                Ok(CommandView::Link(d, w[2]))
            } else {
                Ok(CommandView::Create(d, w[2]))
            },
        }
    }
}

pub open spec fn parse_spawn(w: Seq<Seq<char>>) -> Result<CommandView, ParseErrorView> {
    if w.len() < 2 {
        syntax("Spawn what?"@)
    } else if w[1] != "item"@ && w[1] != "npc"@ {
        syntax("Cannot spawn "@ + w[1] + "!"@)
    } else if w.len() < 3 {
        syntax("With what alias?"@)
    } else {
        Ok(CommandView::Spawn(if w[1] == "item"@ { SpawnTarget::Item } else { SpawnTarget::Npc }, w[2]))
    }
}

/// The command that the words `w` of `input` describe, given the verb (the first word,
/// lower-cased) and the keywords (the other words, lower-cased).
pub open spec fn command_from_words(
    input: Seq<char>,
    w: Seq<Seq<char>>,
    verb: Seq<char>,
    keywords: Seq<Seq<char>>,
) -> Result<CommandView, ParseErrorView> {
    if verb == "go"@ {
        parse_go(w)
    } else if verb == "say"@ {
        if rest_text(w).len() == 0 { syntax("Say what?"@) } else { Ok(CommandView::Say(rest_text(w))) }
    } else if verb == "who"@ {
        Ok(CommandView::Who)
    } else if verb == "look"@ {
        Ok(CommandView::Look)
    } else if verb == "inventory"@ {
        Ok(CommandView::Inventory)
    } else if verb == "take"@ || verb == "drop"@ || verb == "inspect"@ {
        keyword_command(verb, keywords)
    } else if verb == "edit"@ {
        parse_edit(w)
    } else if verb == "save"@ {
        parse_save(w)
    } else if verb == "link"@ || verb == "unlink"@ || verb == "create"@ {
        parse_exit_command(verb, w)
    } else if verb == "spawn"@ {
        parse_spawn(w)
    } else if verb == "roominfo"@ {
        Ok(CommandView::RoomInfo)
    } else if verb == "quit"@ {
        Ok(CommandView::Quit)
    } else {
        Err(ParseErrorView::UnknownCommand(input))
    }
}

/// The command that a line of input describes.
pub open spec fn parse_spec(input: Seq<char>) -> Result<CommandView, ParseErrorView> {
    let w = words(input);
    let verb = if w.len() > 0 { lowercase(w[0]) } else { lowercase(""@) };
    command_from_words(input, w, verb, lowered_keywords(w))
}

/// An `edit` line names the field it sets by its third word: `desc` or `description` set
/// the description, `name` or `title` the name, and any other word is refused as an
/// unknown edit field. With content after the field, the line edits the current room
/// (second word `room`) or the entity with the alias given as second word, setting the
/// field to the rest of the line.
pub proof fn law_edit_fields(input: Seq<char>)
    requires
        words(input).len() >= 3,
        lowercase(words(input)[0]) == "edit"@,
        joined_from(words(input), 3, " "@).len() > 0,
    ensures
        ({
            let w = words(input);
            let target = if w[1] == "room"@ { EditTargetView::Room } else { EditTargetView::Entity(w[1]) };
            let content = joined_from(w, 3, " "@);
            &&& (w[2] == "desc"@ || w[2] == "description"@) ==> parse_spec(input)
                == Ok::<CommandView, ParseErrorView>(CommandView::Edit(target, EditField::Description, content))
            &&& (w[2] == "name"@ || w[2] == "title"@) ==> parse_spec(input)
                == Ok::<CommandView, ParseErrorView>(CommandView::Edit(target, EditField::Name, content))
            &&& !(w[2] == "desc"@ || w[2] == "description"@ || w[2] == "name"@ || w[2] == "title"@) ==> parse_spec(input)
                == Err::<CommandView, ParseErrorView>(ParseErrorView::UnknownCommand("Unknown edit field '"@ + w[2] + "'"@))
        }),
{
    reveal_strlit("go");
    reveal_strlit("say");
    reveal_strlit("who");
    reveal_strlit("look");
    reveal_strlit("inventory");
    reveal_strlit("take");
    reveal_strlit("drop");
    reveal_strlit("inspect");
    reveal_strlit("edit");
    reveal_strlit("desc");
    reveal_strlit("description");
    reveal_strlit("name");
    reveal_strlit("title");
    assert("go"@.len() == 2 && "go"@[0] == 'g');
    assert("say"@.len() == 3 && "say"@[0] == 's');
    assert("who"@.len() == 3 && "who"@[0] == 'w');
    assert("look"@.len() == 4 && "look"@[0] == 'l');
    assert("inventory"@.len() == 9 && "inventory"@[0] == 'i');
    assert("take"@.len() == 4 && "take"@[0] == 't');
    assert("drop"@.len() == 4 && "drop"@[0] == 'd');
    assert("inspect"@.len() == 7 && "inspect"@[0] == 'i');
    assert("edit"@.len() == 4 && "edit"@[0] == 'e');
    assert("desc"@.len() == 4 && "desc"@[0] == 'd');
    assert("description"@.len() == 11 && "description"@[0] == 'd');
    assert("name"@.len() == 4 && "name"@[0] == 'n');
    assert("title"@.len() == 5 && "title"@[0] == 't');
    let w = words(input);
    assert(parse_spec(input) == command_from_words(input, w, "edit"@, lowered_keywords(w)));
    assert(command_from_words(input, w, "edit"@, lowered_keywords(w)) == parse_edit(w));
}

/// The words after the verb, each lower-cased.
pub open spec fn lowered_keywords(w: Seq<Seq<char>>) -> Seq<Seq<char>> {
    if w.len() > 0 {
        w.skip(1).map_values(|s: Seq<char>| lowercase(s))
    } else {
        seq![]
    }
}

fn syntax_error(msg: &str) -> (r: Result<Command, CommandParseError>)
    ensures
        parse_result_view(r) == syntax(msg@),
{
    Err(CommandParseError::InvalidSyntax(owned(msg)))
}

impl Command {
    /// The words after the verb, lower-cased: the keywords of `take`, `drop` and `inspect`.
    fn collect_keywords(words: &Vec<String>) -> (keywords: Vec<String>)
        ensures
            words.len() > 0 ==> views(keywords@) == views(words@).skip(1).map_values(|s: Seq<char>| lowercase(s)),
            words.len() == 0 ==> views(keywords@) == Seq::<Seq<char>>::empty(),
    {
        let mut keywords: Vec<String> = Vec::new();
        let ghost w = views(words@);
        if words.len() > 0 {
            let mut i: usize = 1;
            while i < words.len()
                invariant
                    1 <= i <= words.len(),
                    w == views(words@),
                    views(keywords@) == w.skip(1).take(i - 1).map_values(|s: Seq<char>| lowercase(s)),
                decreases words.len() - i,
            {
                let ghost prev = views(keywords@);
                let lowered = to_lowercase(words[i].as_str());
                keywords.push(lowered);
                proof {
                    assert(views(keywords@) =~= prev.push(lowercase(w[i as int])));
                    assert(w.skip(1).take(i as int) =~= w.skip(1).take(i - 1).push(w[i as int]));
                    assert(views(keywords@) =~= w.skip(1).take(i as int).map_values(|s: Seq<char>| lowercase(s)));
                }
                i = i + 1;
            }
            proof {
                assert(w.skip(1).take(words.len() - 1) =~= w.skip(1));
            }
        } else {
            proof {
                assert(views(keywords@) =~= Seq::<Seq<char>>::empty());
            }
        }
        keywords
    }

    /// Parses a line of input: the first word (in any letter case) chooses the command,
    /// the other words are its arguments.
    pub fn parse(input: &str) -> (r: Result<Command, CommandParseError>)
        ensures
            parse_result_view(r) == parse_spec(input@),
    {
        let words = split_words(input);
        let verb = if words.len() > 0 {
            to_lowercase(words[0].as_str())
        } else {
            to_lowercase("")
        };
        let keywords = Command::collect_keywords(&words);
        Command::from_words(input, &words, verb.as_str(), keywords)
    }

    /// The command that the words of `input` describe, given the lower-cased verb and the
    /// keywords for `take`, `drop` and `inspect`.
    pub fn from_words(input: &str, words: &Vec<String>, verb: &str, keywords: Vec<String>) -> (r: Result<Command, CommandParseError>)
        ensures
            parse_result_view(r) == command_from_words(input@, views(words@), verb@, views(keywords@)),
    {
        let ghost w = views(words@);
        if str_eq(verb, "go") {
            if words.len() < 2 {
                return syntax_error("Go where?");
            }
            match Direction::from_string(words[1].as_str()) {
                Ok(d) => Ok(Command::Go(d)),
                Err(_) => Err(CommandParseError::InvalidSyntax(cat3("You can't go ", words[1].as_str(), "!"))),
            }
        } else if str_eq(verb, "say") {
            let sentence = join_from(words, 1, " ");
            if sentence.unicode_len() == 0 {
                syntax_error("Say what?")
            } else {
                Ok(Command::Say(sentence))
            }
        } else if str_eq(verb, "who") {
            Ok(Command::Who)
        } else if str_eq(verb, "look") {
            Ok(Command::Look)
        } else if str_eq(verb, "inventory") {
            Ok(Command::Inventory)
        } else if str_eq(verb, "take") {
            if keywords.len() == 0 {
                syntax_error("Take what?")
            } else {
                Ok(Command::Take(Keywords(keywords)))
            }
        } else if str_eq(verb, "drop") {
            if keywords.len() == 0 {
                syntax_error("Drop what?")
            } else {
                Ok(Command::Drop(Keywords(keywords)))
            }
        } else if str_eq(verb, "inspect") {
            if keywords.len() == 0 {
                syntax_error("Inspect what?")
            } else {
                Ok(Command::Inspect(Keywords(keywords)))
            }
        } else if str_eq(verb, "edit") {
            if words.len() < 2 {
                return syntax_error("Edit what?");
            }
            if words.len() < 3 {
                return syntax_error("Edit which field?");
            }
            let target = if str_eq(words[1].as_str(), "room") {
                EditTarget::Room
            } else {
                EditTarget::Entity(Alias::new(words[1].as_str()))
            };
            let f = words[2].as_str();
            let field = if str_eq(f, "desc") || str_eq(f, "description") {
                EditField::Description
            } else if str_eq(f, "name") || str_eq(f, "title") {
                EditField::Name
            } else {
                return Err(CommandParseError::UnknownCommand(cat3("Unknown edit field '", f, "'")));
            };
            let content = join_from(words, 3, " ");
            if content.unicode_len() == 0 {
                return syntax_error("No edit content!");
            }
            Ok(Command::Edit(target, field, content))
        } else if str_eq(verb, "save") {
            if words.len() < 2 {
                return syntax_error("Save what?");
            }
            let t = words[1].as_str();
            let target = if str_eq(t, "rooms") {
                SaveTarget::Rooms
            } else if str_eq(t, "items") {
                SaveTarget::Items
            } else if str_eq(t, "npcs") {
                SaveTarget::Npcs
            } else {
                return Err(CommandParseError::UnknownCommand(cat3("Don't know how to save '", t, "'!")));
            };
            if words.len() < 3 {
                return syntax_error("Save to where?");
            }
            Ok(Command::Save(target, words[2].clone()))
        } else if str_eq(verb, "link") || str_eq(verb, "unlink") || str_eq(verb, "create") {
            let is_link = str_eq(verb, "link");
            let is_unlink = str_eq(verb, "unlink");
            if words.len() < 2 {
                return if is_link {
                    syntax_error("Link in which direction?")
                } else if is_unlink {
                    syntax_error("Unlink which direction?")
                } else {
                    syntax_error("Create in which direction?")
                };
            }
            let direction = match Direction::from_string(words[1].as_str()) {
                Ok(d) => d,
                Err(e) => {
                    return Err(CommandParseError::from(e));
                },
            };
            if is_unlink {
                return Ok(Command::Unlink(direction));
            }
            if words.len() < 3 {
                return if is_link {
                    syntax_error("Link to where?")
                } else {
                    syntax_error("Create what?")
                };
            }
            let alias = Alias::new(words[2].as_str());
            if is_link {
                Ok(Command::Link(direction, alias))
            } else {
                Ok(Command::Create(direction, alias))
            }
        } else if str_eq(verb, "spawn") {
            if words.len() < 2 {
                return syntax_error("Spawn what?");
            }
            let t = words[1].as_str();
            let what = if str_eq(t, "item") {
                SpawnTarget::Item
            } else if str_eq(t, "npc") {
                SpawnTarget::Npc
            } else {
                return Err(CommandParseError::InvalidSyntax(cat3("Cannot spawn ", t, "!")));
            };
            if words.len() < 3 {
                return syntax_error("With what alias?");
            }
            Ok(Command::Spawn(what, Alias::new(words[2].as_str())))
        } else if str_eq(verb, "roominfo") {
            Ok(Command::RoomInfo)
        } else if str_eq(verb, "quit") {
            Ok(Command::Quit)
        } else {
            Err(CommandParseError::UnknownCommand(owned(input)))
        }
    }
}

/// The outcome of a command that changed the world: events to deliver and an optional
/// answer to the player.
pub struct ActionResult {
    events: Vec<Event>,
    response: Option<String>,
}

impl ActionResult {
    pub closed spec fn events_view(&self) -> Seq<EventView> {
        self.events@.map_values(|e: Event| e@)
    }

    pub closed spec fn response_view(&self) -> Option<Seq<char>> {
        match self.response {
            Some(s) => Some(s@),
            None => None,
        }
    }

    pub fn events(&self) -> (r: &[Event])
        ensures
            r@.map_values(|e: Event| e@) == self.events_view(),
    {
        self.events.as_slice()
    }

    pub fn response(&self) -> (r: &Option<String>)
        ensures
            match *r {
                Some(s) => self.response_view() == Some(s@),
                None => self.response_view() is None,
            },
    {
        &self.response
    }
}

/// The answer to a command that only looked at the world.
pub struct QueryResult {
    response: String,
}

impl View for QueryResult {
    type V = Seq<char>;

    closed spec fn view(&self) -> Seq<char> {
        self.response@
    }
}

impl QueryResult {
    pub fn new(response: String) -> (q: QueryResult)
        ensures
            q@ == response@,
    {
        QueryResult { response }
    }

    pub fn response(&self) -> (r: &str)
        ensures
            r@ == self@,
    {
        self.response.as_str()
    }
}

impl From<String> for QueryResult {
    fn from(value: String) -> (q: QueryResult) {
        QueryResult { response: value }
    }
}

impl vstd::std_specs::convert::FromSpecImpl<String> for QueryResult {
    open spec fn obeys_from_spec() -> bool {
        true
    }

    closed spec fn from_spec(v: String) -> QueryResult {
        QueryResult { response: v }
    }
}

pub enum CommandResult {
    Action(ActionResult),
    Query(QueryResult),
    Unauthorized,
    /// Records to write to a data file; the answer comes from `SaveRequest::answer` once
    /// the file was written.
    Save(SaveRequest),
}

pub enum CommandResultView {
    Action(Seq<EventView>, Option<Seq<char>>),
    Query(Seq<char>),
    Unauthorized,
    Save(SaveRequestView),
}

/// The records that `save` collected and the file they go to.
pub enum SaveRequest {
    Rooms(String, Vec<(RoomId, RoomData)>),
    Items(String, Vec<(EntityId, ItemData)>),
    Npcs(String, Vec<(EntityId, NpcData)>),
}

pub enum SaveRequestView {
    Rooms(Seq<char>, Seq<(RoomId, RoomDataView)>),
    Items(Seq<char>, Seq<(EntityId, EntityDataView)>),
    Npcs(Seq<char>, Seq<(EntityId, EntityDataView)>),
}

impl View for SaveRequest {
    type V = SaveRequestView;

    open spec fn view(&self) -> SaveRequestView {
        match self {
            SaveRequest::Rooms(f, r) => SaveRequestView::Rooms(f@, keyed_views(r@)),
            SaveRequest::Items(f, r) => SaveRequestView::Items(f@, keyed_views(r@)),
            SaveRequest::Npcs(f, r) => SaveRequestView::Npcs(f@, keyed_views(r@)),
        }
    }
}

/// The answer to `save` once writing `file` gave `result`.
pub open spec fn save_answer(what: SaveRequestView, result: Result<(), DataWriteError>) -> Seq<char> {
    let (file, done, failed) = match what {
        SaveRequestView::Rooms(f, _) => (f, "Rooms saved to '"@, "Could not save rooms to '"@),
        SaveRequestView::Items(f, _) => (f, "Items saved to '"@, "Could not save items to '"@),
        SaveRequestView::Npcs(f, _) => (f, "NPCs saved to '"@, "Could not save NPCs to '"@),
    };
    match result {
        Ok(()) => done + file + "'"@,
        Err(e) => failed + file + "': "@ + write_error_debug(e),
    }
}

impl SaveRequest {
    /// The answer to the player once the file was written, or not.
    pub fn answer(&self, result: Result<(), DataWriteError>) -> (q: QueryResult)
        ensures
            q@ == save_answer(self@, result),
    {
        let (file, done, failed) = match self {
            SaveRequest::Rooms(f, _) => (f, "Rooms saved to '", "Could not save rooms to '"),
            SaveRequest::Items(f, _) => (f, "Items saved to '", "Could not save items to '"),
            SaveRequest::Npcs(f, _) => (f, "NPCs saved to '", "Could not save NPCs to '"),
        };
        let text = match result {
            Ok(()) => cat3(done, file.as_str(), "'"),
            Err(e) => {
                let mut t = cat3(failed, file.as_str(), "': ");
                let d = e.debug_string();
                t.append(d.as_str());
                t
            },
        };
        QueryResult::new(text)
    }
}

impl View for CommandResult {
    type V = CommandResultView;

    open spec fn view(&self) -> CommandResultView {
        match self {
            CommandResult::Action(a) => CommandResultView::Action(a.events_view(), a.response_view()),
            CommandResult::Query(q) => CommandResultView::Query(q@),
            CommandResult::Unauthorized => CommandResultView::Unauthorized,
            CommandResult::Save(r) => CommandResultView::Save(r@),
        }
    }
}

pub enum CommandExecutionError {
    /// Command could not be executed due to an unrecoverable error.
    Unrecoverable(String),
}

impl View for CommandExecutionError {
    type V = Seq<char>;

    open spec fn view(&self) -> Seq<char> {
        match self {
            CommandExecutionError::Unrecoverable(s) => s@,
        }
    }
}

/// What a command handler returns, seen as values.
pub open spec fn outcome(r: Result<CommandResult, CommandExecutionError>) -> Result<CommandResultView, Seq<char>> {
    match r {
        Ok(c) => Ok(c@),
        Err(e) => Err(e@),
    }
}

/// The message of the unrecoverable error that a registry error becomes.
pub open spec fn registry_failure_text(e: EntityRegistryError) -> Seq<char> {
    "Entity registry error: "@ + registry_error_debug(e)
}

impl CommandExecutionError {
    /// The unrecoverable error that a registry error becomes.
    pub fn from_registry(e: EntityRegistryError) -> (r: CommandExecutionError)
        ensures
            r@ == registry_failure_text(e),
    {
        let d = e.debug_string();
        CommandExecutionError::Unrecoverable(cat2("Entity registry error: ", d.as_str()))
    }
}

/// The entity that a location component names.
pub open spec fn location_of(v: ComponentValue) -> EntityId {
    match v {
        ComponentValue::Location(l) => l,
        _ => EntityId { uuid: 0 },
    }
}

/// The text that a name or description component holds.
pub open spec fn text_of(v: ComponentValue) -> Seq<char> {
    match v {
        ComponentValue::Name(s) => s,
        ComponentValue::Description(s) => s,
        _ => seq![],
    }
}

/// Where the player is, or the error that asking for it gives.
pub open spec fn current_position(reg: &EntityRegistry, p: EntityId) -> Result<Location, Seq<char>> {
    if !reg.aliases().contains_key(p) {
        Err("Could not get current position of entity "@ + entity_debug(p))
    } else if !reg.table(ComponentKind::Location).contains_key(p) {
        Err("Entity "@ + entity_debug(p) + " has no position component"@)
    } else {
        Ok(Location { value: location_of(reg.table(ComponentKind::Location)[p]) })
    }
}

fn get_current_position(context: &SessionContext, entities: &EntityRegistry) -> (r: Result<Location, CommandExecutionError>)
    ensures
        match r {
            Ok(l) => current_position(entities, context.player_id) == Ok::<Location, Seq<char>>(l),
            Err(e) => current_position(entities, context.player_id) == Err::<Location, Seq<char>>(e@),
        },
{
    match entities.get_component::<Location>(&context.player_id) {
        Ok(Some(l)) => Ok(l),
        Ok(None) => {
            let d = context.player_id.debug_string();
            Err(CommandExecutionError::Unrecoverable(cat3("Entity ", d.as_str(), " has no position component")))
        },
        Err(_) => {
            let d = context.player_id.debug_string();
            Err(CommandExecutionError::Unrecoverable(cat2("Could not get current position of entity ", d.as_str())))
        },
    }
}

/// The player's name, or the error that asking for it gives.
pub open spec fn player_name(reg: &EntityRegistry, p: EntityId) -> Result<Seq<char>, Seq<char>> {
    if !reg.aliases().contains_key(p) {
        Err("Could not get name for entity: "@ + entity_debug(p))
    } else if !reg.table(ComponentKind::Name).contains_key(p) {
        Err("Entity "@ + entity_debug(p) + " had no Name component"@)
    } else {
        Ok(text_of(reg.table(ComponentKind::Name)[p]))
    }
}

fn get_player_name(context: &SessionContext, entities: &EntityRegistry) -> (r: Result<Name, CommandExecutionError>)
    ensures
        match r {
            Ok(n) => player_name(entities, context.player_id) == Ok::<Seq<char>, Seq<char>>(n@),
            Err(e) => player_name(entities, context.player_id) == Err::<Seq<char>, Seq<char>>(e@),
        },
{
    match entities.get_component::<Name>(&context.player_id) {
        Ok(Some(n)) => Ok(n),
        Ok(None) => {
            let d = context.player_id.debug_string();
            Err(CommandExecutionError::Unrecoverable(cat3("Entity ", d.as_str(), " had no Name component")))
        },
        Err(_) => {
            let d = context.player_id.debug_string();
            Err(CommandExecutionError::Unrecoverable(cat2("Could not get name for entity: ", d.as_str())))
        },
    }
}

/// A text, or the message of the error.
pub open spec fn text_result(r: Result<String, CommandExecutionError>) -> Result<Seq<char>, Seq<char>> {
    match r {
        Ok(s) => Ok(s@),
        Err(e) => Err(e@),
    }
}

/// The text describing a room: its name, its description, what is there and where one
/// can go from it.
pub open spec fn room_text(name: Seq<char>, desc: Seq<char>, here: Seq<Seq<char>>, exits: Seq<Direction>) -> Seq<char> {
    name + "\n\n"@ + desc + "\n\nHere is: "@ + (if here.len() == 0 {
        "nothing"@
    } else {
        seq_join(here, ", "@)
    }) + "\n\nFrom here you can go: "@ + seq_join(exits.map_values(|d: Direction| direction_name(d)), ", "@) + "\n"@
}

/// `names` lists the names of the named entities at `l` other than `p`, each entity once,
/// in some order.
pub open spec fn names_at(reg: &EntityRegistry, l: Location, p: EntityId, names: Seq<Seq<char>>) -> bool {
    exists|ids: Seq<EntityId>| names_of_listed(reg, l, p, ids, names)
}

/// `ids` are the named entities at `l` other than `p`, each once, and `names` are their names.
pub open spec fn names_of_listed(reg: &EntityRegistry, l: Location, p: EntityId, ids: Seq<EntityId>, names: Seq<Seq<char>>) -> bool {
    &&& ids.len() == names.len()
    &&& ids.no_duplicates()
    &&& forall|i: int| 0 <= i < ids.len() ==> reg.is_at(#[trigger] ids[i], l) && ids[i] != p
        && reg.table(ComponentKind::Name).contains_key(ids[i]) && text_of(reg.table(ComponentKind::Name)[ids[i]]) == names[i]
    &&& forall|e: EntityId| reg.is_at(e, l) && e != p && #[trigger] reg.table(ComponentKind::Name).contains_key(e) ==> ids.contains(e)
}

/// The text of a name or description component of `e`, or `default` when it has none.
pub open spec fn text_or(reg: &EntityRegistry, k: ComponentKind, e: EntityId, default: Seq<char>) -> Seq<char> {
    if reg.table(k).contains_key(e) {
        text_of(reg.table(k)[e])
    } else {
        default
    }
}

/// What describing room `id` to player `p` gives.
pub open spec fn room_description(reg: &EntityRegistry, graph: &RoomGraph, p: EntityId, id: RoomId, r: Result<Seq<char>, Seq<char>>) -> bool {
    if !graph@.contains_key(id) {
        r == Err::<Seq<char>, Seq<char>>("Could not retrieve room based on current room ID"@)
    } else if !reg.aliases().contains_key(id.entity) {
        r == Err::<Seq<char>, Seq<char>>(registry_failure_text(EntityRegistryError::UnknownEntity(id.entity)))
    } else {
        exists|here: Seq<Seq<char>>| names_at(reg, Location { value: id.entity }, p, here) && r == Ok::<Seq<char>, Seq<char>>(room_text(
            text_or(reg, ComponentKind::Name, id.entity, "Unnamed Room"@),
            text_or(reg, ComponentKind::Description, id.entity, "No Description"@),
            here,
            graph@[id].exit_list(),
        ))
    }
}

/// The names of the given directions.
fn direction_names(ds: &Vec<Direction>) -> (r: Vec<String>)
    ensures
        views(r@) == ds@.map_values(|d: Direction| direction_name(d)),
{
    let mut r: Vec<String> = Vec::new();
    let mut i: usize = 0;
    while i < ds.len()
        invariant
            i <= ds.len(),
            views(r@) == ds@.take(i as int).map_values(|d: Direction| direction_name(d)),
        decreases ds.len() - i,
    {
        let ghost prev = views(r@);
        r.push(ds[i].to_string());
        assert(views(r@) =~= prev.push(direction_name(ds@[i as int])));
        assert(ds@.take(i + 1) =~= ds@.take(i as int).push(ds@[i as int]));
        assert(views(r@) =~= ds@.take(i + 1).map_values(|d: Direction| direction_name(d)));
        i = i + 1;
    }
    assert(ds@.take(ds.len() as int) =~= ds@);
    r
}

/// The names of the named entities at `location`, leaving out the player.
fn names_here(context: &SessionContext, entities: &EntityRegistry, location: &Location) -> (r: Vec<String>)
    ensures
        names_at(entities, *location, context.player_id, views(r@)),
{
    let here = entities.query_location::<Name>(location);
    let mut names: Vec<String> = Vec::new();
    let ghost mut ids: Seq<EntityId> = seq![];
    let ghost mut src: Seq<int> = seq![];
    let ghost keep = |e: EntityId| entities.is_at(e, *location);
    let mut i: usize = 0;
    while i < here.len()
        invariant
            i <= here.len(),
            lists(here@, entities.table(ComponentKind::Name), keep),
            keep == (|e: EntityId| entities.is_at(e, *location)),
            ids.len() == views(names@).len(),
            src.len() == ids.len(),
            forall|k: int| 0 <= k < ids.len() ==> 0 <= #[trigger] src[k] < i && ids[k] == here@[src[k]].0,
            forall|k: int, l: int| 0 <= k < l < ids.len() ==> src[k] < src[l],
            forall|k: int| 0 <= k < ids.len() ==> entities.is_at(#[trigger] ids[k], *location) && ids[k] != context.player_id
                && entities.table(ComponentKind::Name).contains_key(ids[k])
                && text_of(entities.table(ComponentKind::Name)[ids[k]]) == views(names@)[k],
            forall|j: int| 0 <= j < i && #[trigger] here@[j].0 != context.player_id ==> ids.contains(here@[j].0),
        decreases here.len() - i,
    {
        let (e, n) = (here[i].0, &here[i].1);
        let ghost prev_ids = ids;
        if e != context.player_id {
            let ghost prev = views(names@);
            names.push(n.to_string());
            proof {
                assert(views(names@) =~= prev.push(n@));
                ids = ids.push(e);
                src = src.push(i as int);
                assert(ids[ids.len() - 1] == e);
            }
        }
        proof {
            assert forall|j: int| 0 <= j < i + 1 && #[trigger] here@[j].0 != context.player_id implies ids.contains(here@[j].0) by {
                if j < i {
                    let k = choose|k: int| 0 <= k < prev_ids.len() && prev_ids[k] == here@[j].0;
                    assert(ids[k] == prev_ids[k]);
                } else {
                    assert(ids[ids.len() - 1] == e);
                }
            }
        }
        i = i + 1;
    }
    proof {
        assert(ids.no_duplicates()) by {
            assert forall|k: int, l: int| 0 <= k < ids.len() && 0 <= l < ids.len() && k != l implies ids[k] != ids[l] by {
                assert(src[k] != src[l]);
            }
        }
        assert forall|e: EntityId| entities.is_at(e, *location) && e != context.player_id
            && #[trigger] entities.table(ComponentKind::Name).contains_key(e) implies ids.contains(e) by {
            let j = choose|j: int| 0 <= j < here@.len() && here@[j].0 == e;
        }
        assert(names_of_listed(entities, *location, context.player_id, ids, views(names@)));
    }
    names
}

fn get_room_description(context: &SessionContext, entities: &EntityRegistry, rooms: &RoomGraph, id: &RoomId) -> (r: Result<String, CommandExecutionError>)
    ensures
        room_description(entities, rooms, context.player_id, *id, text_result(r)),
{
    let current_room = match rooms.get_room(id) {
        Some(room) => room,
        None => {
            return Err(CommandExecutionError::Unrecoverable(owned("Could not retrieve room based on current room ID")));
        },
    };
    let room = id.as_entity();
    let room_name = match entities.get_component::<Name>(&room) {
        Ok(Some(n)) => n,
        Ok(None) => Name::new("Unnamed Room"),
        Err(e) => {
            return Err(CommandExecutionError::from_registry(e));
        },
    };
    let room_desc = match entities.get_component::<Description>(&room) {
        Ok(Some(d)) => d,
        Ok(None) => Description::new("No Description"),
        Err(e) => {
            return Err(CommandExecutionError::from_registry(e));
        },
    };
    let exit_names = direction_names(&current_room.exits());
    let exits = join(&exit_names, ", ");
    let names = names_here(context, entities, &Location { value: room });
    let here = if names.len() == 0 {
        owned("nothing")
    } else {
        join(&names, ", ")
    };
    let mut response = room_name.to_string();
    response.append("\n\n");
    response.append(room_desc.text.as_str());
    response.append("\n\nHere is: ");
    response.append(here.as_str());
    response.append("\n\nFrom here you can go: ");
    response.append(exits.as_str());
    response.append("\n");
    Ok(response)
}

/// A query outcome (or an error) with exactly the text of `r`.
pub open spec fn answers(o: Result<CommandResultView, Seq<char>>, r: Result<Seq<char>, Seq<char>>) -> bool {
    match r {
        Ok(s) => o == Ok::<CommandResultView, Seq<char>>(CommandResultView::Query(s)),
        Err(m) => o == Err::<CommandResultView, Seq<char>>(m),
    }
}

/// The registries hold the same entities, aliases, components and change records.
pub open spec fn unchanged(new: &EntityRegistry, old: &EntityRegistry) -> bool {
    &&& new.aliases() == old.aliases()
    &&& new.alias_index() == old.alias_index()
    &&& forall|k: ComponentKind| #[trigger] new.table(k) == old.table(k)
    &&& forall|k: ComponentKind| #[trigger] new.dirty_ids(k) == old.dirty_ids(k)
}

/// `new` is `old` with the component of kind `k` of `e` set to `v`, and that change recorded.
pub open spec fn component_set(new: &EntityRegistry, old: &EntityRegistry, k: ComponentKind, e: EntityId, v: ComponentValue) -> bool {
    &&& new.aliases() == old.aliases()
    &&& new.alias_index() == old.alias_index()
    &&& new.table(k) == old.table(k).insert(e, v)
    &&& forall|j: ComponentKind| j != k ==> #[trigger] new.table(j) == old.table(j)
    &&& new.dirty_ids(k) == old.dirty_ids(k).insert(e)
    &&& forall|j: ComponentKind| j != k ==> #[trigger] new.dirty_ids(j) == old.dirty_ids(j)
}

pub open spec fn message_event(target: EventTarget, text: Seq<char>) -> EventView {
    EventView { target, event: GameEventView::Message(text) }
}

/// `look`: the description of the player's room.
pub open spec fn look_outcome(reg: &EntityRegistry, graph: &RoomGraph, p: EntityId, o: Result<CommandResultView, Seq<char>>) -> bool {
    match current_position(reg, p) {
        Err(m) => o == Err::<CommandResultView, Seq<char>>(m),
        Ok(l) => exists|r: Result<Seq<char>, Seq<char>>| room_description(reg, graph, p, RoomId { entity: l.value }, r) && answers(o, r),
    }
}

fn handle_look(context: &SessionContext, entities: &EntityRegistry, rooms: &RoomGraph) -> (r: Result<CommandResult, CommandExecutionError>)
    ensures
        look_outcome(entities, rooms, context.player_id, outcome(r)),
{
    let position = get_current_position(context, entities)?;
    let description = get_room_description(context, entities, rooms, &RoomId::from_entity(position.value));
    let ghost d = text_result(description);
    let r = match description {
        Ok(response) => Ok(CommandResult::Query(QueryResult::new(response))),
        Err(e) => Err(e),
    };
    assert(answers(outcome(r), d));
    r
}

/// `go`: moving the player through an exit of the room, then describing the new room.
pub open spec fn go_outcome(
    old_reg: &EntityRegistry,
    reg: &EntityRegistry,
    graph: &RoomGraph,
    p: EntityId,
    d: Direction,
    o: Result<CommandResultView, Seq<char>>,
) -> bool {
    match current_position(old_reg, p) {
        Err(m) => o == Err::<CommandResultView, Seq<char>>(m) && unchanged(reg, old_reg),
        Ok(l) => {
            let cur = RoomId { entity: l.value };
            if !graph@.contains_key(cur) {
                o == Err::<CommandResultView, Seq<char>>("Could not retrieve room based on current room ID"@) && unchanged(reg, old_reg)
            } else if !graph@[cur]@.contains_key(d) {
                o == Ok::<CommandResultView, Seq<char>>(CommandResultView::Query("You cannot go "@ + direction_name(d) + " from here."@))
                    && unchanged(reg, old_reg)
            } else {
                let dest = graph@[cur]@[d];
                &&& component_set(reg, old_reg, ComponentKind::Location, p, ComponentValue::Location(dest.entity))
                &&& exists|r: Result<Seq<char>, Seq<char>>| room_description(reg, graph, p, dest, r) && match r {
                    Ok(t) => o == Ok::<CommandResultView, Seq<char>>(CommandResultView::Action(
                        seq![],
                        Some("You go "@ + direction_name(d) + ".\n\n"@ + t),
                    )),
                    Err(m) => o == Err::<CommandResultView, Seq<char>>(m),
                }
            }
        },
    }
}

fn handle_go(context: &SessionContext, entities: &mut EntityRegistry, rooms: &RoomGraph, direction: Direction) -> (r: Result<CommandResult, CommandExecutionError>)
    ensures
        go_outcome(old(entities), final(entities), rooms, context.player_id, direction, outcome(r)),
{
    let location = get_current_position(context, entities)?;
    let current_room_id = RoomId::from_entity(location.value);
    let current_room = match rooms.get_room(&current_room_id) {
        Some(room) => room,
        None => {
            return Err(CommandExecutionError::Unrecoverable(owned("Could not retrieve room based on current room ID")));
        },
    };
    let destination_room_id = match current_room.get_destination(direction) {
        Some(id) => id,
        None => {
            return Ok(CommandResult::Query(QueryResult::new(cat3("You cannot go ", direction.name(), " from here."))));
        },
    };
    let new_position = Location { value: destination_room_id.as_entity() };
    match entities.update_component(&context.player_id, new_position) {
        Ok(()) => {},
        Err(_) => {
            let d = context.player_id.debug_string();
            return Err(CommandExecutionError::Unrecoverable(cat3("Could not update position of entity '", d.as_str(), "'")));
        },
    }
    let description = get_room_description(context, entities, rooms, &destination_room_id);
    let ghost rd = text_result(description);
    match description {
        Ok(text) => {
            let mut response = cat3("You go ", direction.name(), ".\n\n");
            response.append(text.as_str());
            let result = ActionResult { events: Vec::new(), response: Some(response) };
            assert(result.events_view() =~= Seq::<EventView>::empty());
            let r = Ok(CommandResult::Action(result));
            assert(room_description(entities, rooms, context.player_id, destination_room_id, rd));
            r
        },
        Err(e) => Err(e),
    }
}

/// `say`: the sentence goes to everyone else in the room.
pub open spec fn say_outcome(reg: &EntityRegistry, p: EntityId, sentence: Seq<char>, o: Result<CommandResultView, Seq<char>>) -> bool {
    match player_name(reg, p) {
        Err(m) => o == Err::<CommandResultView, Seq<char>>(m),
        Ok(n) => match current_position(reg, p) {
            Err(m) => o == Err::<CommandResultView, Seq<char>>(m),
            Ok(l) => o == Ok::<CommandResultView, Seq<char>>(CommandResultView::Action(
                seq![message_event(EventTarget::LocationExcept(l, p), n + " says: "@ + sentence)],
                Some("You say: "@ + sentence),
            )),
        },
    }
}

fn handle_say(context: &SessionContext, entities: &EntityRegistry, sentence: &str) -> (r: Result<CommandResult, CommandExecutionError>)
    ensures
        say_outcome(entities, context.player_id, sentence@, outcome(r)),
{
    let name = get_player_name(context, entities)?;
    let position = get_current_position(context, entities)?;
    let message = cat3(name.as_str(), " says: ", sentence);
    let mut events: Vec<Event> = Vec::new();
    events.push(Event {
        target: EventTarget::LocationExcept(position, context.player_id),
        event: GameEvent::Message(message),
    });
    let result = ActionResult { events, response: Some(cat2("You say: ", sentence)) };
    proof {
        assert(result.events_view() =~= seq![message_event(EventTarget::LocationExcept(position, context.player_id), name@ + " says: "@ + sentence@)]);
    }
    Ok(CommandResult::Action(result))
}

/// `quit`: the session ends with a farewell.
pub open spec fn quit_outcome(reg: &EntityRegistry, p: EntityId, o: Result<CommandResultView, Seq<char>>) -> bool {
    match player_name(reg, p) {
        Err(m) => o == Err::<CommandResultView, Seq<char>>(m),
        Ok(n) => o == Ok::<CommandResultView, Seq<char>>(CommandResultView::Action(
            seq![EventView { target: EventTarget::Entity(p), event: GameEventView::SessionEnded }],
            Some("Goodbye "@ + n + "!"@),
        )),
    }
}

fn handle_quit(context: &SessionContext, entities: &EntityRegistry) -> (r: Result<CommandResult, CommandExecutionError>)
    ensures
        quit_outcome(entities, context.player_id, outcome(r)),
{
    let name = get_player_name(context, entities)?;
    let mut events: Vec<Event> = Vec::new();
    events.push(Event { event: GameEvent::SessionEnded, target: EventTarget::Entity(context.player_id) });
    let result = ActionResult { events, response: Some(cat3("Goodbye ", name.as_str(), "!")) };
    proof {
        assert(result.events_view() =~= seq![EventView { target: EventTarget::Entity(context.player_id), event: GameEventView::SessionEnded }]);
    }
    Ok(CommandResult::Action(result))
}

/// Every keyword occurs in the lower-cased name.
pub open spec fn name_matches(name: Seq<char>, keywords: Seq<Seq<char>>) -> bool {
    forall|i: int| 0 <= i < keywords.len() ==> seq_contains(lowercase(name), #[trigger] keywords[i])
}

/// `ids` are, each once and in some order, the named entities at `l` whose name matches
/// all the keywords.
pub open spec fn matching_at(reg: &EntityRegistry, l: Location, keywords: Seq<Seq<char>>, ids: Seq<EntityId>) -> bool {
    &&& ids.no_duplicates()
    &&& forall|i: int| 0 <= i < ids.len() ==> reg.is_at(#[trigger] ids[i], l)
        && reg.table(ComponentKind::Name).contains_key(ids[i])
        && name_matches(text_of(reg.table(ComponentKind::Name)[ids[i]]), keywords)
    &&& forall|e: EntityId| reg.is_at(e, l) && #[trigger] reg.table(ComponentKind::Name).contains_key(e)
        && name_matches(text_of(reg.table(ComponentKind::Name)[e]), keywords) ==> ids.contains(e)
}

/// Whether the lower-cased `name` contains every keyword.
fn matches_keywords(name: &Name, keywords: &Keywords) -> (r: bool)
    ensures
        r == name_matches(name@, keywords@),
{
    let lower = to_lowercase(name.as_str());
    let mut i: usize = 0;
    while i < keywords.0.len()
        invariant
            i <= keywords.0.len(),
            lower@ == lowercase(name@),
            forall|j: int| 0 <= j < i ==> seq_contains(lowercase(name@), #[trigger] keywords@[j]),
        decreases keywords.0.len() - i,
    {
        assert(keywords@[i as int] == keywords.0@[i as int]@);
        if !contains(lower.as_str(), keywords.0[i].as_str()) {
            return false;
        }
        i = i + 1;
    }
    true
}

/// The named entities at `location` whose name matches all the keywords.
fn resolve_entities_in_location(entities: &EntityRegistry, location: &Location, keywords: &Keywords) -> (r: Vec<EntityId>)
    ensures
        matching_at(entities, *location, keywords@, r@),
{
    let here = entities.query_location::<Name>(location);
    let mut ids: Vec<EntityId> = Vec::new();
    let ghost mut src: Seq<int> = seq![];
    let mut i: usize = 0;
    while i < here.len()
        invariant
            i <= here.len(),
            lists(here@, entities.table(ComponentKind::Name), |e: EntityId| entities.is_at(e, *location)),
            src.len() == ids@.len(),
            forall|k: int| 0 <= k < ids@.len() ==> 0 <= #[trigger] src[k] < i && ids@[k] == here@[src[k]].0,
            forall|k: int, l: int| 0 <= k < l < ids@.len() ==> src[k] < src[l],
            forall|k: int| 0 <= k < ids@.len() ==> entities.is_at(#[trigger] ids@[k], *location)
                && entities.table(ComponentKind::Name).contains_key(ids@[k])
                && name_matches(text_of(entities.table(ComponentKind::Name)[ids@[k]]), keywords@),
            forall|j: int| 0 <= j < i && name_matches(text_of(entities.table(ComponentKind::Name)[#[trigger] here@[j].0]), keywords@)
                ==> ids@.contains(here@[j].0),
        decreases here.len() - i,
    {
        let e = here[i].0;
        let ghost prev = ids@;
        if matches_keywords(&here[i].1, keywords) {
            ids.push(e);
            proof {
                src = src.push(i as int);
                assert(ids@[ids@.len() - 1] == e);
            }
        }
        proof {
            assert forall|j: int| 0 <= j < i + 1 && name_matches(text_of(entities.table(ComponentKind::Name)[#[trigger] here@[j].0]), keywords@)
                implies ids@.contains(here@[j].0) by {
                if j < i {
                    let k = choose|k: int| 0 <= k < prev.len() && prev[k] == here@[j].0;
                    assert(ids@[k] == prev[k]);
                } else {
                    assert(ids@[ids@.len() - 1] == e);
                }
            }
        }
        i = i + 1;
    }
    proof {
        assert forall|k: int, l: int| 0 <= k < ids@.len() && 0 <= l < ids@.len() && k != l implies ids@[k] != ids@[l] by {
            assert(src[k] != src[l]);
        }
        assert forall|e: EntityId| entities.is_at(e, *location) && #[trigger] entities.table(ComponentKind::Name).contains_key(e)
            && name_matches(text_of(entities.table(ComponentKind::Name)[e]), keywords@) implies ids@.contains(e) by {
            let j = choose|j: int| 0 <= j < here@.len() && here@[j].0 == e;
        }
    }
    ids
}

/// The name of an entity, or the error that asking for it gives.
pub open spec fn entity_name(reg: &EntityRegistry, e: EntityId) -> Result<Seq<char>, Seq<char>> {
    if !reg.aliases().contains_key(e) {
        Err(registry_failure_text(EntityRegistryError::UnknownEntity(e)))
    } else if !reg.table(ComponentKind::Name).contains_key(e) {
        Err("Entity "@ + uuid_text(e.uuid) + " has no name (error in name resolution)."@)
    } else {
        Ok(text_of(reg.table(ComponentKind::Name)[e]))
    }
}

fn get_entity_name(entities: &EntityRegistry, entity: &EntityId) -> (r: Result<Name, CommandExecutionError>)
    ensures
        match r {
            Ok(n) => entity_name(entities, *entity) == Ok::<Seq<char>, Seq<char>>(n@),
            Err(e) => entity_name(entities, *entity) == Err::<Seq<char>, Seq<char>>(e@),
        },
{
    match entities.get_component::<Name>(entity) {
        Ok(Some(n)) => Ok(n),
        Ok(None) => {
            let id = entity.to_string();
            Err(CommandExecutionError::Unrecoverable(cat3("Entity ", id.as_str(), " has no name (error in name resolution).")))
        },
        Err(e) => Err(CommandExecutionError::from_registry(e)),
    }
}

pub open spec fn query_outcome(text: Seq<char>) -> Result<CommandResultView, Seq<char>> {
    Ok(CommandResultView::Query(text))
}

/// After `take` or `drop` moved an item: the message to the others in the player's room
/// and the answer to the player, or the error that looking up the player gives.
pub open spec fn carried_outcome(reg: &EntityRegistry, p: EntityId, item: Seq<char>, verb: Seq<char>, answer: Seq<char>, o: Result<CommandResultView, Seq<char>>) -> bool {
    match player_name(reg, p) {
        Err(m) => o == Err::<CommandResultView, Seq<char>>(m),
        Ok(n) => match current_position(reg, p) {
            Err(m) => o == Err::<CommandResultView, Seq<char>>(m),
            Ok(pl) => o == Ok::<CommandResultView, Seq<char>>(CommandResultView::Action(
                seq![message_event(EventTarget::LocationExcept(pl, p), n + " "@ + verb + " '"@ + item + "'."@)],
                Some(answer + " '"@ + item + "'"@),
            )),
        },
    }
}

/// `take`: the one named entity in the room that matches the keywords, if it is an item,
/// moves into the player's inventory.
pub open spec fn take_outcome(old_reg: &EntityRegistry, reg: &EntityRegistry, p: EntityId, keywords: Seq<Seq<char>>, o: Result<CommandResultView, Seq<char>>) -> bool {
    match current_position(old_reg, p) {
        Err(m) => o == Err::<CommandResultView, Seq<char>>(m) && unchanged(reg, old_reg),
        Ok(l) => take_from(old_reg, reg, p, l, keywords, o),
    }
}

/// `take` for a player standing at `l`.
pub open spec fn take_from(old_reg: &EntityRegistry, reg: &EntityRegistry, p: EntityId, l: Location, keywords: Seq<Seq<char>>, o: Result<CommandResultView, Seq<char>>) -> bool {
    let kw = seq_join(keywords, " "@);
    exists|ids: Seq<EntityId>| #[trigger] matching_at(old_reg, l, keywords, ids) && if ids.len() == 0 {
        o == query_outcome("There is no '"@ + kw + "' here."@) && unchanged(reg, old_reg)
    } else if ids.len() > 1 {
        o == query_outcome("Which '"@ + kw + "'?"@) && unchanged(reg, old_reg)
    } else {
        match entity_name(old_reg, ids[0]) {
            Err(m) => o == Err::<CommandResultView, Seq<char>>(m) && unchanged(reg, old_reg),
            Ok(item) => if !old_reg.table(ComponentKind::Item).contains_key(ids[0]) {
                o == query_outcome("You can't take '"@ + item + "'!"@) && unchanged(reg, old_reg)
            } else {
                &&& component_set(reg, old_reg, ComponentKind::Location, ids[0], ComponentValue::Location(p))
                &&& carried_outcome(reg, p, item, "picked up"@, "You took"@, o)
            },
        }
    }
}

/// After the item was moved: the action that tells about it.
fn carried(context: &SessionContext, entities: &EntityRegistry, item_name: &Name, verb: &str, answer: &str) -> (r: Result<CommandResult, CommandExecutionError>)
    ensures
        carried_outcome(entities, context.player_id, item_name@, verb@, answer@, outcome(r)),
{
    let player_name = get_player_name(context, entities)?;
    let player_location = get_current_position(context, entities)?;
    let mut message = cat3(player_name.as_str(), " ", verb);
    message.append(" '");
    message.append(item_name.as_str());
    message.append("'.");
    let mut events: Vec<Event> = Vec::new();
    events.push(Event {
        target: EventTarget::LocationExcept(player_location, context.player_id),
        event: GameEvent::Message(message),
    });
    let mut response = cat3(answer, " '", item_name.as_str());
    response.append("'");
    let action = ActionResult { events, response: Some(response) };
    proof {
        assert(action.events_view() =~= seq![message_event(
            EventTarget::LocationExcept(player_location, context.player_id),
            player_name@ + " "@ + verb@ + " '"@ + item_name@ + "'."@,
        )]);
    }
    Ok(CommandResult::Action(action))
}

fn handle_take(context: &SessionContext, entities: &mut EntityRegistry, keywords: Keywords) -> (r: Result<CommandResult, CommandExecutionError>)
    ensures
        take_outcome(old(entities), final(entities), context.player_id, keywords@, outcome(r)),
{
    let location = get_current_position(context, entities)?;
    let matching = resolve_entities_in_location(entities, &location, &keywords);
    let ghost ids = matching@;
    if matching.len() == 0 {
        let kw = keywords.to_string();
        let r = Ok(CommandResult::Query(QueryResult::new(cat3("There is no '", kw.as_str(), "' here."))));
        assert(matching_at(old(entities), location, keywords@, ids));
        assert(take_from(old(entities), entities, context.player_id, location, keywords@, outcome(r)));
        return r;
    }
    if matching.len() > 1 {
        let kw = keywords.to_string();
        let r = Ok(CommandResult::Query(QueryResult::new(cat3("Which '", kw.as_str(), "'?"))));
        assert(matching_at(old(entities), location, keywords@, ids));
        return r;
    }
    let target = matching[0];
    let item_name = match get_entity_name(entities, &target) {
        Ok(n) => n,
        Err(e) => {
            assert(matching_at(old(entities), location, keywords@, ids));
            return Err(e);
        },
    };
    let is_item = match entities.get_component::<Item>(&target) {
        Ok(c) => c.is_some(),
        Err(e) => {
            return Err(CommandExecutionError::from_registry(e));
        },
    };
    if !is_item {
        let r = Ok(CommandResult::Query(QueryResult::new(cat3("You can't take '", item_name.as_str(), "'!"))));
        assert(matching_at(old(entities), location, keywords@, ids));
        return r;
    }
    let new_location = Location::new(context.player_id);
    match entities.update_component::<Location>(&target, new_location) {
        Ok(()) => {},
        Err(e) => {
            return Err(CommandExecutionError::from_registry(e));
        },
    }
    let r = carried(context, entities, &item_name, "picked up", "You took");
    assert(matching_at(old(entities), location, keywords@, ids));
    r
}

/// `drop`: the one named entity in the inventory that matches the keywords, if it is an
/// item, moves into the player's room.
pub open spec fn drop_outcome(old_reg: &EntityRegistry, reg: &EntityRegistry, p: EntityId, keywords: Seq<Seq<char>>, o: Result<CommandResultView, Seq<char>>) -> bool {
    let kw = seq_join(keywords, " "@);
    exists|ids: Seq<EntityId>| #[trigger] matching_at(old_reg, Location { value: p }, keywords, ids) && if ids.len() == 0 {
        o == query_outcome("There is no '"@ + kw + "' in your inventory."@) && unchanged(reg, old_reg)
    } else if ids.len() > 1 {
        o == query_outcome("Which '"@ + kw + "'?"@) && unchanged(reg, old_reg)
    } else {
        match entity_name(old_reg, ids[0]) {
            Err(m) => o == Err::<CommandResultView, Seq<char>>(m) && unchanged(reg, old_reg),
            Ok(item) => if !old_reg.table(ComponentKind::Item).contains_key(ids[0]) {
                o == query_outcome("You can't drop '"@ + item + "'!"@) && unchanged(reg, old_reg)
            } else {
                match current_position(old_reg, p) {
                    Err(m) => o == Err::<CommandResultView, Seq<char>>(m) && unchanged(reg, old_reg),
                    Ok(l) => {
                        &&& component_set(reg, old_reg, ComponentKind::Location, ids[0], ComponentValue::Location(l.value))
                        &&& carried_outcome(reg, p, item, "dropped"@, "You dropped"@, o)
                    },
                }
            },
        }
    }
}

fn handle_drop(context: &SessionContext, entities: &mut EntityRegistry, keywords: Keywords) -> (r: Result<CommandResult, CommandExecutionError>)
    ensures
        drop_outcome(old(entities), final(entities), context.player_id, keywords@, outcome(r)),
{
    let inventory = Location::new(context.player_id);
    let matching = resolve_entities_in_location(entities, &inventory, &keywords);
    let ghost ids = matching@;
    if matching.len() == 0 {
        let kw = keywords.to_string();
        let r = Ok(CommandResult::Query(QueryResult::new(cat3("There is no '", kw.as_str(), "' in your inventory."))));
        assert(matching_at(old(entities), inventory, keywords@, ids));
        return r;
    }
    if matching.len() > 1 {
        let kw = keywords.to_string();
        let r = Ok(CommandResult::Query(QueryResult::new(cat3("Which '", kw.as_str(), "'?"))));
        assert(matching_at(old(entities), inventory, keywords@, ids));
        return r;
    }
    let target = matching[0];
    let item_name = match get_entity_name(entities, &target) {
        Ok(n) => n,
        Err(e) => {
            assert(matching_at(old(entities), inventory, keywords@, ids));
            return Err(e);
        },
    };
    let is_item = match entities.get_component::<Item>(&target) {
        Ok(c) => c.is_some(),
        Err(e) => {
            return Err(CommandExecutionError::from_registry(e));
        },
    };
    if !is_item {
        let r = Ok(CommandResult::Query(QueryResult::new(cat3("You can't drop '", item_name.as_str(), "'!"))));
        assert(matching_at(old(entities), inventory, keywords@, ids));
        return r;
    }
    let new_location = match get_current_position(context, entities) {
        Ok(l) => l,
        Err(e) => {
            assert(matching_at(old(entities), inventory, keywords@, ids));
            return Err(e);
        },
    };
    match entities.update_component::<Location>(&target, new_location) {
        Ok(()) => {},
        Err(e) => {
            return Err(CommandExecutionError::from_registry(e));
        },
    }
    let r = carried(context, entities, &item_name, "dropped", "You dropped");
    assert(matching_at(old(entities), inventory, keywords@, ids));
    r
}

/// Each name with four spaces in front.
pub open spec fn indented(names: Seq<Seq<char>>) -> Seq<Seq<char>> {
    names.map_values(|n: Seq<char>| "    "@ + n)
}

/// `ids` are, each once and in some order, the items with a name that the player carries,
/// and `names` are their names.
pub open spec fn carried_listed(reg: &EntityRegistry, p: EntityId, ids: Seq<EntityId>, names: Seq<Seq<char>>) -> bool {
    &&& ids.len() == names.len()
    &&& ids.no_duplicates()
    &&& forall|i: int| 0 <= i < ids.len() ==> reg.is_at(#[trigger] ids[i], Location { value: p })
        && reg.table(ComponentKind::Item).contains_key(ids[i])
        && reg.table(ComponentKind::Name).contains_key(ids[i])
        && text_of(reg.table(ComponentKind::Name)[ids[i]]) == names[i]
    &&& forall|e: EntityId| reg.is_at(e, Location { value: p }) && reg.table(ComponentKind::Item).contains_key(e)
        && #[trigger] reg.table(ComponentKind::Name).contains_key(e) ==> ids.contains(e)
}

/// The answer to `inventory` for the given item names.
pub open spec fn inventory_text(names: Seq<Seq<char>>) -> Seq<char> {
    if names.len() == 0 {
        "You aren't carrying anything."@
    } else {
        "You are carrying:\n"@ + seq_join(indented(names), "\n"@)
    }
}

/// `inventory`: the names of the items the player carries, one per line.
pub open spec fn inventory_outcome(reg: &EntityRegistry, p: EntityId, o: Result<CommandResultView, Seq<char>>) -> bool {
    exists|ids: Seq<EntityId>, names: Seq<Seq<char>>| #[trigger] carried_listed(reg, p, ids, names) && o == query_outcome(inventory_text(names))
}

/// Four spaces and then the name of each row.
fn indent_rows<T: ComponentStorage>(rows: &Vec<(EntityId, (T, Name))>) -> (r: Vec<String>)
    ensures
        views(r@) == indented(rows@.map_values(|x: (EntityId, (T, Name))| x.1.1@)),
{
    let ghost names = rows@.map_values(|x: (EntityId, (T, Name))| x.1.1@);
    let mut lines: Vec<String> = Vec::new();
    let mut i: usize = 0;
    while i < rows.len()
        invariant
            i <= rows.len(),
            names == rows@.map_values(|x: (EntityId, (T, Name))| x.1.1@),
            views(lines@) == indented(names.take(i as int)),
        decreases rows.len() - i,
    {
        let ghost prev = views(lines@);
        lines.push(cat2("    ", rows[i].1.1.as_str()));
        assert(views(lines@) =~= prev.push("    "@ + names[i as int]));
        assert(indented(names.take(i + 1)) =~= indented(names.take(i as int)).push("    "@ + names[i as int]));
        i = i + 1;
    }
    assert(names.take(rows.len() as int) =~= names);
    lines
}

fn handle_inventory(context: &SessionContext, entities: &EntityRegistry) -> (r: Result<CommandResult, CommandExecutionError>)
    ensures
        inventory_outcome(entities, context.player_id, outcome(r)),
{
    let location = Location::new(context.player_id);
    let rows = entities.query2_location::<Item, Name>(&location);
    let lines = indent_rows(&rows);
    let response = if lines.len() == 0 {
        owned("You aren't carrying anything.")
    } else {
        let list = join(&lines, "\n");
        cat2("You are carrying:\n", list.as_str())
    };
    let ghost ids = rows@.map_values(|x: (EntityId, (Item, Name))| x.0);
    let ghost names = rows@.map_values(|x: (EntityId, (Item, Name))| x.1.1@);
    proof {
        assert forall|e: EntityId| entities.is_at(e, Location { value: context.player_id })
            && entities.table(ComponentKind::Item).contains_key(e)
            && #[trigger] entities.table(ComponentKind::Name).contains_key(e) implies ids.contains(e) by {
            let i = choose|i: int| 0 <= i < rows@.len() && rows@[i].0 == e;
            assert(ids[i] == e);
        }
        assert(carried_listed(entities, context.player_id, ids, names));
    }
    Ok(CommandResult::Query(QueryResult::new(response)))
}

/// `ids` are, each once and in some order, the named players other than `p`, and `names`
/// are their names.
pub open spec fn others_listed(reg: &EntityRegistry, p: EntityId, ids: Seq<EntityId>, names: Seq<Seq<char>>) -> bool {
    &&& ids.len() == names.len()
    &&& ids.no_duplicates()
    &&& forall|i: int| 0 <= i < ids.len() ==> #[trigger] ids[i] != p
        && reg.table(ComponentKind::Player).contains_key(ids[i])
        && reg.table(ComponentKind::Name).contains_key(ids[i])
        && text_of(reg.table(ComponentKind::Name)[ids[i]]) == names[i]
    &&& forall|e: EntityId| e != p && reg.table(ComponentKind::Player).contains_key(e)
        && #[trigger] reg.table(ComponentKind::Name).contains_key(e) ==> ids.contains(e)
}

/// The answer to `who` for the given player names: one indented line per name, in
/// lexicographic order.
pub open spec fn who_text(names: Seq<Seq<char>>) -> Seq<char> {
    if names.len() == 0 {
        "No other players online."@
    } else {
        "Online:\n"@ + seq_join(indented(names).sort_by(text_order()), "\n"@)
    }
}

/// `who`: the names of the other players.
pub open spec fn who_outcome(reg: &EntityRegistry, p: EntityId, o: Result<CommandResultView, Seq<char>>) -> bool {
    exists|ids: Seq<EntityId>, names: Seq<Seq<char>>| #[trigger] others_listed(reg, p, ids, names) && o == query_outcome(who_text(names))
}

fn handle_who(context: &SessionContext, entities: &EntityRegistry) -> (r: Result<CommandResult, CommandExecutionError>)
    ensures
        who_outcome(entities, context.player_id, outcome(r)),
{
    let online = entities.query2::<Player, Name>();
    let mut lines: Vec<String> = Vec::new();
    let ghost mut ids: Seq<EntityId> = seq![];
    let ghost mut names: Seq<Seq<char>> = seq![];
    let ghost mut src: Seq<int> = seq![];
    let mut i: usize = 0;
    while i < online.len()
        invariant
            i <= online.len(),
            lists2(online@, entities.table(ComponentKind::Player), entities.table(ComponentKind::Name), |e: EntityId| true),
            ids.len() == names.len(),
            src.len() == ids.len(),
            views(lines@) == indented(names),
            forall|k: int| 0 <= k < ids.len() ==> 0 <= #[trigger] src[k] < i && ids[k] == online@[src[k]].0,
            forall|k: int, l: int| 0 <= k < l < ids.len() ==> src[k] < src[l],
            forall|k: int| 0 <= k < ids.len() ==> #[trigger] ids[k] != context.player_id
                && entities.table(ComponentKind::Player).contains_key(ids[k])
                && entities.table(ComponentKind::Name).contains_key(ids[k])
                && text_of(entities.table(ComponentKind::Name)[ids[k]]) == names[k],
            forall|j: int| 0 <= j < i && #[trigger] online@[j].0 != context.player_id ==> ids.contains(online@[j].0),
        decreases online.len() - i,
    {
        let e = online[i].0;
        let ghost prev_ids = ids;
        if e != context.player_id {
            let ghost prev = views(lines@);
            let ghost n = online@[i as int].1.1@;
            lines.push(cat2("    ", online[i].1.1.as_str()));
            proof {
                let prev_names = names;
                ids = ids.push(e);
                names = names.push(n);
                src = src.push(i as int);
                assert(views(lines@) =~= prev.push("    "@ + n));
                assert(indented(names) =~= indented(prev_names).push("    "@ + n));
                assert(ids[ids.len() - 1] == e);
            }
        }
        proof {
            assert forall|j: int| 0 <= j < i + 1 && #[trigger] online@[j].0 != context.player_id implies ids.contains(online@[j].0) by {
                if j < i {
                    let k = choose|k: int| 0 <= k < prev_ids.len() && prev_ids[k] == online@[j].0;
                    assert(ids[k] == prev_ids[k]);
                } else {
                    assert(ids[ids.len() - 1] == e);
                }
            }
        }
        i = i + 1;
    }
    let sorted = sort_texts(lines);
    let response = if sorted.len() == 0 {
        owned("No other players online.")
    } else {
        let list = join(&sorted, "\n");
        cat2("Online:\n", list.as_str())
    };
    proof {
        assert(ids.no_duplicates()) by {
            assert forall|k: int, l: int| 0 <= k < ids.len() && 0 <= l < ids.len() && k != l implies ids[k] != ids[l] by {
                assert(src[k] != src[l]);
            }
        }
        assert forall|e: EntityId| e != context.player_id && entities.table(ComponentKind::Player).contains_key(e)
            && #[trigger] entities.table(ComponentKind::Name).contains_key(e) implies ids.contains(e) by {
            let j = choose|j: int| 0 <= j < online@.len() && online@[j].0 == e;
        }
        assert(others_listed(entities, context.player_id, ids, names));
        lemma_text_order_total();
        indented(names).lemma_sort_by_ensures(text_order());
        vstd::seq_lib::to_multiset_len(indented(names));
        vstd::seq_lib::to_multiset_len(views(sorted@));
    }
    Ok(CommandResult::Query(QueryResult::new(response)))
}

/// `ids` are the named entities matching the keywords that the player `p` carries,
/// followed by those in the player's room `l`.
pub open spec fn in_context_at(reg: &EntityRegistry, p: EntityId, l: Location, keywords: Seq<Seq<char>>, ids: Seq<EntityId>) -> bool {
    exists|carried: Seq<EntityId>, here: Seq<EntityId>| #[trigger] matching_at(reg, Location { value: p }, keywords, carried)
        && #[trigger] matching_at(reg, l, keywords, here) && ids == carried + here
}

/// What `resolve_entities_in_context` gives: the matches that the player carries, then
/// those in the player's room; or the error that looking up the player's position gives.
pub open spec fn in_context(reg: &EntityRegistry, p: EntityId, keywords: Seq<Seq<char>>, r: Result<Seq<EntityId>, Seq<char>>) -> bool {
    match current_position(reg, p) {
        Err(m) => r == Err::<Seq<EntityId>, Seq<char>>(m),
        Ok(l) => r is Ok && in_context_at(reg, p, l, keywords, r->Ok_0),
    }
}

/// A list of entities, or the message of the error.
pub open spec fn ids_result(r: Result<Vec<EntityId>, CommandExecutionError>) -> Result<Seq<EntityId>, Seq<char>> {
    match r {
        Ok(v) => Ok(v@),
        Err(e) => Err(e@),
    }
}

/// The named entities matching the keywords in the player's room; or the error that
/// looking up the player's position gives.
pub fn resolve_entities_in_current_room(context: &SessionContext, entities: &EntityRegistry, keywords: &Keywords) -> (r: Result<Vec<EntityId>, CommandExecutionError>)
    ensures
        match current_position(entities, context.player_id) {
            Err(m) => ids_result(r) == Err::<Seq<EntityId>, Seq<char>>(m),
            Ok(l) => r matches Ok(ids) && matching_at(entities, l, keywords@, ids@),
        },
{
    let location = get_current_position(context, entities)?;
    Ok(resolve_entities_in_location(entities, &location, keywords))
}

/// The named entities matching the keywords that the player carries.
pub fn resolve_entities_in_inventory(context: &SessionContext, entities: &EntityRegistry, keywords: &Keywords) -> (r: Vec<EntityId>)
    ensures
        matching_at(entities, Location { value: context.player_id }, keywords@, r@),
{
    resolve_entities_in_location(entities, &Location::new(context.player_id), keywords)
}

/// The named entities matching the keywords that the player carries, followed by those in
/// the player's room; or the error that looking up the player's position gives.
pub fn resolve_entities_in_context(context: &SessionContext, entities: &EntityRegistry, keywords: &Keywords) -> (r: Result<Vec<EntityId>, CommandExecutionError>)
    ensures
        in_context(entities, context.player_id, keywords@, ids_result(r)),
{
    let mut in_room = resolve_entities_in_current_room(context, entities, keywords)?;
    let mut in_inventory = resolve_entities_in_inventory(context, entities, keywords);
    let ghost carried = in_inventory@;
    let ghost here = in_room@;
    let ghost location = current_position(entities, context.player_id)->Ok_0;
    in_inventory.append(&mut in_room);
    proof {
        assert(in_inventory@ == carried + here);
        assert(in_context_at(entities, context.player_id, location, keywords@, in_inventory@));
    }
    Ok(in_inventory)
}

/// In what `resolve_entities_in_context` gives, the entities that the player carries come
/// before the others; every entry matches the keywords and is carried or in the room; and
/// every matching named entity carried or in the room is there.
pub proof fn law_carried_matches_first(reg: &EntityRegistry, p: EntityId, keywords: Seq<Seq<char>>, ids: Seq<EntityId>)
    requires
        in_context(reg, p, keywords, Ok(ids)),
    ensures
        forall|i: int, j: int| 0 <= i < j < ids.len() && reg.is_at(#[trigger] ids[j], Location { value: p })
            ==> reg.is_at(#[trigger] ids[i], Location { value: p }),
        forall|i: int| 0 <= i < ids.len() ==> {
            &&& reg.is_at(#[trigger] ids[i], Location { value: p }) || reg.is_at(ids[i], current_position(reg, p)->Ok_0)
            &&& reg.table(ComponentKind::Name).contains_key(ids[i])
            &&& name_matches(text_of(reg.table(ComponentKind::Name)[ids[i]]), keywords)
        },
        forall|e: EntityId| (reg.is_at(e, Location { value: p }) || reg.is_at(e, current_position(reg, p)->Ok_0))
            && #[trigger] reg.table(ComponentKind::Name).contains_key(e)
            && name_matches(text_of(reg.table(ComponentKind::Name)[e]), keywords) ==> ids.contains(e),
{
    let l = current_position(reg, p)->Ok_0;
    let inv = Location { value: p };
    let (carried, here) = choose|carried: Seq<EntityId>, here: Seq<EntityId>| #[trigger] matching_at(reg, inv, keywords, carried)
        && #[trigger] matching_at(reg, l, keywords, here) && ids == carried + here;
    assert forall|i: int| 0 <= i < ids.len() implies {
        &&& reg.is_at(#[trigger] ids[i], inv) || reg.is_at(ids[i], l)
        &&& reg.table(ComponentKind::Name).contains_key(ids[i])
        &&& name_matches(text_of(reg.table(ComponentKind::Name)[ids[i]]), keywords)
    } by {
        if i < carried.len() {
            assert(ids[i] == carried[i]);
        } else {
            assert(ids[i] == here[i - carried.len()]);
        }
    }
    assert forall|i: int, j: int| 0 <= i < j < ids.len() && reg.is_at(#[trigger] ids[j], inv)
        implies reg.is_at(#[trigger] ids[i], inv) by {
        if i >= carried.len() {
            assert(ids[i] == here[i - carried.len()]);
            assert(ids[j] == here[j - carried.len()]);
            assert(reg.is_at(ids[j], l));
            assert(l == inv);
        } else {
            assert(ids[i] == carried[i]);
        }
    }
    assert forall|e: EntityId| (reg.is_at(e, inv) || reg.is_at(e, l))
        && #[trigger] reg.table(ComponentKind::Name).contains_key(e)
        && name_matches(text_of(reg.table(ComponentKind::Name)[e]), keywords) implies ids.contains(e) by {
        if reg.is_at(e, inv) {
            assert(carried.contains(e));
            let k = choose|k: int| 0 <= k < carried.len() && carried[k] == e;
            assert(ids[k] == e);
        } else {
            assert(here.contains(e));
            let k = choose|k: int| 0 <= k < here.len() && here[k] == e;
            assert(ids[carried.len() + k] == e);
        }
    }
}

/// `inspect`: the name, and the description if there is one, of the one named entity
/// that the player carries or that is in the room and matches the keywords. Carried
/// entities come first when counting matches.
pub open spec fn inspect_outcome(reg: &EntityRegistry, p: EntityId, keywords: Seq<Seq<char>>, o: Result<CommandResultView, Seq<char>>) -> bool {
    match current_position(reg, p) {
        Err(m) => o == Err::<CommandResultView, Seq<char>>(m),
        Ok(l) => inspect_from(reg, p, l, keywords, o),
    }
}

/// `inspect` for a player standing at `l`.
pub open spec fn inspect_from(reg: &EntityRegistry, p: EntityId, l: Location, keywords: Seq<Seq<char>>, o: Result<CommandResultView, Seq<char>>) -> bool {
    let kw = seq_join(keywords, " "@);
    exists|carried: Seq<EntityId>, here: Seq<EntityId>| #[trigger] matching_at(reg, Location { value: p }, keywords, carried)
        && #[trigger] matching_at(reg, l, keywords, here) && {
        let ids = carried + here;
        if ids.len() == 0 {
            o == query_outcome("There is no '"@ + kw + "' in your inventory."@)
        } else if ids.len() > 1 {
            o == query_outcome("Which '"@ + kw + "'?"@)
        } else {
            match entity_name(reg, ids[0]) {
                Err(m) => o == Err::<CommandResultView, Seq<char>>(m),
                Ok(n) => o == query_outcome(n + if reg.table(ComponentKind::Description).contains_key(ids[0]) {
                    "\n\n"@ + text_of(reg.table(ComponentKind::Description)[ids[0]])
                } else {
                    seq![]
                }),
            }
        }
    }
}

fn handle_inspect(context: &SessionContext, entities: &EntityRegistry, keywords: Keywords) -> (r: Result<CommandResult, CommandExecutionError>)
    ensures
        inspect_outcome(entities, context.player_id, keywords@, outcome(r)),
{
    let matching = resolve_entities_in_context(context, entities, &keywords)?;
    let ghost location = current_position(entities, context.player_id)->Ok_0;
    let ghost (carried, here) = choose|carried: Seq<EntityId>, here: Seq<EntityId>|
        #[trigger] matching_at(entities, Location { value: context.player_id }, keywords@, carried)
        && #[trigger] matching_at(entities, location, keywords@, here) && matching@ == carried + here;
    if matching.len() == 0 {
        let kw = keywords.to_string();
        let r = Ok(CommandResult::Query(QueryResult::new(cat3("There is no '", kw.as_str(), "' in your inventory."))));
        assert(inspect_from(entities, context.player_id, location, keywords@, outcome(r)));
        return r;
    }
    if matching.len() > 1 {
        let kw = keywords.to_string();
        let r = Ok(CommandResult::Query(QueryResult::new(cat3("Which '", kw.as_str(), "'?"))));
        assert(inspect_from(entities, context.player_id, location, keywords@, outcome(r)));
        return r;
    }
    let target = matching[0];
    let item_name = match get_entity_name(entities, &target) {
        Ok(n) => n,
        Err(e) => {
            let r = Err(e);
            assert(inspect_from(entities, context.player_id, location, keywords@, outcome(r)));
            return r;
        },
    };
    let description = match entities.get_component::<Description>(&target) {
        Ok(Some(d)) => cat2("\n\n", d.text.as_str()),
        Ok(None) => String::new(),
        Err(e) => {
            return Err(CommandExecutionError::from_registry(e));
        },
    };
    let r = Ok(CommandResult::Query(QueryResult::new(cat2(item_name.as_str(), description.as_str()))));
    assert(inspect_from(entities, context.player_id, location, keywords@, outcome(r)));
    r
}

/// What carrying out a command does: the answer, the registry and the room graph after it.
pub open spec fn command_outcome(
    old_reg: &EntityRegistry,
    reg: &EntityRegistry,
    old_graph: &RoomGraph,
    graph: &RoomGraph,
    ctx: SessionContext,
    c: CommandView,
    o: Result<CommandResultView, Seq<char>>,
) -> bool {
    let p = ctx.player_id;
    let same_world = unchanged(reg, old_reg) && graph@ == old_graph@;
    match c {
        CommandView::Go(d) => go_outcome(old_reg, reg, old_graph, p, d, o) && graph@ == old_graph@,
        CommandView::Say(s) => say_outcome(old_reg, p, s, o) && same_world,
        CommandView::Who => who_outcome(old_reg, p, o) && same_world,
        CommandView::Look => look_outcome(old_reg, old_graph, p, o) && same_world,
        CommandView::Inventory => inventory_outcome(old_reg, p, o) && same_world,
        CommandView::Take(k) => take_outcome(old_reg, reg, p, k, o) && graph@ == old_graph@,
        CommandView::Drop(k) => drop_outcome(old_reg, reg, p, k, o) && graph@ == old_graph@,
        CommandView::Inspect(k) => inspect_outcome(old_reg, p, k, o) && same_world,
        CommandView::Edit(t, f, content) => admin::edit_outcome(old_reg, reg, ctx, t, f, content, o) && graph@ == old_graph@,
        CommandView::Save(t, path) => save::save_outcome(old_reg, old_graph, ctx, t, path, o) && same_world,
        CommandView::Link(d, a) => admin::link_outcome(old_reg, old_graph, graph, ctx, d, a, o) && unchanged(reg, old_reg),
        CommandView::Unlink(d) => admin::unlink_outcome(old_reg, old_graph, graph, ctx, d, o) && unchanged(reg, old_reg),
        CommandView::Create(d, a) => admin::create_outcome(old_reg, reg, old_graph, graph, ctx, d, a, o),
        CommandView::Spawn(t, a) => admin::spawn_outcome(old_reg, reg, ctx, t, a, o) && graph@ == old_graph@,
        CommandView::RoomInfo => admin::roominfo_outcome(old_reg, old_graph, ctx, o) && same_world,
        CommandView::Quit => quit_outcome(old_reg, p, o) && same_world,
    }
}

/// Carries out a command for the player of a session.
pub fn handle_command(
    context: &SessionContext,
    entities: &mut EntityRegistry,
    rooms: &mut RoomGraph,
    command: Command,
) -> (r: Result<CommandResult, CommandExecutionError>)
    ensures
        final(rooms).starting_room() == old(rooms).starting_room(),
        command_outcome(old(entities), final(entities), old(rooms), final(rooms), *context, command@, outcome(r)),
{
    match command {
        Command::Go(direction) => handle_go(context, entities, rooms, direction),
        Command::Say(sentence) => handle_say(context, entities, sentence.as_str()),
        Command::Who => handle_who(context, entities),
        Command::Look => handle_look(context, entities, rooms),
        Command::Inventory => handle_inventory(context, entities),
        Command::Take(keywords) => handle_take(context, entities, keywords),
        Command::Drop(keywords) => handle_drop(context, entities, keywords),
        Command::Inspect(keywords) => handle_inspect(context, entities, keywords),
        Command::Edit(target, field, content) => admin::handle_edit(context, entities, target, field, content),
        Command::Save(target, path) => save::handle_save(context, entities, rooms, target, path),
        Command::Link(direction, target) => admin::handle_link(context, entities, rooms, direction, target),
        Command::Unlink(direction) => admin::handle_unlink(context, entities, rooms, direction),
        Command::Create(direction, target) => admin::handle_create(context, entities, rooms, direction, target),
        Command::Spawn(target, alias) => admin::handle_spawn(context, entities, target, alias),
        Command::RoomInfo => admin::handle_roominfo(context, entities, rooms),
        Command::Quit => handle_quit(context, entities),
    }
}

/// The commands that only an administrator may give.
pub open spec fn admin_command(c: CommandView) -> bool {
    match c {
        CommandView::Edit(..) | CommandView::Save(..) | CommandView::Link(..) | CommandView::Unlink(..)
        | CommandView::Create(..) | CommandView::Spawn(..) | CommandView::RoomInfo => true,
        _ => false,
    }
}

/// An administrator command given by a player who is not one is refused, and the world
/// stays as it was.
pub proof fn law_admin_only(
    old_reg: &EntityRegistry,
    reg: &EntityRegistry,
    old_graph: &RoomGraph,
    graph: &RoomGraph,
    ctx: SessionContext,
    c: CommandView,
    o: Result<CommandResultView, Seq<char>>,
)
    requires
        !ctx.is_admin,
        admin_command(c),
        command_outcome(old_reg, reg, old_graph, graph, ctx, c, o),
    ensures
        o == Ok::<CommandResultView, Seq<char>>(CommandResultView::Unauthorized),
        unchanged(reg, old_reg),
        graph@ == old_graph@,
{
}

/// Going through an exit and then back through the opposite exit of the room reached
/// brings the player back to the room where it started.
pub proof fn law_go_and_back(
    r0: &EntityRegistry,
    r1: &EntityRegistry,
    r2: &EntityRegistry,
    graph: &RoomGraph,
    p: EntityId,
    d: Direction,
    o1: Result<CommandResultView, Seq<char>>,
    o2: Result<CommandResultView, Seq<char>>,
)
    requires
        current_position(r0, p) is Ok,
        ({
            let cur = RoomId { entity: current_position(r0, p)->Ok_0.value };
            &&& graph@.contains_key(cur)
            &&& graph@[cur]@.contains_key(d)
            &&& graph@.contains_key(graph@[cur]@[d])
            &&& graph@[graph@[cur]@[d]]@.contains_key(opposite_of(d))
            &&& graph@[graph@[cur]@[d]]@[opposite_of(d)] == cur
        }),
        go_outcome(r0, r1, graph, p, d, o1),
        go_outcome(r1, r2, graph, p, opposite_of(d), o2),
    ensures
        current_position(r2, p) == current_position(r0, p),
{
    let cur = RoomId { entity: current_position(r0, p)->Ok_0.value };
    let dest = graph@[cur]@[d];
    assert(r1.table(ComponentKind::Location)[p] == ComponentValue::Location(dest.entity));
    assert(current_position(r1, p) == Ok::<Location, Seq<char>>(Location { value: dest.entity }));
    assert(r2.table(ComponentKind::Location)[p] == ComponentValue::Location(cur.entity));
}

/// A `take` that succeeds moves one named item of the player's room into the inventory,
/// tells everyone else in the player's room `<player> picked up '<item>'.` by its one
/// event, and answers the player `You took '<item>'`.
pub proof fn law_take_tells_the_room(
    old_reg: &EntityRegistry,
    reg: &EntityRegistry,
    p: EntityId,
    keywords: Seq<Seq<char>>,
    o: Result<CommandResultView, Seq<char>>,
)
    requires
        take_outcome(old_reg, reg, p, keywords, o),
        o is Ok && o->Ok_0 is Action,
    ensures
        exists|x: EntityId| {
            let item = text_of(old_reg.table(ComponentKind::Name)[x]);
            &&& old_reg.is_at(x, current_position(old_reg, p)->Ok_0)
            &&& old_reg.table(ComponentKind::Item).contains_key(x)
            &&& #[trigger] reg.is_at(x, Location { value: p })
            &&& reg.table(ComponentKind::Location) == old_reg.table(ComponentKind::Location).insert(x, ComponentValue::Location(p))
            &&& forall|k: ComponentKind| k != ComponentKind::Location ==> #[trigger] reg.table(k) == old_reg.table(k)
            &&& o->Ok_0 == CommandResultView::Action(
                seq![EventView {
                    target: EventTarget::LocationExcept(current_position(reg, p)->Ok_0, p),
                    event: GameEventView::Message(player_name(reg, p)->Ok_0 + " picked up '"@ + item + "'."@),
                }],
                Some("You took '"@ + item + "'"@),
            )
        },
{
    let l = current_position(old_reg, p)->Ok_0;
    let kw = seq_join(keywords, " "@);
    let ids = choose|ids: Seq<EntityId>| #[trigger] matching_at(old_reg, l, keywords, ids) && if ids.len() == 0 {
        o == query_outcome("There is no '"@ + kw + "' here."@) && unchanged(reg, old_reg)
    } else if ids.len() > 1 {
        o == query_outcome("Which '"@ + kw + "'?"@) && unchanged(reg, old_reg)
    } else {
        match entity_name(old_reg, ids[0]) {
            Err(m) => o == Err::<CommandResultView, Seq<char>>(m) && unchanged(reg, old_reg),
            Ok(item) => if !old_reg.table(ComponentKind::Item).contains_key(ids[0]) {
                o == query_outcome("You can't take '"@ + item + "'!"@) && unchanged(reg, old_reg)
            } else {
                &&& component_set(reg, old_reg, ComponentKind::Location, ids[0], ComponentValue::Location(p))
                &&& carried_outcome(reg, p, item, "picked up"@, "You took"@, o)
            },
        }
    };
    let x = ids[0];
    let item = text_of(old_reg.table(ComponentKind::Name)[x]);
    assert(ids.contains(x));
    assert(("You took"@ + " '"@ + item + "'"@) =~= ("You took '"@ + item + "'"@)) by {
        reveal_strlit("You took");
        reveal_strlit(" '");
        reveal_strlit("You took '");
    }
    assert((player_name(reg, p)->Ok_0 + " "@ + "picked up"@ + " '"@ + item + "'."@)
        =~= (player_name(reg, p)->Ok_0 + " picked up '"@ + item + "'."@)) by {
        reveal_strlit(" ");
        reveal_strlit("picked up");
        reveal_strlit(" '");
        reveal_strlit(" picked up '");
    }
    assert(reg.is_at(x, Location { value: p }));
}

/// A `drop` that succeeds moves one named item of the inventory to the player's room,
/// tells everyone else there `<player> dropped '<item>'.` by its one event, and answers
/// the player `You dropped '<item>'`.
pub proof fn law_drop_tells_the_room(
    old_reg: &EntityRegistry,
    reg: &EntityRegistry,
    p: EntityId,
    keywords: Seq<Seq<char>>,
    o: Result<CommandResultView, Seq<char>>,
)
    requires
        drop_outcome(old_reg, reg, p, keywords, o),
        o is Ok && o->Ok_0 is Action,
    ensures
        exists|x: EntityId| {
            let item = text_of(old_reg.table(ComponentKind::Name)[x]);
            &&& old_reg.is_at(x, Location { value: p })
            &&& old_reg.table(ComponentKind::Item).contains_key(x)
            &&& #[trigger] reg.is_at(x, current_position(old_reg, p)->Ok_0)
            &&& reg.table(ComponentKind::Location) == old_reg.table(ComponentKind::Location).insert(
                x,
                ComponentValue::Location(current_position(old_reg, p)->Ok_0.value),
            )
            &&& forall|k: ComponentKind| k != ComponentKind::Location ==> #[trigger] reg.table(k) == old_reg.table(k)
            &&& o->Ok_0 == CommandResultView::Action(
                seq![EventView {
                    target: EventTarget::LocationExcept(current_position(reg, p)->Ok_0, p),
                    event: GameEventView::Message(player_name(reg, p)->Ok_0 + " dropped '"@ + item + "'."@),
                }],
                Some("You dropped '"@ + item + "'"@),
            )
        },
{
    let kw = seq_join(keywords, " "@);
    let ids = choose|ids: Seq<EntityId>| #[trigger] matching_at(old_reg, Location { value: p }, keywords, ids) && if ids.len() == 0 {
        o == query_outcome("There is no '"@ + kw + "' in your inventory."@) && unchanged(reg, old_reg)
    } else if ids.len() > 1 {
        o == query_outcome("Which '"@ + kw + "'?"@) && unchanged(reg, old_reg)
    } else {
        match entity_name(old_reg, ids[0]) {
            Err(m) => o == Err::<CommandResultView, Seq<char>>(m) && unchanged(reg, old_reg),
            Ok(item) => if !old_reg.table(ComponentKind::Item).contains_key(ids[0]) {
                o == query_outcome("You can't drop '"@ + item + "'!"@) && unchanged(reg, old_reg)
            } else {
                match current_position(old_reg, p) {
                    Err(m) => o == Err::<CommandResultView, Seq<char>>(m) && unchanged(reg, old_reg),
                    Ok(l) => {
                        &&& component_set(reg, old_reg, ComponentKind::Location, ids[0], ComponentValue::Location(l.value))
                        &&& carried_outcome(reg, p, item, "dropped"@, "You dropped"@, o)
                    },
                }
            },
        }
    };
    let x = ids[0];
    let item = text_of(old_reg.table(ComponentKind::Name)[x]);
    assert(ids.contains(x));
    assert(("You dropped"@ + " '"@ + item + "'"@) =~= ("You dropped '"@ + item + "'"@)) by {
        reveal_strlit("You dropped");
        reveal_strlit(" '");
        reveal_strlit("You dropped '");
    }
    assert((player_name(reg, p)->Ok_0 + " "@ + "dropped"@ + " '"@ + item + "'."@)
        =~= (player_name(reg, p)->Ok_0 + " dropped '"@ + item + "'."@)) by {
        reveal_strlit(" ");
        reveal_strlit("dropped");
        reveal_strlit(" '");
        reveal_strlit(" dropped '");
    }
    assert(reg.is_at(x, current_position(old_reg, p)->Ok_0));
}

/// Taking an item and dropping it again puts it back. When `x` is the one named entity in
/// the player's room that matches the keywords, nothing that the player carries matches
/// them, and `x` is not the player itself, then after a `take` with those keywords that
/// succeeds, a `drop` with the same keywords succeeds, answers that `x` was dropped, puts
/// `x` back where it was, and leaves every component as it was before the take.
pub proof fn law_drop_undoes_take(
    r0: &EntityRegistry,
    r1: &EntityRegistry,
    r2: &EntityRegistry,
    p: EntityId,
    x: EntityId,
    keywords: Seq<Seq<char>>,
    o1: Result<CommandResultView, Seq<char>>,
    o2: Result<CommandResultView, Seq<char>>,
)
    requires
        current_position(r0, p) is Ok,
        matching_at(r0, current_position(r0, p)->Ok_0, keywords, seq![x]),
        forall|e: EntityId| r0.is_at(e, Location { value: p }) && #[trigger] r0.table(ComponentKind::Name).contains_key(e)
            ==> !name_matches(text_of(r0.table(ComponentKind::Name)[e]), keywords),
        x != p,
        take_outcome(r0, r1, p, keywords, o1),
        o1 is Ok && o1->Ok_0 is Action,
        drop_outcome(r1, r2, p, keywords, o2),
    ensures
        o2 is Ok,
        o2->Ok_0 matches CommandResultView::Action(_, response)
            && response == Some("You dropped"@ + " '"@ + text_of(r0.table(ComponentKind::Name)[x]) + "'"@),
        r2.is_at(x, current_position(r0, p)->Ok_0),
        forall|k: ComponentKind| #[trigger] r2.table(k) == r0.table(k),
{
    let l = current_position(r0, p)->Ok_0;
    let kw = seq_join(keywords, " "@);
    let ids = choose|ids: Seq<EntityId>| #[trigger] matching_at(r0, l, keywords, ids) && if ids.len() == 0 {
        o1 == query_outcome("There is no '"@ + kw + "' here."@) && unchanged(r1, r0)
    } else if ids.len() > 1 {
        o1 == query_outcome("Which '"@ + kw + "'?"@) && unchanged(r1, r0)
    } else {
        match entity_name(r0, ids[0]) {
            Err(m) => o1 == Err::<CommandResultView, Seq<char>>(m) && unchanged(r1, r0),
            Ok(item) => if !r0.table(ComponentKind::Item).contains_key(ids[0]) {
                o1 == query_outcome("You can't take '"@ + item + "'!"@) && unchanged(r1, r0)
            } else {
                &&& component_set(r1, r0, ComponentKind::Location, ids[0], ComponentValue::Location(p))
                &&& carried_outcome(r1, p, item, "picked up"@, "You took"@, o1)
            },
        }
    };
    assert(seq![x].contains(x) && seq![x][0] == x);
    assert(ids.len() == 1);
    assert(ids.contains(ids[0]));
    assert(ids[0] == x);
    let name = text_of(r0.table(ComponentKind::Name)[x]);
    assert(current_position(r1, p) == current_position(r0, p));
    assert(player_name(r1, p) is Ok);
    let inv = Location { value: p };
    let ids2 = choose|ids2: Seq<EntityId>| #[trigger] matching_at(r1, inv, keywords, ids2) && if ids2.len() == 0 {
        o2 == query_outcome("There is no '"@ + kw + "' in your inventory."@) && unchanged(r2, r1)
    } else if ids2.len() > 1 {
        o2 == query_outcome("Which '"@ + kw + "'?"@) && unchanged(r2, r1)
    } else {
        match entity_name(r1, ids2[0]) {
            Err(m) => o2 == Err::<CommandResultView, Seq<char>>(m) && unchanged(r2, r1),
            Ok(item) => if !r1.table(ComponentKind::Item).contains_key(ids2[0]) {
                o2 == query_outcome("You can't drop '"@ + item + "'!"@) && unchanged(r2, r1)
            } else {
                match current_position(r1, p) {
                    Err(m) => o2 == Err::<CommandResultView, Seq<char>>(m) && unchanged(r2, r1),
                    Ok(here) => {
                        &&& component_set(r2, r1, ComponentKind::Location, ids2[0], ComponentValue::Location(here.value))
                        &&& carried_outcome(r2, p, item, "dropped"@, "You dropped"@, o2)
                    },
                }
            },
        }
    };
    assert(r1.is_at(x, inv));
    assert(r1.table(ComponentKind::Name).contains_key(x));
    assert(ids2.contains(x));
    assert forall|i: int| 0 <= i < ids2.len() implies ids2[i] == x by {
        let e = ids2[i];
        assert(r1.is_at(e, inv));
        assert(r1.table(ComponentKind::Name).contains_key(e));
        if e != x {
            assert(r0.is_at(e, inv));
            assert(r0.table(ComponentKind::Name).contains_key(e));
        }
    }
    if ids2.len() > 1 {
        assert(ids2[0] == x && ids2[1] == x);
    }
    assert(ids2.len() == 1);
    assert(ids2[0] == x);
    assert(entity_name(r1, x) == Ok::<Seq<char>, Seq<char>>(name));
    assert(current_position(r2, p) == current_position(r0, p));
    assert(player_name(r2, p) == player_name(r1, p));
    assert(r2.table(ComponentKind::Location) =~= r0.table(ComponentKind::Location));
}

} // verus!
