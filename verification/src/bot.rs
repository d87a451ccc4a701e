//! The conversation: what the tracker answers to a command or a message in
//! each state of a chat, what it asks of the ledger store, and the state that
//! the chat is in afterwards.

use vstd::prelude::*;
use crate::calendar::{date_seconds, parse_date};
use crate::db::{
    alias_taken, category_created, category_line, create_category_outcome, has_alias, ledger_wf,
    lemma_resolve_in_chat, create_cost_outcome, month_stat_outcome,
    remove_last_cost_outcome, rows_of_chat, rows_view, stat_groups, update_category_outcome,
    CategoryRow, CategoryRowView, ChatId, DBError, DBView, Stat, DB,
};
use crate::stat::{report_text, StatCategoryView};
use crate::money::{parse_amount, parsed_amount};
use crate::resolver::{resolve, resolved};
use crate::text::{join_lines, split_whitespace, texts, tokens};

verus! {

/// Where a chat stands in a conversation.
pub enum State {
    Start,
    NewCategoryReceiveAlias,
    NewCategoryReceiveName { alias: String },
    UpdCategoryReceiveAlias,
    UpdCategoryReceiveNewAlias { alias: String },
    UpdCategoryReceiveNewName { alias: String, new_alias: String },
    NewCostReceiveAlias { amount: i64 },
    NewCostReceiveAmount { id: i64 },
}

/// The mathematical content of a [`State`].
pub enum StateView {
    Start,
    NewCategoryReceiveAlias,
    NewCategoryReceiveName { alias: Seq<char> },
    UpdCategoryReceiveAlias,
    UpdCategoryReceiveNewAlias { alias: Seq<char> },
    UpdCategoryReceiveNewName { alias: Seq<char>, new_alias: Seq<char> },
    NewCostReceiveAlias { amount: i64 },
    NewCostReceiveAmount { id: i64 },
}

impl View for State {
    type V = StateView;

    open spec fn view(&self) -> StateView {
        match self {
            State::Start => StateView::Start,
            State::NewCategoryReceiveAlias => StateView::NewCategoryReceiveAlias,
            State::NewCategoryReceiveName { alias } => StateView::NewCategoryReceiveName {
                alias: alias@,
            },
            State::UpdCategoryReceiveAlias => StateView::UpdCategoryReceiveAlias,
            State::UpdCategoryReceiveNewAlias { alias } => StateView::UpdCategoryReceiveNewAlias {
                alias: alias@,
            },
            State::UpdCategoryReceiveNewName { alias, new_alias } => {
                StateView::UpdCategoryReceiveNewName { alias: alias@, new_alias: new_alias@ }
            },
            State::NewCostReceiveAlias { amount } => StateView::NewCostReceiveAlias {
                amount: *amount,
            },
            State::NewCostReceiveAmount { id } => StateView::NewCostReceiveAmount { id: *id },
        }
    }
}

impl Clone for State {
    fn clone(&self) -> (res: Self)
        ensures
            res@ == self@,
    {
        match self {
            State::Start => State::Start,
            State::NewCategoryReceiveAlias => State::NewCategoryReceiveAlias,
            State::NewCategoryReceiveName { alias } => State::NewCategoryReceiveName {
                alias: alias.clone(),
            },
            State::UpdCategoryReceiveAlias => State::UpdCategoryReceiveAlias,
            State::UpdCategoryReceiveNewAlias { alias } => State::UpdCategoryReceiveNewAlias {
                alias: alias.clone(),
            },
            State::UpdCategoryReceiveNewName { alias, new_alias } => {
                State::UpdCategoryReceiveNewName {
                    alias: alias.clone(),
                    new_alias: new_alias.clone(),
                }
            },
            State::NewCostReceiveAlias { amount } => State::NewCostReceiveAlias { amount: *amount },
            State::NewCostReceiveAmount { id } => State::NewCostReceiveAmount { id: *id },
        }
    }
}

impl Default for State {
    fn default() -> (res: Self)
        ensures
            res@ == StateView::Start,
    {
        State::Start
    }
}

/// A command as the transport hands it over: its name and its arguments as
/// they were typed.
pub enum Command {
    Help,
    Start,
    ListCategory,
    AddCategory,
    UpdateCategory,
    AddCost { alias: String, date: String, amount: String },
    RemoveLastCost,
    StatThisMonth,
    StatPeriod { date_from: String, date_to: String },
}

/// The mathematical content of a [`Command`].
pub enum CommandView {
    Help,
    Start,
    ListCategory,
    AddCategory,
    UpdateCategory,
    AddCost { alias: Seq<char>, date: Seq<char>, amount: Seq<char> },
    RemoveLastCost,
    StatThisMonth,
    StatPeriod { date_from: Seq<char>, date_to: Seq<char> },
}

impl View for Command {
    type V = CommandView;

    open spec fn view(&self) -> CommandView {
        match self {
            Command::Help => CommandView::Help,
            Command::Start => CommandView::Start,
            Command::ListCategory => CommandView::ListCategory,
            Command::AddCategory => CommandView::AddCategory,
            Command::UpdateCategory => CommandView::UpdateCategory,
            Command::AddCost { alias, date, amount } => CommandView::AddCost {
                alias: alias@,
                date: date@,
                amount: amount@,
            },
            Command::RemoveLastCost => CommandView::RemoveLastCost,
            Command::StatThisMonth => CommandView::StatThisMonth,
            Command::StatPeriod { date_from, date_to } => CommandView::StatPeriod {
                date_from: date_from@,
                date_to: date_to@,
            },
        }
    }
}

/// What arrives in a chat: a command, a message with text, or a message
/// without any.
pub enum Input {
    Command(Command),
    Text(String),
    Other,
}

/// The mathematical content of an [`Input`].
pub enum InputView {
    Command(CommandView),
    Text(Seq<char>),
    Other,
}

impl View for Input {
    type V = InputView;

    open spec fn view(&self) -> InputView {
        match self {
            Input::Command(c) => InputView::Command(c@),
            Input::Text(t) => InputView::Text(t@),
            Input::Other => InputView::Other,
        }
    }
}

/// What a step of the conversation asks of the ledger store.
pub enum Request {
    Nothing,
    CreateCategory { alias: String, name: String },
    UpdateCategory { alias: String, new_alias: String, name: String },
    CreateCost { id: i64, amount: i64, date: Option<i64> },
    RemoveLastCost,
    Stat { date_from: Option<i64>, date_to: Option<i64> },
    StatThisMonth,
}

/// The mathematical content of a [`Request`].
pub enum RequestView {
    Nothing,
    CreateCategory { alias: Seq<char>, name: Seq<char> },
    UpdateCategory { alias: Seq<char>, new_alias: Seq<char>, name: Seq<char> },
    CreateCost { id: i64, amount: i64, date: Option<i64> },
    RemoveLastCost,
    Stat { date_from: Option<i64>, date_to: Option<i64> },
    StatThisMonth,
}

impl View for Request {
    type V = RequestView;

    open spec fn view(&self) -> RequestView {
        match self {
            Request::Nothing => RequestView::Nothing,
            Request::CreateCategory { alias, name } => RequestView::CreateCategory {
                alias: alias@,
                name: name@,
            },
            Request::UpdateCategory { alias, new_alias, name } => RequestView::UpdateCategory {
                alias: alias@,
                new_alias: new_alias@,
                name: name@,
            },
            Request::CreateCost { id, amount, date } => RequestView::CreateCost {
                id: *id,
                amount: *amount,
                date: *date,
            },
            Request::RemoveLastCost => RequestView::RemoveLastCost,
            Request::Stat { date_from, date_to } => RequestView::Stat {
                date_from: *date_from,
                date_to: *date_to,
            },
            Request::StatThisMonth => RequestView::StatThisMonth,
        }
    }
}

/// One step of the conversation: what to ask of the store, what to reply once
/// the store has done it, and the state to move to then.
pub struct Step {
    pub request: Request,
    pub replies: Vec<String>,
    pub next: State,
}

/// The mathematical content of a [`Step`].
pub struct StepView {
    pub request: RequestView,
    pub replies: Seq<Seq<char>>,
    pub next: StateView,
}

impl View for Step {
    type V = StepView;

    open spec fn view(&self) -> StepView {
        StepView { request: self.request@, replies: texts(self.replies@), next: self.next@ }
    }
}

/// A step that only replies.
pub open spec fn say_view(reply: Seq<char>, next: StateView) -> StepView {
    StepView { request: RequestView::Nothing, replies: seq![reply], next }
}

/// A step that replies nothing and changes nothing.
pub open spec fn silent_view(next: StateView) -> StepView {
    StepView { request: RequestView::Nothing, replies: Seq::empty(), next }
}

pub open spec fn text_view(text: Option<&str>) -> Option<Seq<char>> {
    match text {
        Some(t) => Some(t@),
        None => None,
    }
}

fn one_reply(reply: String) -> (res: Vec<String>)
    ensures
        texts(res@) == seq![reply@],
{
    let mut res: Vec<String> = Vec::new();
    res.push(reply);
    assert(texts(res@) =~= seq![reply@]);
    res
}

fn no_reply() -> (res: Vec<String>)
    ensures
        texts(res@) == Seq::<Seq<char>>::empty(),
{
    let res: Vec<String> = Vec::new();
    assert(texts(res@) =~= Seq::<Seq<char>>::empty());
    res
}

fn say(reply: &str, next: State) -> (res: Step)
    ensures
        res@ == say_view(reply@, next@),
{
    Step { request: Request::Nothing, replies: one_reply(reply.to_owned()), next }
}

fn silent(next: State) -> (res: Step)
    ensures
        res@ == silent_view(next@),
{
    Step { request: Request::Nothing, replies: no_reply(), next }
}

/// The lines that list categories, one per category.
pub open spec fn category_lines(cats: Seq<CategoryRowView>) -> Seq<Seq<char>> {
    cats.map_values(|c: CategoryRowView| category_line(c.category))
}

/// The message that lists the categories of a chat.
pub open spec fn categories_text(cats: Seq<CategoryRowView>) -> Seq<char> {
    "Categories \n"@ + join_lines(category_lines(cats))
}

/// The message that lists the categories of a chat.
pub fn send_message_with_cats(cats: &Vec<CategoryRow>) -> (res: String)
    ensures
        res@ == categories_text(rows_view(cats@)),
{
    let ghost lines = category_lines(rows_view(cats@));
    let mut out = "Categories \n".to_owned();
    let mut i: usize = 0;
    assert(join_lines(lines.take(0)) =~= Seq::<char>::empty());
    while i < cats.len()
        invariant
            0 <= i <= cats.len(),
            lines == category_lines(rows_view(cats@)),
            lines.len() == cats.len(),
            out@ == "Categories \n"@ + join_lines(lines.take(i as int)),
        decreases cats.len() - i,
    {
        let line = cats[i].to_string();
        assert(lines[i as int] == line@);
        assert(lines.take(i + 1).drop_last() =~= lines.take(i as int));
        if i > 0 {
            out.append("\n");
        }
        out.append(line.as_str());
        assert(out@ =~= "Categories \n"@ + join_lines(lines.take(i + 1)));
        i = i + 1;
    }
    assert(lines.take(cats.len() as int) =~= lines);
    out
}

/// The amount of the last token that reads as an amount.
pub open spec fn last_amount(toks: Seq<Seq<char>>) -> Option<i64>
    decreases toks.len(),
{
    if toks.len() == 0 {
        None
    } else {
        match parsed_amount(toks.last()) {
            Some(amount) => Some(amount),
            None => last_amount(toks.drop_last()),
        }
    }
}

/// The id of the category that the last token naming one resolves to.
pub open spec fn last_category(toks: Seq<Seq<char>>, cats: Seq<CategoryRowView>) -> Option<i64>
    decreases toks.len(),
{
    if toks.len() == 0 {
        None
    } else {
        match resolved(cats, toks.last()) {
            Some(row) => Some(row.id),
            None => last_category(toks.drop_last(), cats),
        }
    }
}

/// The step for a message outside any flow: its tokens are scanned for an
/// amount and for a category, the last of each counts.
pub open spec fn msg_step(text: Option<Seq<char>>, cats: Seq<CategoryRowView>) -> StepView {
    match text {
        None => silent_view(StateView::Start),
        Some(t) => match (last_amount(tokens(t)), last_category(tokens(t), cats)) {
            (Some(amount), Some(id)) => StepView {
                request: RequestView::CreateCost { id, amount, date: None },
                replies: seq!["Added!"@],
                next: StateView::Start,
            },
            (None, Some(id)) => say_view("How much?"@, StateView::NewCostReceiveAmount { id }),
            (Some(amount), None) => say_view(
                "Specify category alias"@,
                StateView::NewCostReceiveAlias { amount },
            ),
            (None, None) => say_view("/help"@, StateView::Start),
        },
    }
}

/// Handles a message that belongs to no flow.
pub fn msg_handler(text: Option<&str>, cats: &Vec<CategoryRow>) -> (res: Step)
    ensures
        res@ == msg_step(text_view(text), rows_view(cats@)),
{
    let text = match text {
        Some(t) => t,
        None => {
            return silent(State::Start);
        },
    };
    let toks = split_whitespace(text);
    let ghost views = texts(toks@);
    let mut amount: Option<i64> = None;
    let mut cat_id: Option<i64> = None;
    let mut i: usize = 0;
    assert(views.take(0) =~= Seq::<Seq<char>>::empty());
    while i < toks.len()
        invariant
            0 <= i <= toks.len(),
            views == texts(toks@),
            amount == last_amount(views.take(i as int)),
            cat_id == last_category(views.take(i as int), rows_view(cats@)),
        decreases toks.len() - i,
    {
        let piece = toks[i].as_str();
        assert(views.take(i + 1).drop_last() =~= views.take(i as int));
        assert(views.take(i + 1).last() == piece@);
        if let Some(num) = parse_amount(piece) {
            amount = Some(num);
        }
        if let Some(cat) = resolve(cats, piece) {
            cat_id = Some(cat.id);
        }
        i = i + 1;
    }
    assert(views.take(toks.len() as int) =~= views);
    match (amount, cat_id) {
        (Some(amount), Some(id)) => Step {
            request: Request::CreateCost { id, amount, date: None },
            replies: one_reply("Added!".to_owned()),
            next: State::Start,
        },
        (None, Some(id)) => say("How much?", State::NewCostReceiveAmount { id }),
        (Some(amount), None) => say("Specify category alias", State::NewCostReceiveAlias { amount }),
        (None, None) => say("/help", State::Start),
    }
}

/// The reply to a cost filed under an alias that no category has.
pub open spec fn unknown_alias_text(alias: Seq<char>) -> Seq<char> {
    "Provide existing category alias, there is none called "@ + alias
}

/// The step for a cost to be filed under an alias at a date that was read
/// already: `None` stands for a text that was no date.
pub open spec fn add_cost_decision(
    cats: Seq<CategoryRowView>,
    alias: Seq<char>,
    date: Option<i64>,
    amount: Seq<char>,
) -> StepView {
    match resolved(cats, alias) {
        None => say_view(unknown_alias_text(alias), StateView::Start),
        Some(row) => match date {
            None => say_view("Provide date in YYYY-MM-DD format"@, StateView::Start),
            Some(seconds) => match parsed_amount(amount) {
                None => say_view("Specify amount"@, StateView::Start),
                Some(cents) => StepView {
                    request: RequestView::CreateCost {
                        id: row.id,
                        amount: cents,
                        date: Some(seconds),
                    },
                    replies: seq!["Created!"@],
                    next: StateView::Start,
                },
            },
        },
    }
}

/// The step for the command that files a cost under an alias at a date.
pub open spec fn add_cost_step(
    cats: Seq<CategoryRowView>,
    alias: Seq<char>,
    date: Seq<char>,
    amount: Seq<char>,
) -> StepView {
    add_cost_decision(cats, alias, date_seconds(date), amount)
}

/// Decides on a cost to be filed under an alias at a date that was read
/// already. The alias is looked at first, then the date, then the amount.
pub fn add_cost_on(cats: &Vec<CategoryRow>, alias: &str, date: Option<i64>, amount: &str) -> (res:
    Step)
    ensures
        res@ == add_cost_decision(rows_view(cats@), alias@, date, amount@),
{
    let cat = match resolve(cats, alias) {
        Some(cat) => cat,
        None => {
            let mut reply = "Provide existing category alias, there is none called ".to_owned();
            reply.append(alias);
            return say(reply.as_str(), State::Start);
        },
    };
    let seconds = match date {
        Some(seconds) => seconds,
        None => {
            return say("Provide date in YYYY-MM-DD format", State::Start);
        },
    };
    let cents = match parse_amount(amount) {
        Some(cents) => cents,
        None => {
            return say("Specify amount", State::Start);
        },
    };
    Step {
        request: Request::CreateCost { id: cat.id, amount: cents, date: Some(seconds) },
        replies: one_reply("Created!".to_owned()),
        next: State::Start,
    }
}

/// The instant of a date that was read, if it was one.
fn read_date(date: &str) -> (res: Option<i64>)
    ensures
        res == date_seconds(date@),
{
    match parse_date(date) {
        Ok(seconds) => Some(seconds),
        Err(_) => None,
    }
}

/// Handles the command that files a cost under an alias at a date.
pub fn cmd_add_cost(cats: &Vec<CategoryRow>, alias: &str, date: &str, amount: &str) -> (res: Step)
    ensures
        res@ == add_cost_step(rows_view(cats@), alias@, date@, amount@),
{
    add_cost_on(cats, alias, read_date(date), amount)
}

/// The step for the command that lists the categories.
pub open spec fn list_categories_step(cats: Seq<CategoryRowView>) -> StepView {
    if cats.len() == 0 {
        say_view("No categories created"@, StateView::Start)
    } else {
        say_view(categories_text(cats), StateView::Start)
    }
}

/// Handles the command that lists the categories.
pub fn cmd_list_categories(cats: &Vec<CategoryRow>) -> (res: Step)
    ensures
        res@ == list_categories_step(rows_view(cats@)),
{
    if cats.len() == 0 {
        say("No categories created", State::Start)
    } else {
        let listing = send_message_with_cats(cats);
        say(listing.as_str(), State::Start)
    }
}

/// The step for the command that reports the current month: the report is
/// asked of the store.
pub open spec fn stat_this_month_step() -> StepView {
    StepView {
        request: RequestView::StatThisMonth,
        replies: Seq::empty(),
        next: StateView::Start,
    }
}

/// Handles the command that reports the current month.
pub fn cmd_stat_this_month() -> (res: Step)
    ensures
        res@ == stat_this_month_step(),
{
    Step { request: Request::StatThisMonth, replies: no_reply(), next: State::Start }
}

/// The step for a report between two dates that were read already: `None`
/// stands for a text that was no date.
pub open spec fn stat_period_decision(date_from: Option<i64>, date_to: Option<i64>) -> StepView {
    match date_from {
        None => say_view("Provide date from in YYYY-MM-DD format"@, StateView::Start),
        Some(from) => match date_to {
            None => say_view("Provide date to in YYYY-MM-DD format"@, StateView::Start),
            Some(to) => StepView {
                request: RequestView::Stat { date_from: Some(from), date_to: Some(to) },
                replies: Seq::empty(),
                next: StateView::Start,
            },
        },
    }
}

/// The step for the command that reports a period between two dates.
pub open spec fn stat_period_step(date_from: Seq<char>, date_to: Seq<char>) -> StepView {
    stat_period_decision(date_seconds(date_from), date_seconds(date_to))
}

/// Decides on a report between two dates that were read already. The first
/// date is looked at first.
pub fn stat_period_between(date_from: Option<i64>, date_to: Option<i64>) -> (res: Step)
    ensures
        res@ == stat_period_decision(date_from, date_to),
{
    let from = match date_from {
        Some(seconds) => seconds,
        None => {
            return say("Provide date from in YYYY-MM-DD format", State::Start);
        },
    };
    let to = match date_to {
        Some(seconds) => seconds,
        None => {
            return say("Provide date to in YYYY-MM-DD format", State::Start);
        },
    };
    Step {
        request: Request::Stat { date_from: Some(from), date_to: Some(to) },
        replies: no_reply(),
        next: State::Start,
    }
}

/// Handles the command that reports a period between two dates.
pub fn cmd_stat_period(date_from: &str, date_to: &str) -> (res: Step)
    ensures
        res@ == stat_period_step(date_from@, date_to@),
{
    stat_period_between(read_date(date_from), read_date(date_to))
}

/// The commands and what they do, as the help command lists them.
pub open spec fn help_text() -> Seq<char> {
    "/help - help\n\
     /start - Start the bot\n\
     /list_categories - List of categories\n\
     /add_category - New category\n\
     /update_category - Update category\n\
     /add_cost - Add cost (alias YYYY-MM-DD XX.XX)\n\
     /remove_last_cost - Remove last cost\n\
     /stat_this_month - Stat this month\n\
     /stat_period - Overall stat in period (YYYY-MM-DD YYYY-MM-DD)"@
}

/// The step for a command. A command counts in every state: whatever flow was
/// under way is dropped.
pub open spec fn command_step(cmd: CommandView, cats: Seq<CategoryRowView>) -> StepView {
    match cmd {
        CommandView::Start => say_view("/help"@, StateView::Start),
        CommandView::ListCategory => list_categories_step(cats),
        CommandView::AddCategory => say_view(
            "Specify category alias"@,
            StateView::NewCategoryReceiveAlias,
        ),
        CommandView::UpdateCategory => StepView {
            request: RequestView::Nothing,
            replies: seq!["Specify alias for category to update"@, categories_text(cats)],
            next: StateView::UpdCategoryReceiveAlias,
        },
        CommandView::AddCost { alias, date, amount } => add_cost_step(cats, alias, date, amount),
        CommandView::RemoveLastCost => StepView {
            request: RequestView::RemoveLastCost,
            replies: Seq::empty(),
            next: StateView::Start,
        },
        CommandView::StatThisMonth => stat_this_month_step(),
        CommandView::StatPeriod { date_from, date_to } => stat_period_step(date_from, date_to),
        CommandView::Help => say_view(help_text(), StateView::Start),
    }
}

/// Handles a command.
pub fn command_handler(cmd: &Command, cats: &Vec<CategoryRow>) -> (res: Step)
    ensures
        res@ == command_step(cmd@, rows_view(cats@)),
{
    match cmd {
        Command::Start => say("/help", State::Start),
        Command::ListCategory => cmd_list_categories(cats),
        Command::AddCategory => say("Specify category alias", State::NewCategoryReceiveAlias),
        Command::UpdateCategory => {
            let mut replies: Vec<String> = Vec::new();
            let prompt = "Specify alias for category to update".to_owned();
            let listing = send_message_with_cats(cats);
            replies.push(prompt);
            replies.push(listing);
            assert(texts(replies@) =~= seq![prompt@, listing@]);
            Step { request: Request::Nothing, replies, next: State::UpdCategoryReceiveAlias }
        },
        Command::AddCost { alias, date, amount } => cmd_add_cost(
            cats,
            alias.as_str(),
            date.as_str(),
            amount.as_str(),
        ),
        Command::RemoveLastCost => Step {
            request: Request::RemoveLastCost,
            replies: no_reply(),
            next: State::Start,
        },
        Command::StatThisMonth => cmd_stat_this_month(),
        Command::StatPeriod { date_from, date_to } => cmd_stat_period(
            date_from.as_str(),
            date_to.as_str(),
        ),
        Command::Help => say(
            "/help - help\n\
             /start - Start the bot\n\
             /list_categories - List of categories\n\
             /add_category - New category\n\
             /update_category - Update category\n\
             /add_cost - Add cost (alias YYYY-MM-DD XX.XX)\n\
             /remove_last_cost - Remove last cost\n\
             /stat_this_month - Stat this month\n\
             /stat_period - Overall stat in period (YYYY-MM-DD YYYY-MM-DD)",
            State::Start,
        ),
    }
}

/// The step for the alias of a new category: an alias that a category already
/// has is refused and asked for again.
pub open spec fn new_category_alias_step(
    text: Option<Seq<char>>,
    cats: Seq<CategoryRowView>,
) -> StepView {
    match text {
        None => say_view("Give an alias for category"@, StateView::NewCategoryReceiveAlias),
        Some(alias) => match resolved(cats, alias) {
            None => say_view("Give full name"@, StateView::NewCategoryReceiveName { alias }),
            Some(row) => say_view(
                "This alias is reserved for "@ + row.category.name,
                StateView::NewCategoryReceiveAlias,
            ),
        },
    }
}

/// Takes the alias of a new category.
pub fn new_category_get_alias(text: Option<&str>, cats: &Vec<CategoryRow>) -> (res: Step)
    ensures
        res@ == new_category_alias_step(text_view(text), rows_view(cats@)),
{
    match text {
        Some(alias) => match resolve(cats, alias) {
            None => say("Give full name", State::NewCategoryReceiveName { alias: alias.to_owned() }),
            Some(row) => {
                let mut report = "This alias is reserved for ".to_owned();
                report.append(row.category.name.as_str());
                say(report.as_str(), State::NewCategoryReceiveAlias)
            },
        },
        None => say("Give an alias for category", State::NewCategoryReceiveAlias),
    }
}

/// The reply to a category that was saved.
pub open spec fn category_saved_text(alias: Seq<char>, name: Seq<char>) -> Seq<char> {
    "Category saved \n\t Alias="@ + alias + " \n\t Name="@ + name
}

/// The step for the name of a new category: the category is created.
pub open spec fn new_category_name_step(alias: Seq<char>, text: Option<Seq<char>>) -> StepView {
    match text {
        None => say_view(
            "Give a name for category"@,
            StateView::NewCategoryReceiveName { alias },
        ),
        Some(name) => StepView {
            request: RequestView::CreateCategory { alias, name },
            replies: seq![category_saved_text(alias, name)],
            next: StateView::Start,
        },
    }
}

/// Takes the name of a new category.
pub fn new_category_get_name(alias: &str, text: Option<&str>) -> (res: Step)
    ensures
        res@ == new_category_name_step(alias@, text_view(text)),
{
    match text {
        Some(name) => {
            let mut report = "Category saved \n\t Alias=".to_owned();
            report.append(alias);
            report.append(" \n\t Name=");
            report.append(name);
            Step {
                request: Request::CreateCategory { alias: alias.to_owned(), name: name.to_owned() },
                replies: one_reply(report),
                next: State::Start,
            }
        },
        None => say(
            "Give a name for category",
            State::NewCategoryReceiveName { alias: alias.to_owned() },
        ),
    }
}

/// The step for the alias of the category to rename: an alias that resolves
/// to no category is asked for again, with the list of categories.
pub open spec fn upd_category_start_step(
    text: Option<Seq<char>>,
    cats: Seq<CategoryRowView>,
) -> StepView {
    match text {
        None => say_view(categories_text(cats), StateView::UpdCategoryReceiveAlias),
        Some(alias) => match resolved(cats, alias) {
            None => say_view(categories_text(cats), StateView::UpdCategoryReceiveAlias),
            Some(_) => say_view(
                "Provide new alias"@,
                StateView::UpdCategoryReceiveNewAlias { alias },
            ),
        },
    }
}

/// Takes the alias of the category to rename.
pub fn upd_category_start(text: Option<&str>, cats: &Vec<CategoryRow>) -> (res: Step)
    ensures
        res@ == upd_category_start_step(text_view(text), rows_view(cats@)),
{
    match text {
        Some(alias) => match resolve(cats, alias) {
            None => {
                let listing = send_message_with_cats(cats);
                say(listing.as_str(), State::UpdCategoryReceiveAlias)
            },
            Some(_) => say(
                "Provide new alias",
                State::UpdCategoryReceiveNewAlias { alias: alias.to_owned() },
            ),
        },
        None => {
            let listing = send_message_with_cats(cats);
            say(listing.as_str(), State::UpdCategoryReceiveAlias)
        },
    }
}

/// The step for the new alias of a category that is renamed.
pub open spec fn upd_category_alias_step(alias: Seq<char>, text: Option<Seq<char>>) -> StepView {
    match text {
        None => say_view("Provide alias name"@, StateView::UpdCategoryReceiveNewAlias { alias }),
        Some(new_alias) => say_view(
            "Provide name"@,
            StateView::UpdCategoryReceiveNewName { alias, new_alias },
        ),
    }
}

/// Takes the new alias of a category that is renamed.
pub fn upd_category_alias(alias: &str, text: Option<&str>) -> (res: Step)
    ensures
        res@ == upd_category_alias_step(alias@, text_view(text)),
{
    match text {
        Some(new_alias) => say(
            "Provide name",
            State::UpdCategoryReceiveNewName {
                alias: alias.to_owned(),
                new_alias: new_alias.to_owned(),
            },
        ),
        None => say(
            "Provide alias name",
            State::UpdCategoryReceiveNewAlias { alias: alias.to_owned() },
        ),
    }
}

/// The step for the new name of a category that is renamed: the category is
/// renamed.
pub open spec fn upd_category_name_step(
    alias: Seq<char>,
    new_alias: Seq<char>,
    text: Option<Seq<char>>,
) -> StepView {
    match text {
        None => say_view(
            "Provide a name"@,
            StateView::UpdCategoryReceiveNewName { alias, new_alias },
        ),
        Some(name) => StepView {
            request: RequestView::UpdateCategory { alias, new_alias, name },
            replies: seq!["Category updated"@],
            next: StateView::Start,
        },
    }
}

/// Takes the new name of a category that is renamed.
pub fn upd_category_name(alias: &str, new_alias: &str, text: Option<&str>) -> (res: Step)
    ensures
        res@ == upd_category_name_step(alias@, new_alias@, text_view(text)),
{
    match text {
        Some(name) => Step {
            request: Request::UpdateCategory {
                alias: alias.to_owned(),
                new_alias: new_alias.to_owned(),
                name: name.to_owned(),
            },
            replies: one_reply("Category updated".to_owned()),
            next: State::Start,
        },
        None => say(
            "Provide a name",
            State::UpdCategoryReceiveNewName {
                alias: alias.to_owned(),
                new_alias: new_alias.to_owned(),
            },
        ),
    }
}

/// The step for the category of a cost whose amount is known: an alias that
/// resolves files the cost, another is asked for again.
pub open spec fn new_cost_alias_step(
    amount: i64,
    text: Option<Seq<char>>,
    cats: Seq<CategoryRowView>,
) -> StepView {
    match text {
        None => say_view(categories_text(cats), StateView::NewCostReceiveAlias { amount }),
        Some(alias) => match resolved(cats, alias) {
            Some(row) => StepView {
                request: RequestView::CreateCost { id: row.id, amount, date: None },
                replies: seq!["Saved"@],
                next: StateView::Start,
            },
            None => say_view(categories_text(cats), StateView::NewCostReceiveAlias { amount }),
        },
    }
}

/// Takes the category of a cost whose amount is known.
pub fn new_cost_get_alias(amount: i64, text: Option<&str>, cats: &Vec<CategoryRow>) -> (res: Step)
    ensures
        res@ == new_cost_alias_step(amount, text_view(text), rows_view(cats@)),
{
    if let Some(alias) = text {
        match resolve(cats, alias) {
            Some(cat) => Step {
                request: Request::CreateCost { id: cat.id, amount, date: None },
                replies: one_reply("Saved".to_owned()),
                next: State::Start,
            },
            None => {
                let listing = send_message_with_cats(cats);
                say(listing.as_str(), State::NewCostReceiveAlias { amount })
            },
        }
    } else {
        let listing = send_message_with_cats(cats);
        say(listing.as_str(), State::NewCostReceiveAlias { amount })
    }
}

/// The step for the amount of a cost whose category is known: a text that
/// reads as an amount files the cost, another is asked for again.
pub open spec fn new_cost_amount_step(id: i64, text: Option<Seq<char>>) -> StepView {
    match text {
        None => silent_view(StateView::NewCostReceiveAmount { id }),
        Some(t) => match parsed_amount(t) {
            Some(amount) => StepView {
                request: RequestView::CreateCost { id, amount, date: None },
                replies: seq!["Created!"@],
                next: StateView::Start,
            },
            None => say_view("Specify amount"@, StateView::NewCostReceiveAmount { id }),
        },
    }
}

/// Takes the amount of a cost whose category is known.
pub fn new_cost_get_amount(id: i64, text: Option<&str>) -> (res: Step)
    ensures
        res@ == new_cost_amount_step(id, text_view(text)),
{
    if let Some(amount_str) = text {
        match parse_amount(amount_str) {
            Some(amount) => Step {
                request: Request::CreateCost { id, amount, date: None },
                replies: one_reply("Created!".to_owned()),
                next: State::Start,
            },
            None => say("Specify amount", State::NewCostReceiveAmount { id }),
        }
    } else {
        silent(State::NewCostReceiveAmount { id })
    }
}

/// The text of an input that is no command.
pub open spec fn input_text(input: InputView) -> Option<Seq<char>> {
    match input {
        InputView::Text(t) => Some(t),
        _ => None,
    }
}

/// The step that an input leads to in a state. A command is handled whatever
/// the state; anything else goes to the flow that the state belongs to, and
/// outside any flow it is scanned for a cost.
pub open spec fn route_step(
    state: StateView,
    input: InputView,
    cats: Seq<CategoryRowView>,
) -> StepView {
    match input {
        InputView::Command(cmd) => command_step(cmd, cats),
        _ => {
            let text = input_text(input);
            match state {
                StateView::Start => msg_step(text, cats),
                StateView::NewCategoryReceiveAlias => new_category_alias_step(text, cats),
                StateView::NewCategoryReceiveName { alias } => new_category_name_step(alias, text),
                StateView::UpdCategoryReceiveAlias => upd_category_start_step(text, cats),
                StateView::UpdCategoryReceiveNewAlias { alias } => upd_category_alias_step(
                    alias,
                    text,
                ),
                StateView::UpdCategoryReceiveNewName { alias, new_alias } => {
                    upd_category_name_step(alias, new_alias, text)
                },
                StateView::NewCostReceiveAlias { amount } => new_cost_alias_step(
                    amount,
                    text,
                    cats,
                ),
                StateView::NewCostReceiveAmount { id } => new_cost_amount_step(id, text),
            }
        },
    }
}

/// Decides the step for an input in a state, given the categories of the
/// chat.
pub fn route(state: &State, input: &Input, cats: &Vec<CategoryRow>) -> (res: Step)
    ensures
        res@ == route_step(state@, input@, rows_view(cats@)),
{
    let text: Option<&str> = match input {
        Input::Command(cmd) => {
            return command_handler(cmd, cats);
        },
        Input::Text(t) => Some(t.as_str()),
        Input::Other => None,
    };
    match state {
        State::Start => msg_handler(text, cats),
        State::NewCategoryReceiveAlias => new_category_get_alias(text, cats),
        State::NewCategoryReceiveName { alias } => new_category_get_name(alias.as_str(), text),
        State::UpdCategoryReceiveAlias => upd_category_start(text, cats),
        State::UpdCategoryReceiveNewAlias { alias } => upd_category_alias(alias.as_str(), text),
        State::UpdCategoryReceiveNewName { alias, new_alias } => upd_category_name(
            alias.as_str(),
            new_alias.as_str(),
            text,
        ),
        State::NewCostReceiveAlias { amount } => new_cost_get_alias(*amount, text, cats),
        State::NewCostReceiveAmount { id } => new_cost_get_amount(*id, text),
    }
}

/// What the ledger store answers to a request.
pub enum Response {
    /// The request was carried out.
    Done,
    /// The last cost was removed and had this id, or there was none.
    Removed(Option<i64>),
    /// The statistic that was asked for.
    Report(Stat),
    /// The alias is taken.
    Conflict,
    /// The store could not carry out the request.
    Failed,
}

/// The mathematical content of a [`Response`].
pub enum ResponseView {
    Done,
    Removed(Option<i64>),
    Report(Seq<StatCategoryView>),
    Conflict,
    Failed,
}

impl View for Response {
    type V = ResponseView;

    open spec fn view(&self) -> ResponseView {
        match self {
            Response::Done => ResponseView::Done,
            Response::Removed(id) => ResponseView::Removed(*id),
            Response::Report(stat) => ResponseView::Report(stat@),
            Response::Conflict => ResponseView::Conflict,
            Response::Failed => ResponseView::Failed,
        }
    }
}

/// How a step ended: the state of the chat and what is replied.
pub struct Turn {
    pub state: State,
    pub replies: Vec<String>,
}

/// The mathematical content of a [`Turn`].
pub struct TurnView {
    pub state: StateView,
    pub replies: Seq<Seq<char>>,
}

impl View for Turn {
    type V = TurnView;

    open spec fn view(&self) -> TurnView {
        TurnView { state: self.state@, replies: texts(self.replies@) }
    }
}

/// The turn after a store that could not do what was asked: the chat keeps its
/// state, so that the same input can be sent again.
pub open spec fn failed_turn(prev: StateView) -> TurnView {
    TurnView { state: prev, replies: seq!["Something went wrong, try again"@] }
}

/// The turn after a store that refused an alias as taken: the chat keeps its
/// state.
pub open spec fn conflict_turn(prev: StateView) -> TurnView {
    TurnView { state: prev, replies: seq!["This alias is reserved"@] }
}

/// The turn that a step ends in, given what the store answered. The step's
/// replies and next state count only where the store did what was asked.
pub open spec fn settle_view(prev: StateView, step: StepView, response: ResponseView) -> TurnView {
    match step.request {
        RequestView::Nothing => TurnView { state: step.next, replies: step.replies },
        RequestView::CreateCategory { .. } | RequestView::UpdateCategory { .. } => match response {
            ResponseView::Done => TurnView { state: step.next, replies: step.replies },
            ResponseView::Conflict => conflict_turn(prev),
            _ => failed_turn(prev),
        },
        RequestView::CreateCost { .. } => match response {
            ResponseView::Done => TurnView { state: step.next, replies: step.replies },
            _ => failed_turn(prev),
        },
        RequestView::RemoveLastCost => match response {
            ResponseView::Removed(Some(_)) => TurnView {
                state: step.next,
                replies: seq!["Removed"@],
            },
            ResponseView::Removed(None) => TurnView {
                state: step.next,
                replies: seq!["Nothing to remove"@],
            },
            _ => failed_turn(prev),
        },
        RequestView::Stat { .. } | RequestView::StatThisMonth => match response {
            ResponseView::Report(groups) => TurnView {
                state: step.next,
                replies: seq![report_text(groups)],
            },
            _ => failed_turn(prev),
        },
    }
}

/// The turn for a store that could not be asked at all: the chat keeps its
/// state and is told of the failure.
pub fn failed(prev: State) -> (res: Turn)
    ensures
        res@ == failed_turn(prev@),
{
    Turn { state: prev, replies: one_reply("Something went wrong, try again".to_owned()) }
}

/// Ends a step: given the state the chat was in, the step, and what the store
/// answered to the step's request, gives the state the chat is in now and
/// what to reply.
pub fn settle(prev: State, step: Step, response: Response) -> (res: Turn)
    ensures
        res@ == settle_view(prev@, step@, response@),
{
    let Step { request, replies, next } = step;
    match request {
        Request::Nothing => Turn { state: next, replies },
        Request::CreateCategory { .. } | Request::UpdateCategory { .. } => match response {
            Response::Done => Turn { state: next, replies },
            Response::Conflict => Turn {
                state: prev,
                replies: one_reply("This alias is reserved".to_owned()),
            },
            _ => failed(prev),
        },
        Request::CreateCost { .. } => match response {
            Response::Done => Turn { state: next, replies },
            _ => failed(prev),
        },
        Request::RemoveLastCost => match response {
            Response::Removed(Some(_)) => Turn {
                state: next,
                replies: one_reply("Removed".to_owned()),
            },
            Response::Removed(None) => Turn {
                state: next,
                replies: one_reply("Nothing to remove".to_owned()),
            },
            _ => failed(prev),
        },
        Request::Stat { .. } | Request::StatThisMonth => match response {
            Response::Report(stat) => Turn { state: next, replies: one_reply(stat.to_string()) },
            _ => failed(prev),
        },
    }
}

/// The answer that stands for the result of a write to the store.
pub open spec fn written<T>(res: Result<T, DBError>) -> ResponseView {
    match res {
        Ok(_) => ResponseView::Done,
        Err(DBError::Conflict) => ResponseView::Conflict,
        Err(_) => ResponseView::Failed,
    }
}

/// The answer that stands for the result of a statistic.
pub open spec fn reported(res: Result<Stat, DBError>) -> ResponseView {
    match res {
        Ok(stat) => ResponseView::Report(stat@),
        Err(_) => ResponseView::Failed,
    }
}

/// What a request to create a category does to the store, and the answer.
pub open spec fn create_category_performed(
    before: DBView,
    after: DBView,
    response: ResponseView,
    chat: i64,
    alias: Seq<char>,
    name: Seq<char>,
) -> bool {
    exists|res: Result<i64, DBError>|
        #[trigger] create_category_outcome(before, after, res, chat, alias, name) && response
            == written(res)
}

/// What a request to rename a category does to the store, and the answer.
pub open spec fn update_category_performed(
    before: DBView,
    after: DBView,
    response: ResponseView,
    chat: i64,
    alias: Seq<char>,
    new_alias: Seq<char>,
    name: Seq<char>,
) -> bool {
    exists|res: Result<(), DBError>|
        #[trigger] update_category_outcome(before, after, res, chat, alias, new_alias, name)
            && response == written(res)
}

/// What a request to file a cost does to the store, and the answer. A cost
/// without a date is dated at some instant, the one at which it was filed.
pub open spec fn create_cost_performed(
    before: DBView,
    after: DBView,
    response: ResponseView,
    id: i64,
    amount: i64,
    date: Option<i64>,
) -> bool {
    exists|res: Result<i64, DBError>, dt: i64|
        (date matches Some(d) ==> dt == d) && #[trigger] create_cost_outcome(
            before,
            after,
            res,
            id,
            amount,
            dt,
        ) && response == written(res)
}

/// The answer to a request for the statistic of the current month: that of
/// the month around some instant, the one at which it was asked.
pub open spec fn month_stat_performed(before: DBView, response: ResponseView, chat: i64) -> bool {
    exists|res: Result<Stat, DBError>, now: i64|
        #[trigger] month_stat_outcome(before, res, chat, now) && response == reported(res)
}

/// What carrying out a request on the store of a chat does to the store, and
/// what is answered.
pub open spec fn perform_outcome(
    before: DBView,
    after: DBView,
    request: RequestView,
    response: ResponseView,
    chat: i64,
) -> bool {
    match request {
        RequestView::Nothing => response == ResponseView::Done && after == before,
        RequestView::CreateCategory { alias, name } => create_category_performed(
            before,
            after,
            response,
            chat,
            alias,
            name,
        ),
        RequestView::UpdateCategory { alias, new_alias, name } => update_category_performed(
            before,
            after,
            response,
            chat,
            alias,
            new_alias,
            name,
        ),
        RequestView::CreateCost { id, amount, date } => create_cost_performed(
            before,
            after,
            response,
            id,
            amount,
            date,
        ),
        RequestView::RemoveLastCost => response matches ResponseView::Removed(removed)
            && remove_last_cost_outcome(before, after, removed, chat),
        RequestView::Stat { date_from, date_to } => after == before && response
            == ResponseView::Report(
            stat_groups(before.categories, before.spendings, chat, date_from, date_to),
        ),
        RequestView::StatThisMonth => after == before && month_stat_performed(
            before,
            response,
            chat,
        ),
    }
}

/// Carries out a request on the store in memory, for one chat.
pub fn perform(db: &mut DB, chat_id: ChatId, request: &Request) -> (res: Response)
    requires
        old(db).wf(),
    ensures
        final(db).wf(),
        perform_outcome(old(db)@, final(db)@, request@, res@, chat_id.0),
{
    let ghost before = db@;
    match request {
        Request::Nothing => Response::Done,
        Request::CreateCategory { alias, name } => {
            let res = db.create_category(chat_id, alias.clone(), name.clone());
            let response = match res {
                Ok(_) => Response::Done,
                Err(DBError::Conflict) => Response::Conflict,
                Err(_) => Response::Failed,
            };
            assert(create_category_outcome(before, db@, res, chat_id.0, alias@, name@)
                && response@ == written(res));
            assert(perform_outcome(before, db@, request@, response@, chat_id.0));
            response
        },
        Request::UpdateCategory { alias, new_alias, name } => {
            let res = db.update_category(chat_id, alias.clone(), new_alias.clone(), name.clone());
            let response = match res {
                Ok(_) => Response::Done,
                Err(DBError::Conflict) => Response::Conflict,
                Err(_) => Response::Failed,
            };
            assert(update_category_outcome(
                before,
                db@,
                res,
                chat_id.0,
                alias@,
                new_alias@,
                name@,
            ) && response@ == written(res));
            assert(perform_outcome(before, db@, request@, response@, chat_id.0));
            response
        },
        Request::CreateCost { id, amount, date } => {
            let res = db.create_cost(*id, *amount, *date);
            let response = match res {
                Ok(_) => Response::Done,
                Err(DBError::Conflict) => Response::Conflict,
                Err(_) => Response::Failed,
            };
            proof {
                let dt = choose|dt: i64|
                    (*date matches Some(d) ==> dt == d) && #[trigger] create_cost_outcome(
                        before,
                        db@,
                        res,
                        *id,
                        *amount,
                        dt,
                    );
                assert(create_cost_outcome(before, db@, res, *id, *amount, dt) && response@
                    == written(res));
            }
            assert(perform_outcome(before, db@, request@, response@, chat_id.0));
            response
        },
        Request::RemoveLastCost => {
            let response = match db.remove_last_cost(chat_id) {
                Ok(removed) => Response::Removed(removed),
                Err(_) => Response::Failed,
            };
            assert(perform_outcome(before, db@, request@, response@, chat_id.0));
            response
        },
        Request::Stat { date_from, date_to } => {
            let response = match db.get_stat(chat_id, *date_from, *date_to) {
                Ok(stat) => Response::Report(stat),
                Err(_) => Response::Failed,
            };
            assert(perform_outcome(before, db@, request@, response@, chat_id.0));
            response
        },
        Request::StatThisMonth => {
            let res = db.get_stat_this_month(chat_id);
            proof {
                let now = choose|now: i64| #[trigger] month_stat_outcome(before, res, chat_id.0, now);
                assert(month_stat_outcome(before, res, chat_id.0, now));
            }
            let ghost kept = res;
            let response = match res {
                Ok(stat) => Response::Report(stat),
                Err(_) => Response::Failed,
            };
            assert(response@ == reported(kept));
            assert(perform_outcome(before, db@, request@, response@, chat_id.0));
            response
        },
    }
}

/// What handling an input does: the step is decided from the state, the input
/// and the categories of the chat; its request is carried out on the store;
/// the turn follows from what the store answered.
pub open spec fn handle_outcome(
    before: DBView,
    after: DBView,
    state: StateView,
    input: InputView,
    chat: i64,
    turn: TurnView,
) -> bool {
    let step = route_step(state, input, rows_of_chat(before.categories, chat));
    exists|response: ResponseView|
        #[trigger] perform_outcome(before, after, step.request, response, chat) && turn
            == settle_view(state, step, response)
}

/// Handles one input of a chat against the store in memory: decides the
/// step, carries out its request, and ends the step.
pub fn handle(db: &mut DB, chat_id: ChatId, state: State, input: &Input) -> (res: Turn)
    requires
        old(db).wf(),
    ensures
        final(db).wf(),
        handle_outcome(old(db)@, final(db)@, state@, input@, chat_id.0, res@),
{
    let cats = match db.get_categories(chat_id) {
        Ok(cats) => cats,
        Err(_) => {
            return failed(state);
        },
    };
    let step = route(&state, input, &cats);
    let response = perform(db, chat_id, &step.request);
    settle(state, step, response)
}

/// Law of the command: a command leads to the same step in every state, so
/// whatever flow was under way is dropped and none of it is kept.
pub proof fn lemma_command_drops_flow(
    state: StateView,
    cmd: CommandView,
    cats: Seq<CategoryRowView>,
)
    ensures
        route_step(state, InputView::Command(cmd), cats) == route_step(
            StateView::Start,
            InputView::Command(cmd),
            cats,
        ),
        route_step(state, InputView::Command(cmd), cats).next is Start || (cmd is AddCategory
            && route_step(state, InputView::Command(cmd), cats).next is NewCategoryReceiveAlias)
            || (cmd is UpdateCategory && route_step(
            state,
            InputView::Command(cmd),
            cats,
        ).next is UpdCategoryReceiveAlias),
{
}

/// Law of completion: a step that asks something of the store completes its
/// flow, so the chat goes back to the start once the store has done it.
pub proof fn lemma_request_completes_flow(
    state: StateView,
    input: InputView,
    cats: Seq<CategoryRowView>,
)
    ensures
        !(route_step(state, input, cats).request is Nothing) ==> route_step(
            state,
            input,
            cats,
        ).next is Start,
{
}

/// Law of failure: where the store fails or refuses, the chat keeps the state
/// it was in, and exactly one reply tells so.
pub proof fn lemma_failure_keeps_state(prev: StateView, step: StepView, response: ResponseView)
    requires
        !(step.request is Nothing),
        response is Failed || response is Conflict,
    ensures
        settle_view(prev, step, response).state == prev,
        settle_view(prev, step, response).replies.len() == 1,
{
}

/// Law of the step without a request: the store is not touched, and the turn
/// is the step's own, whatever the store would have answered.
pub proof fn lemma_nothing_asked_nothing_changed(
    before: DBView,
    after: DBView,
    state: StateView,
    input: InputView,
    chat: i64,
    turn: TurnView,
)
    requires
        handle_outcome(before, after, state, input, chat, turn),
        route_step(state, input, rows_of_chat(before.categories, chat)).request is Nothing,
    ensures
        after == before,
        turn.state == route_step(state, input, rows_of_chat(before.categories, chat)).next,
        turn.replies == route_step(state, input, rows_of_chat(before.categories, chat)).replies,
{
}

/// Law of the new category: from the start, the command for a new category,
/// then an alias that the chat has not taken, then a name, create exactly that
/// category and lead back to the start; nothing else in the store changes.
pub proof fn lemma_new_category_round_trip(
    chat: i64,
    alias: Seq<char>,
    name: Seq<char>,
    v0: DBView,
    v1: DBView,
    v2: DBView,
    v3: DBView,
    t1: TurnView,
    t2: TurnView,
    t3: TurnView,
)
    requires
        ledger_wf(v0),
        !alias_taken(v0.categories, chat, alias),
        v0.last_category_id < i64::MAX,
        handle_outcome(
            v0,
            v1,
            StateView::Start,
            InputView::Command(CommandView::AddCategory),
            chat,
            t1,
        ),
        handle_outcome(v1, v2, t1.state, InputView::Text(alias), chat, t2),
        handle_outcome(v2, v3, t2.state, InputView::Text(name), chat, t3),
    ensures
        t1.state == StateView::NewCategoryReceiveAlias,
        t2.state == (StateView::NewCategoryReceiveName { alias }),
        t3.state == StateView::Start,
        v1 == v0,
        v2 == v0,
        v3 == category_created(v0, chat, alias, name),
        t3.replies == seq![category_saved_text(alias, name)],
{
    lemma_resolve_in_chat(v0, chat, alias);
}

/// Law of the taken alias: in the flow of a new category, an alias that the
/// chat has taken creates nothing, names the category that has it, and leaves
/// the chat waiting for an alias.
pub proof fn lemma_taken_alias_is_refused(
    chat: i64,
    alias: Seq<char>,
    i: int,
    before: DBView,
    after: DBView,
    turn: TurnView,
)
    requires
        ledger_wf(before),
        has_alias(before.categories, chat, alias, i),
        handle_outcome(
            before,
            after,
            StateView::NewCategoryReceiveAlias,
            InputView::Text(alias),
            chat,
            turn,
        ),
    ensures
        after == before,
        turn.state == StateView::NewCategoryReceiveAlias,
        turn.replies == seq!["This alias is reserved for "@ + before.categories[i].category.name],
{
    lemma_resolve_in_chat(before, chat, alias);
}

} // verus!
