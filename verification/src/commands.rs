//! Slash commands: what a line of user text asks for.

use crate::text;
use vstd::prelude::*;
use vstd::string::*;

verus! {

/// What `/goal` is asked to do.
#[derive(Debug, Clone, PartialEq, Eq)]
pub enum GoalSubcommand {
    SetGoal { description: String },
    Edit { description: String },
    Show,
    Pause,
    Resume,
    Clear,
    Budget { tokens: i64 },
}

/// A slash command.
#[derive(Debug, Clone, PartialEq, Eq)]
pub enum Command {
    ResetContext,
    Compact { instructions: Option<String> },
    Summarize,
    ModelsUse { model_id: String },
    Models { query: Option<String> },
    Model { model_id: Option<String> },
    Goal { subcommand: GoalSubcommand },
    ReviewSkill { scope: Option<String> },
    Help { command: Option<String> },
    Tools,
    Resume { selector: Option<String> },
    Undo,
    Retry,
    History { count: Option<usize> },
    Exit,
}

/// The mathematical value of a [`GoalSubcommand`].
pub enum GoalSubcommandView {
    SetGoal { description: Seq<char> },
    Edit { description: Seq<char> },
    Show,
    Pause,
    Resume,
    Clear,
    Budget { tokens: i64 },
}

/// The mathematical value of a [`Command`].
pub enum CommandView {
    ResetContext,
    Compact { instructions: Option<Seq<char>> },
    Summarize,
    ModelsUse { model_id: Seq<char> },
    Models { query: Option<Seq<char>> },
    Model { model_id: Option<Seq<char>> },
    Goal { subcommand: GoalSubcommandView },
    ReviewSkill { scope: Option<Seq<char>> },
    Help { command: Option<Seq<char>> },
    Tools,
    Resume { selector: Option<Seq<char>> },
    Undo,
    Retry,
    History { count: Option<nat> },
    Exit,
}

impl View for GoalSubcommand {
    type V = GoalSubcommandView;

    open spec fn view(&self) -> GoalSubcommandView {
        match self {
            GoalSubcommand::SetGoal { description } => GoalSubcommandView::SetGoal {
                description: description@,
            },
            GoalSubcommand::Edit { description } => GoalSubcommandView::Edit {
                description: description@,
            },
            GoalSubcommand::Show => GoalSubcommandView::Show,
            GoalSubcommand::Pause => GoalSubcommandView::Pause,
            GoalSubcommand::Resume => GoalSubcommandView::Resume,
            GoalSubcommand::Clear => GoalSubcommandView::Clear,
            GoalSubcommand::Budget { tokens } => GoalSubcommandView::Budget { tokens: *tokens },
        }
    }
}

impl View for Command {
    type V = CommandView;

    open spec fn view(&self) -> CommandView {
        match self {
            Command::ResetContext => CommandView::ResetContext,
            Command::Compact { instructions } => CommandView::Compact {
                instructions: text::opt_text(*instructions),
            },
            Command::Summarize => CommandView::Summarize,
            Command::ModelsUse { model_id } => CommandView::ModelsUse { model_id: model_id@ },
            Command::Models { query } => CommandView::Models { query: text::opt_text(*query) },
            Command::Model { model_id } => CommandView::Model { model_id: text::opt_text(*model_id) },
            Command::Goal { subcommand } => CommandView::Goal { subcommand: subcommand@ },
            Command::ReviewSkill { scope } => CommandView::ReviewSkill { scope: text::opt_text(*scope) },
            Command::Help { command } => CommandView::Help { command: text::opt_text(*command) },
            Command::Tools => CommandView::Tools,
            Command::Resume { selector } => CommandView::Resume { selector: text::opt_text(*selector) },
            Command::Undo => CommandView::Undo,
            Command::Retry => CommandView::Retry,
            Command::History { count } => CommandView::History {
                count: match count {
                    Some(n) => Some(*n as nat),
                    None => None,
                },
            },
            Command::Exit => CommandView::Exit,
        }
    }
}

/// The argument in `s`: what is left of it after trimming, if anything.
pub open spec fn argument(s: Seq<char>) -> Option<Seq<char>> {
    if text::trimmed(s).len() == 0 {
        None
    } else {
        Some(text::trimmed(s))
    }
}

/// What `/goal` followed by the trimmed text `rest` asks for. The keyword ends
/// at the first blank; a text that opens with no keyword is the objective
/// itself.
pub open spec fn parsed_goal(rest: Seq<char>) -> Option<GoalSubcommandView> {
    let k = text::len_before(rest, ' ') as int;
    let head = rest.take(k);
    let tail = if k < rest.len() {
        text::trimmed(rest.skip(k + 1))
    } else {
        Seq::empty()
    };
    if rest.len() == 0 {
        Some(GoalSubcommandView::Show)
    } else if head == "set"@ {
        if tail.len() == 0 {
            None
        } else {
            Some(GoalSubcommandView::SetGoal { description: tail })
        }
    } else if head == "edit"@ {
        if tail.len() == 0 {
            None
        } else {
            Some(GoalSubcommandView::Edit { description: tail })
        }
    } else if head == "show"@ {
        Some(GoalSubcommandView::Show)
    } else if head == "pause"@ {
        Some(GoalSubcommandView::Pause)
    } else if head == "resume"@ {
        Some(GoalSubcommandView::Resume)
    } else if head == "clear"@ {
        Some(GoalSubcommandView::Clear)
    } else {
        Some(GoalSubcommandView::SetGoal { description: rest })
    }
}

/// What `/models` followed by `rest` asks for.
pub open spec fn parsed_models(rest: Seq<char>) -> CommandView {
    match argument(rest) {
        Some(q) => if "use "@.is_prefix_of(q) {
            CommandView::ModelsUse { model_id: text::trimmed(q.skip("use "@.len() as int)) }
        } else {
            CommandView::Models { query: Some(q) }
        },
        None => CommandView::Models { query: None },
    }
}

/// What a line of text asks for: its first word names the command, the rest is
/// the argument. `/review-skill` is cut off as a prefix, so the plural form
/// leaves its last letter in the scope.
pub open spec fn parsed(text: Seq<char>) -> Option<CommandView> {
    let t = text::trimmed(text);
    let token = t.take(text::word_len(t) as int);
    let rest = t.skip(text::word_len(t) as int);
    if token == "/reset"@ || token == "/clear"@ || token == "/new"@ {
        Some(CommandView::ResetContext)
    } else if token == "/compact"@ {
        Some(CommandView::Compact { instructions: argument(rest) })
    } else if token == "/summarize"@ {
        Some(CommandView::Summarize)
    } else if token == "/models"@ {
        Some(parsed_models(rest))
    } else if token == "/model"@ {
        Some(CommandView::Model { model_id: argument(rest) })
    } else if token == "/goal"@ {
        match parsed_goal(text::trimmed(rest)) {
            Some(subcommand) => Some(CommandView::Goal { subcommand }),
            None => None,
        }
    } else if token == "/review-skill"@ || token == "/review-skills"@ {
        Some(CommandView::ReviewSkill { scope: argument(t.skip("/review-skill"@.len() as int)) })
    } else if token == "/rs"@ {
        Some(CommandView::ReviewSkill { scope: argument(rest) })
    } else if token == "/help"@ || token == "/?"@ {
        Some(CommandView::Help { command: argument(rest) })
    } else if token == "/tools"@ {
        Some(CommandView::Tools)
    } else if token == "/resume"@ {
        Some(CommandView::Resume { selector: argument(rest) })
    } else if token == "/undo"@ {
        Some(CommandView::Undo)
    } else if token == "/retry"@ {
        Some(CommandView::Retry)
    } else if token == "/history"@ {
        Some(CommandView::History { count: text::unsigned_value(text::trimmed(rest), usize::MAX as nat) })
    } else if token == "/exit"@ || token == "/quit"@ {
        Some(CommandView::Exit)
    } else {
        None
    }
}

fn parse_argument(s: &str) -> (r: Option<String>)
    ensures
        text::opt_text(r) == argument(s@),
{
    let t: &str = text::trim(s);
    if t.is_empty() {
        None
    } else {
        Some(t.to_owned())
    }
}

fn parse_goal(rest: &str) -> (r: Option<GoalSubcommand>)
    ensures
        match parsed_goal(rest@) {
            Some(v) => r is Some && r->0@ == v,
            None => r is None,
        },
{
    if rest.is_empty() {
        return Some(GoalSubcommand::Show);
    }
    let (head, tail): (&str, &str) = match text::split_once(rest, ' ') {
        Some((head, tail)) => (head, text::trim(tail)),
        None => {
            assert(rest@.take(rest@.len() as int) == rest@);
            (rest, text::skip_chars(rest, rest.unicode_len()))
        },
    };
    if text::same(head, "set") || text::same(head, "edit") {
        if tail.is_empty() {
            None
        } else if text::same(head, "set") {
            Some(GoalSubcommand::SetGoal { description: tail.to_owned() })
        } else {
            Some(GoalSubcommand::Edit { description: tail.to_owned() })
        }
    } else if text::same(head, "show") {
        Some(GoalSubcommand::Show)
    } else if text::same(head, "pause") {
        Some(GoalSubcommand::Pause)
    } else if text::same(head, "resume") {
        Some(GoalSubcommand::Resume)
    } else if text::same(head, "clear") {
        Some(GoalSubcommand::Clear)
    } else {
        Some(GoalSubcommand::SetGoal { description: rest.to_owned() })
    }
}

fn parse_models(rest: &str) -> (r: Command)
    ensures
        r@ == parsed_models(rest@),
{
    let q: &str = text::trim(rest);
    if q.is_empty() {
        return Command::Models { query: None };
    }
    match text::strip_prefix(q, "use ") {
        Some(id) => Command::ModelsUse { model_id: text::trim(id).to_owned() },
        None => Command::Models { query: Some(q.to_owned()) },
    }
}

/// Reads a line of user text as a command; `None` when it is an ordinary
/// message.
pub fn parse(text: &str) -> (r: Option<Command>)
    ensures
        match parsed(text@) {
            Some(v) => r is Some && r->0@ == v,
            None => r is None,
        },
{
    let t: &str = text::trim(text);
    let token: &str = text::first_word(t);
    let rest: &str = text::skip_chars(t, token.unicode_len());
    if text::same(token, "/reset") || text::same(token, "/clear") || text::same(token, "/new") {
        Some(Command::ResetContext)
    } else if text::same(token, "/compact") {
        Some(Command::Compact { instructions: parse_argument(rest) })
    } else if text::same(token, "/summarize") {
        Some(Command::Summarize)
    } else if text::same(token, "/models") {
        Some(parse_models(rest))
    } else if text::same(token, "/model") {
        Some(Command::Model { model_id: parse_argument(rest) })
    } else if text::same(token, "/goal") {
        match parse_goal(text::trim(rest)) {
            Some(subcommand) => Some(Command::Goal { subcommand }),
            None => None,
        }
    } else if text::same(token, "/review-skill") || text::same(token, "/review-skills") {
        proof {
            reveal_strlit("/review-skill");
            reveal_strlit("/review-skills");
        }
        Some(Command::ReviewSkill { scope: parse_argument(text::skip_chars(t, 13)) })
    } else if text::same(token, "/rs") {
        Some(Command::ReviewSkill { scope: parse_argument(rest) })
    } else if text::same(token, "/help") || text::same(token, "/?") {
        Some(Command::Help { command: parse_argument(rest) })
    } else if text::same(token, "/tools") {
        Some(Command::Tools)
    } else if text::same(token, "/resume") {
        Some(Command::Resume { selector: parse_argument(rest) })
    } else if text::same(token, "/undo") {
        Some(Command::Undo)
    } else if text::same(token, "/retry") {
        Some(Command::Retry)
    } else if text::same(token, "/history") {
        Some(Command::History { count: text::parse_usize(text::trim(rest)) })
    } else if text::same(token, "/exit") || text::same(token, "/quit") {
        Some(Command::Exit)
    } else {
        None
    }
}

/// How the names of the commands differ.
proof fn lemma_names()
    ensures
        "/reset"@.len() == 6 && "/reset"@[1] == 'r' && "/reset"@[2] == 'e' && "/reset"@[3] == 's',
        "/clear"@.len() == 6 && "/clear"@[1] == 'c' && "/clear"@[2] == 'l' && "/clear"@[3] == 'e',
        "/new"@.len() == 4 && "/new"@[1] == 'n' && "/new"@[2] == 'e' && "/new"@[3] == 'w',
        "/compact"@.len() == 8 && "/compact"@[1] == 'c' && "/compact"@[2] == 'o' && "/compact"@[3] == 'm',
        "/summarize"@.len() == 10 && "/summarize"@[1] == 's' && "/summarize"@[2] == 'u' && "/summarize"@[3] == 'm',
        "/models"@.len() == 7 && "/models"@[1] == 'm' && "/models"@[2] == 'o' && "/models"@[3] == 'd',
        "/model"@.len() == 6 && "/model"@[1] == 'm' && "/model"@[2] == 'o' && "/model"@[3] == 'd',
        "/goal"@.len() == 5 && "/goal"@[1] == 'g' && "/goal"@[2] == 'o' && "/goal"@[3] == 'a',
        "/review-skill"@.len() == 13 && "/review-skill"@[1] == 'r' && "/review-skill"@[2] == 'e' && "/review-skill"@[3] == 'v',
        "/review-skills"@.len() == 14 && "/review-skills"@[1] == 'r' && "/review-skills"@[2] == 'e' && "/review-skills"@[3] == 'v',
        "/rs"@.len() == 3 && "/rs"@[1] == 'r' && "/rs"@[2] == 's',
        "/help"@.len() == 5 && "/help"@[1] == 'h' && "/help"@[2] == 'e' && "/help"@[3] == 'l',
        "/?"@.len() == 2 && "/?"@[1] == '?',
        "/tools"@.len() == 6 && "/tools"@[1] == 't' && "/tools"@[2] == 'o' && "/tools"@[3] == 'o',
        "/resume"@.len() == 7 && "/resume"@[1] == 'r' && "/resume"@[2] == 'e' && "/resume"@[3] == 's',
        "/undo"@.len() == 5 && "/undo"@[1] == 'u' && "/undo"@[2] == 'n' && "/undo"@[3] == 'd',
        "/retry"@.len() == 6 && "/retry"@[1] == 'r' && "/retry"@[2] == 'e' && "/retry"@[3] == 't',
        "/history"@.len() == 8 && "/history"@[1] == 'h' && "/history"@[2] == 'i' && "/history"@[3] == 's',
        "/exit"@.len() == 5 && "/exit"@[1] == 'e' && "/exit"@[2] == 'x' && "/exit"@[3] == 'i',
        "/quit"@.len() == 5 && "/quit"@[1] == 'q' && "/quit"@[2] == 'u' && "/quit"@[3] == 'i',
{
    reveal_strlit("/reset");
    reveal_strlit("/clear");
    reveal_strlit("/new");
    reveal_strlit("/compact");
    reveal_strlit("/summarize");
    reveal_strlit("/models");
    reveal_strlit("/model");
    reveal_strlit("/goal");
    reveal_strlit("/review-skill");
    reveal_strlit("/review-skills");
    reveal_strlit("/rs");
    reveal_strlit("/help");
    reveal_strlit("/?");
    reveal_strlit("/tools");
    reveal_strlit("/resume");
    reveal_strlit("/undo");
    reveal_strlit("/retry");
    reveal_strlit("/history");
    reveal_strlit("/exit");
    reveal_strlit("/quit");
}

/// How the words of `/goal` differ.
proof fn lemma_goal_words()
    ensures
        "set"@.len() == 3 && "set"@[0] == 's',
        "edit"@.len() == 4 && "edit"@[0] == 'e',
        "show"@.len() == 4 && "show"@[0] == 's',
        "pause"@.len() == 5 && "pause"@[0] == 'p',
        "resume"@.len() == 6 && "resume"@[0] == 'r',
        "clear"@.len() == 5 && "clear"@[0] == 'c',
{
    reveal_strlit("set");
    reveal_strlit("edit");
    reveal_strlit("show");
    reveal_strlit("pause");
    reveal_strlit("resume");
    reveal_strlit("clear");
}

/// Whether `s` holds no white space.
spec fn plain(s: Seq<char>) -> bool {
    forall|i: int| 0 <= i < s.len() ==> !text::is_white(#[trigger] s[i])
}

/// The names of the commands hold no white space.
proof fn lemma_plain_names()
    ensures
        plain("/reset"@),
        plain("/clear"@),
        plain("/new"@),
        plain("/compact"@),
        plain("/summarize"@),
        plain("/models"@),
        plain("/model"@),
        plain("/goal"@),
        plain("/review-skill"@),
        plain("/review-skills"@),
        plain("/rs"@),
        plain("/help"@),
        plain("/?"@),
        plain("/tools"@),
        plain("/resume"@),
        plain("/undo"@),
        plain("/retry"@),
        plain("/history"@),
        plain("/exit"@),
        plain("/quit"@),
{
    reveal_strlit("/reset");
    reveal_strlit("/clear");
    reveal_strlit("/new");
    reveal_strlit("/compact");
    reveal_strlit("/summarize");
    reveal_strlit("/models");
    reveal_strlit("/model");
    reveal_strlit("/goal");
    reveal_strlit("/review-skill");
    reveal_strlit("/review-skills");
    reveal_strlit("/rs");
    reveal_strlit("/help");
    reveal_strlit("/?");
    reveal_strlit("/tools");
    reveal_strlit("/resume");
    reveal_strlit("/undo");
    reveal_strlit("/retry");
    reveal_strlit("/history");
    reveal_strlit("/exit");
    reveal_strlit("/quit");
}

/// A line of a command and an argument.
proof fn lemma_line(name: Seq<char>, body: Seq<char>)
    requires
        name.len() > 0,
        forall|i: int| 0 <= i < name.len() ==> !text::is_white(#[trigger] name[i]),
        body.len() > 0,
        text::trimmed(body) == body,
    ensures
        ({
            let line = name + " "@ + body;
            let rest = line.skip(text::word_len(line) as int);
            &&& text::trimmed(line) == line
            &&& text::word_len(line) == name.len()
            &&& line.take(text::word_len(line) as int) == name
            &&& rest == " "@ + body
            &&& text::trimmed(rest) == body
            &&& argument(rest) == Some(body)
        }),
{
    reveal_strlit(" ");
    let none = Seq::<char>::empty();
    let line = name + " "@ + body;
    let rest = " "@ + body;
    text::lemma_trimmed_ends(body);
    assert(line =~= name + rest);
    assert(line[0] == name[0]);
    assert(line.last() == body.last());
    text::law_trimming_takes_the_middle(none, line, none);
    assert(none + line + none =~= line);
    assert(rest[0] == ' ');
    text::law_first_word_ends_at_white_space(name, rest);
    assert(line.take(name.len() as int) =~= name);
    assert(line.skip(name.len() as int) =~= rest);
    text::law_trimming_takes_the_middle(" "@, body, none);
    assert(" "@ + body + none =~= rest);
}

/// A line of a command alone.
proof fn lemma_bare_line(name: Seq<char>)
    requires
        name.len() > 0,
        forall|i: int| 0 <= i < name.len() ==> !text::is_white(#[trigger] name[i]),
    ensures
        text::trimmed(name) == name,
        text::word_len(name) == name.len(),
        name.take(name.len() as int) == name,
        name.skip(name.len() as int).len() == 0,
        text::trimmed(name.skip(name.len() as int)).len() == 0,
{
    let none = Seq::<char>::empty();
    text::law_trimming_takes_the_middle(none, name, none);
    assert(none + name + none =~= name);
    text::law_first_word_ends_at_white_space(name, none);
    assert(name + none =~= name);
    assert(name.take(name.len() as int) =~= name);
    assert(name.skip(name.len() as int) =~= none);
    assert(text::trimmed(none) =~= none);
}

/// A text behind `/goal` that opens with none of its words is the objective, all of it
/// and however many words it has.
pub proof fn law_bare_text_is_the_objective(word: Seq<char>, rest: Seq<char>)
    requires
        text::trimmed(word + rest) == word + rest,
        word.len() > 0,
        !word.contains(' '),
        rest.len() > 0 ==> rest[0] == ' ',
        word != "set"@ && word != "edit"@ && word != "show"@ && word != "pause"@,
        word != "resume"@ && word != "clear"@,
    ensures
        parsed("/goal"@ + " "@ + (word + rest)) == Some(
            CommandView::Goal {
                subcommand: GoalSubcommandView::SetGoal { description: word + rest },
            },
        ),
{
    lemma_names();
    lemma_plain_names();
    lemma_line("/goal"@, word + rest);
    text::law_part_ends_at_separator(word, rest, ' ');
    assert((word + rest).take(word.len() as int) =~= word);
}

/// `/goal set` and `/goal edit` take the text behind them, and mean nothing without
/// one.
pub proof fn law_set_and_edit_take_a_text(text: Seq<char>)
    requires
        text.len() > 0,
        text::trimmed(text) == text,
    ensures
        parsed("/goal"@ + " "@ + ("set"@ + (" "@ + text))) == Some(
            CommandView::Goal { subcommand: GoalSubcommandView::SetGoal { description: text } },
        ),
        parsed("/goal"@ + " "@ + ("edit"@ + (" "@ + text))) == Some(
            CommandView::Goal { subcommand: GoalSubcommandView::Edit { description: text } },
        ),
        parsed("/goal"@ + " "@ + "set"@) is None,
        parsed("/goal"@ + " "@ + "edit"@) is None,
{
    lemma_names();
    lemma_plain_names();
    lemma_goal_words();
    lemma_goal_word("set"@, text);
    lemma_goal_word("edit"@, text);
}

/// A word of `/goal` with or without a text behind it.
proof fn lemma_goal_word(word: Seq<char>, text: Seq<char>)
    requires
        word == "set"@ || word == "edit"@ || word == "show"@ || word == "pause"@ || word == "resume"@
            || word == "clear"@,
        text.len() > 0,
        text::trimmed(text) == text,
    ensures
        ({
            let k = text::len_before(word + (" "@ + text), ' ') as int;
            let body = word + (" "@ + text);
            &&& k == word.len()
            &&& body.take(k) == word
            &&& text::trimmed(body.skip(k + 1)) == text
            &&& body.len() > k
            &&& parsed("/goal"@ + " "@ + body) == match parsed_goal(body) {
                Some(subcommand) => Some(CommandView::Goal { subcommand }),
                None => None,
            }
        }),
        text::len_before(word, ' ') == word.len(),
        word.take(word.len() as int) == word,
        parsed("/goal"@ + " "@ + word) == match parsed_goal(word) {
            Some(subcommand) => Some(CommandView::Goal { subcommand }),
            None => None,
        },
{
    lemma_names();
    lemma_plain_names();
    reveal_strlit(" ");
    reveal_strlit("set");
    reveal_strlit("edit");
    reveal_strlit("show");
    reveal_strlit("pause");
    reveal_strlit("resume");
    reveal_strlit("clear");
    let none = Seq::<char>::empty();
    let body = word + (" "@ + text);
    assert forall|i: int| 0 <= i < word.len() implies word[i] != ' ' && !text::is_white(word[i]) by {
    }
    text::lemma_trimmed_ends(text);
    assert(body[0] == word[0]);
    assert(body.last() == text.last());
    text::law_trimming_takes_the_middle(none, body, none);
    assert(none + body + none =~= body);
    text::law_trimming_takes_the_middle(none, word, none);
    assert(none + word + none =~= word);
    lemma_line("/goal"@, body);
    lemma_line("/goal"@, word);
    text::law_part_ends_at_separator(word, " "@ + text, ' ');
    text::law_part_ends_at_separator(word, none, ' ');
    assert(word + none =~= word);
    assert(body.take(word.len() as int) =~= word);
    assert(word.take(word.len() as int) =~= word);
    assert(body.skip(word.len() as int + 1) =~= text);
}

/// `/goal show`, `pause`, `resume` and `clear` ask for what they say, whatever stands
/// behind them, and `/goal` alone shows the goal.
pub proof fn law_words_of_goal(text: Seq<char>)
    requires
        text.len() > 0,
        text::trimmed(text) == text,
    ensures
        asks_goal("/goal"@, GoalSubcommandView::Show),
        asks_goal("/goal"@ + " "@ + "show"@, GoalSubcommandView::Show),
        asks_goal("/goal"@ + " "@ + "pause"@, GoalSubcommandView::Pause),
        asks_goal("/goal"@ + " "@ + "resume"@, GoalSubcommandView::Resume),
        asks_goal("/goal"@ + " "@ + "clear"@, GoalSubcommandView::Clear),
        asks_goal("/goal"@ + " "@ + ("show"@ + (" "@ + text)), GoalSubcommandView::Show),
        asks_goal("/goal"@ + " "@ + ("pause"@ + (" "@ + text)), GoalSubcommandView::Pause),
        asks_goal("/goal"@ + " "@ + ("resume"@ + (" "@ + text)), GoalSubcommandView::Resume),
        asks_goal("/goal"@ + " "@ + ("clear"@ + (" "@ + text)), GoalSubcommandView::Clear),
{
    lemma_names();
    lemma_plain_names();
    lemma_goal_words();
    lemma_bare_line("/goal"@);
    lemma_goal_word("show"@, text);
    lemma_goal_word("pause"@, text);
    lemma_goal_word("resume"@, text);
    lemma_goal_word("clear"@, text);
}

/// Whether a line asks `/goal` for `sub`.
pub open spec fn asks_goal(line: Seq<char>, sub: GoalSubcommandView) -> bool {
    parsed(line) == Some(CommandView::Goal { subcommand: sub })
}

/// White space around a line makes no difference.
pub proof fn law_white_space_around_a_line(line: Seq<char>)
    ensures
        parsed(text::trimmed(line)) == parsed(line),
{
    text::lemma_trimmed_idempotent(line);
}

/// A line that does not begin with a slash is no command.
pub proof fn law_messages_are_no_commands(line: Seq<char>)
    requires
        text::trimmed(line).len() == 0 || text::trimmed(line)[0] != '/',
    ensures
        parsed(line) is None,
{
    reveal_strlit("/reset");
    reveal_strlit("/clear");
    reveal_strlit("/new");
    reveal_strlit("/compact");
    reveal_strlit("/summarize");
    reveal_strlit("/models");
    reveal_strlit("/model");
    reveal_strlit("/goal");
    reveal_strlit("/review-skill");
    reveal_strlit("/review-skills");
    reveal_strlit("/rs");
    reveal_strlit("/help");
    reveal_strlit("/?");
    reveal_strlit("/tools");
    reveal_strlit("/resume");
    reveal_strlit("/undo");
    reveal_strlit("/retry");
    reveal_strlit("/history");
    reveal_strlit("/exit");
    reveal_strlit("/quit");
    let t = text::trimmed(line);
    text::lemma_first_where(t, |c: char| text::is_white(c));
    let token = t.take(text::word_len(t) as int);
    if token.len() > 0 {
        assert(token[0] == t[0]);
    }
    assert("/reset"@[0] == '/');
    assert("/clear"@[0] == '/');
    assert("/new"@[0] == '/');
    assert("/compact"@[0] == '/');
    assert("/summarize"@[0] == '/');
    assert("/models"@[0] == '/');
    assert("/model"@[0] == '/');
    assert("/goal"@[0] == '/');
    assert("/review-skill"@[0] == '/');
    assert("/review-skills"@[0] == '/');
    assert("/rs"@[0] == '/');
    assert("/help"@[0] == '/');
    assert("/?"@[0] == '/');
    assert("/tools"@[0] == '/');
    assert("/resume"@[0] == '/');
    assert("/undo"@[0] == '/');
    assert("/retry"@[0] == '/');
    assert("/history"@[0] == '/');
    assert("/exit"@[0] == '/');
    assert("/quit"@[0] == '/');
}

/// Commands that take an argument take all that stands behind them, and none where
/// nothing does.
pub proof fn law_commands_take_their_argument(arg: Seq<char>)
    requires
        arg.len() > 0,
        text::trimmed(arg) == arg,
    ensures
        parsed("/compact"@ + " "@ + arg) == Some(CommandView::Compact { instructions: Some(arg) }),
        parsed("/compact"@) == Some(CommandView::Compact { instructions: None }),
        parsed("/model"@ + " "@ + arg) == Some(CommandView::Model { model_id: Some(arg) }),
        parsed("/model"@) == Some(CommandView::Model { model_id: None }),
        parsed("/rs"@ + " "@ + arg) == Some(CommandView::ReviewSkill { scope: Some(arg) }),
        parsed("/rs"@) == Some(CommandView::ReviewSkill { scope: None }),
        parsed("/review-skill"@ + " "@ + arg) == Some(CommandView::ReviewSkill { scope: Some(arg) }),
        parsed("/review-skill"@) == Some(CommandView::ReviewSkill { scope: None }),
        parsed("/help"@ + " "@ + arg) == Some(CommandView::Help { command: Some(arg) }),
        parsed("/help"@) == Some(CommandView::Help { command: None }),
        parsed("/?"@ + " "@ + arg) == Some(CommandView::Help { command: Some(arg) }),
        parsed("/resume"@ + " "@ + arg) == Some(CommandView::Resume { selector: Some(arg) }),
        parsed("/resume"@) == Some(CommandView::Resume { selector: None }),
        parsed("/models"@) == Some(CommandView::Models { query: None }),
        !("use "@.is_prefix_of(arg)) ==> parsed("/models"@ + " "@ + arg) == Some(
            CommandView::Models { query: Some(arg) },
        ),
        parsed("/models"@ + " "@ + ("use "@ + arg)) == Some(CommandView::ModelsUse { model_id: arg }),
{
    lemma_names();
    lemma_plain_names();
    lemma_line("/compact"@, arg);
    lemma_line("/model"@, arg);
    lemma_line("/rs"@, arg);
    lemma_line("/review-skill"@, arg);
    lemma_line("/help"@, arg);
    lemma_line("/?"@, arg);
    lemma_line("/resume"@, arg);
    lemma_line("/models"@, arg);
    lemma_bare_line("/compact"@);
    lemma_bare_line("/model"@);
    lemma_bare_line("/rs"@);
    lemma_bare_line("/review-skill"@);
    lemma_bare_line("/help"@);
    lemma_bare_line("/resume"@);
    lemma_bare_line("/models"@);
    reveal_strlit("use ");
    reveal_strlit(" ");
    let used = "use "@ + arg;
    let none = Seq::<char>::empty();
    text::lemma_trimmed_ends(arg);
    assert(used[0] == 'u');
    assert(used.last() == arg.last());
    text::law_trimming_takes_the_middle(none, used, none);
    assert(none + used + none =~= used);
    lemma_line("/models"@, used);
    assert(used.subrange(0, 4) =~= "use "@);
    assert(used.skip(4) =~= arg);
}

/// Commands that take no argument, and the names that mean the same.
pub proof fn law_plain_commands(arg: Seq<char>, n: int)
    requires
        arg.len() > 0,
        text::trimmed(arg) == arg,
        0 <= n <= i64::MAX,
        n <= usize::MAX,
    ensures
        parsed("/reset"@) == Some(CommandView::ResetContext),
        parsed("/clear"@) == Some(CommandView::ResetContext),
        parsed("/new"@) == Some(CommandView::ResetContext),
        parsed("/new"@ + " "@ + arg) == Some(CommandView::ResetContext),
        parsed("/summarize"@) == Some(CommandView::Summarize),
        parsed("/tools"@) == Some(CommandView::Tools),
        parsed("/undo"@) == Some(CommandView::Undo),
        parsed("/retry"@) == Some(CommandView::Retry),
        parsed("/exit"@) == Some(CommandView::Exit),
        parsed("/quit"@) == Some(CommandView::Exit),
        parsed("/history"@) == Some(CommandView::History { count: None }),
        parsed("/history"@ + " "@ + text::int_text(n)) == Some(
            CommandView::History { count: Some(n as nat) },
        ),
{
    lemma_names();
    lemma_plain_names();
    lemma_bare_line("/reset"@);
    lemma_bare_line("/clear"@);
    lemma_bare_line("/new"@);
    lemma_bare_line("/summarize"@);
    lemma_bare_line("/tools"@);
    lemma_bare_line("/undo"@);
    lemma_bare_line("/retry"@);
    lemma_bare_line("/exit"@);
    lemma_bare_line("/quit"@);
    lemma_bare_line("/history"@);
    lemma_line("/new"@, arg);
    let digits = text::int_text(n);
    text::law_number_reads_back(n);
    text::lemma_nat_text_reads_back(n as nat);
    let none = Seq::<char>::empty();
    assert(text::is_digit(digits[0]) && text::is_digit(digits[digits.len() - 1]));
    text::law_trimming_takes_the_middle(none, digits, none);
    assert(none + digits + none =~= digits);
    lemma_line("/history"@, digits);
    assert(digits.skip(0) =~= digits);
    let empty = text::trimmed("/history"@.skip("/history"@.len() as int));
    assert(empty.skip(0).len() == 0);
}

} // verus!
