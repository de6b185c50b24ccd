//! The interactive command grammar and the session state machine that
//! decides what each command line does.
use vstd::prelude::*;
use vstd::string::StrSliceExecFns;
use crate::registry::TableRegistry;
use crate::table::Table;

verus! {

/// `a` equals the lower-case ASCII character `b`, ignoring ASCII case.
pub open spec fn eq_ignore_case(a: char, b: char) -> bool {
    a == b || ('A' <= a && a <= 'Z' && a as u32 + 32 == b as u32)
}

/// `word` spells the lower-case keyword `kw`, ignoring ASCII case.
pub open spec fn matches_keyword(word: Seq<char>, kw: Seq<char>) -> bool {
    word.len() == kw.len() && forall|k: int| 0 <= k < kw.len() ==> eq_ignore_case(#[trigger] word[k], kw[k])
}

/// Position `i` holds the first space of `line`.
pub open spec fn is_first_space(line: Seq<char>, i: int) -> bool {
    &&& 0 <= i < line.len()
    &&& line[i] == ' '
    &&& forall|j: int| 0 <= j < i ==> #[trigger] line[j] != ' '
}

pub open spec fn kw_file() -> Seq<char> {
    seq!['f', 'i', 'l', 'e']
}

pub open spec fn kw_table_name() -> Seq<char> {
    seq!['t', 'a', 'b', 'l', 'e', '_', 'n', 'a', 'm', 'e']
}

pub open spec fn kw_query() -> Seq<char> {
    seq!['q', 'u', 'e', 'r', 'y']
}

/// One operator command line, split at its first space into a keyword and
/// an argument.
pub enum Command {
    /// `file <path>`: remember a file to load.
    File(String),
    /// `table_name <name>`: load the remembered file as table `name`.
    TableName(String),
    /// `query <sql>`: run a query against the registered tables.
    Query(String),
    /// A keyword that the grammar does not know.
    Unrecognized,
    /// A line without a space.
    Malformed,
}

/// The content of a command.
pub enum CommandView {
    File(Seq<char>),
    TableName(Seq<char>),
    Query(Seq<char>),
    Unrecognized,
    Malformed,
}

impl View for Command {
    type V = CommandView;

    open spec fn view(&self) -> CommandView {
        match self {
            Command::File(s) => CommandView::File(s@),
            Command::TableName(s) => CommandView::TableName(s@),
            Command::Query(s) => CommandView::Query(s@),
            Command::Unrecognized => CommandView::Unrecognized,
            Command::Malformed => CommandView::Malformed,
        }
    }
}

/// How a line reads: the keyword before its first space, matched without
/// regard to ASCII case, and the rest of the line after that space.
pub open spec fn command_spec(line: Seq<char>) -> CommandView {
    if exists|i: int| is_first_space(line, i) {
        let i = choose|i: int| is_first_space(line, i);
        let word = line.take(i);
        let arg = line.skip(i + 1);
        if matches_keyword(word, kw_file()) {
            CommandView::File(arg)
        } else if matches_keyword(word, kw_table_name()) {
            CommandView::TableName(arg)
        } else if matches_keyword(word, kw_query()) {
            CommandView::Query(arg)
        } else {
            CommandView::Unrecognized
        }
    } else {
        CommandView::Malformed
    }
}

fn keyword_is(line: &str, end: usize, kw: &str) -> (r: bool)
    requires
        end <= line@.len(),
    ensures
        r == matches_keyword(line@.take(end as int), kw@),
{
    let n = kw.unicode_len();
    if n != end {
        return false;
    }
    let mut k: usize = 0;
    while k < n
        invariant
            n == kw@.len(),
            n == end,
            end <= line@.len(),
            0 <= k <= n,
            forall|j: int| 0 <= j < k ==> eq_ignore_case(#[trigger] line@.take(end as int)[j], kw@[j]),
        decreases n - k,
    {
        let a = line.get_char(k);
        let b = kw.get_char(k);
        if !(a == b || ('A' <= a && a <= 'Z' && a as u32 + 32 == b as u32)) {
            assert(line@.take(end as int)[k as int] == a);
            return false;
        }
        k = k + 1;
    }
    true
}

/// Splits a command line at its first space and recognises the keyword.
pub fn parse_command(line: &str) -> (r: Command)
    ensures
        r@ == command_spec(line@),
{
    let n = line.unicode_len();
    let mut i: usize = 0;
    let mut found = false;
    while !found && i < n
        invariant
            n == line@.len(),
            0 <= i <= n,
            found ==> i < n && line@[i as int] == ' ',
            forall|j: int| 0 <= j < i ==> #[trigger] line@[j] != ' ',
        decreases n - i + if found { 0int } else { 1int },
    {
        if line.get_char(i) == ' ' {
            found = true;
        } else {
            i = i + 1;
        }
    }
    if !found {
        assert(!exists|k: int| is_first_space(line@, k));
        return Command::Malformed;
    }
    proof {
        assert(is_first_space(line@, i as int));
        assert forall|k: int| is_first_space(line@, k) implies k == i by {
            if k < i {
                assert(line@[k] != ' ');
            } else if k > i {
                assert(line@[i as int] != ' ');
            }
        }
        reveal_strlit("file");
        reveal_strlit("table_name");
        reveal_strlit("query");
        assert("file"@ =~= kw_file());
        assert("table_name"@ =~= kw_table_name());
        assert("query"@ =~= kw_query());
    }
    let arg = line.substring_char(i + 1, n).to_owned();
    if keyword_is(line, i, "file") {
        Command::File(arg)
    } else if keyword_is(line, i, "table_name") {
        Command::TableName(arg)
    } else if keyword_is(line, i, "query") {
        Command::Query(arg)
    } else {
        Command::Unrecognized
    }
}

/// What the session asks its surroundings to do after a command line.
pub enum Action {
    /// Nothing to do.
    Nothing,
    /// Load the file at `path` and register it as `table_name`.
    Ingest { path: String, table_name: String },
    /// Run the query against the registered tables and show the result.
    RunQuery(String),
    /// Tell the operator that the command was not understood.
    ReportUnknown,
}

/// The content of an action.
pub enum ActionView {
    Nothing,
    Ingest(Seq<char>, Seq<char>),
    RunQuery(Seq<char>),
    ReportUnknown,
}

impl View for Action {
    type V = ActionView;

    open spec fn view(&self) -> ActionView {
        match self {
            Action::Nothing => ActionView::Nothing,
            Action::Ingest { path, table_name } => ActionView::Ingest(path@, table_name@),
            Action::RunQuery(q) => ActionView::RunQuery(q@),
            Action::ReportUnknown => ActionView::ReportUnknown,
        }
    }
}

/// The action that command `c` calls for while `pending` is the
/// remembered file name. Loading is asked for only when a file name has been
/// given; otherwise `table_name` does nothing.
pub open spec fn action_spec(pending: Seq<char>, c: CommandView) -> ActionView {
    match c {
        CommandView::File(_) => ActionView::Nothing,
        CommandView::TableName(name) => if pending.len() > 0 {
            ActionView::Ingest(pending, name)
        } else {
            ActionView::Nothing
        },
        CommandView::Query(q) => ActionView::RunQuery(q),
        CommandView::Unrecognized => ActionView::ReportUnknown,
        CommandView::Malformed => ActionView::ReportUnknown,
    }
}

/// The remembered file name after command `c`.
pub open spec fn pending_after(pending: Seq<char>, c: CommandView) -> Seq<char> {
    match c {
        CommandView::File(path) => path,
        _ => pending,
    }
}

/// The command history after `line`: every line that splits into a keyword
/// and an argument is kept, whether or not the keyword is known.
pub open spec fn log_after(log: Seq<Seq<char>>, line: Seq<char>) -> Seq<Seq<char>> {
    if command_spec(line) is Malformed {
        log
    } else {
        log.push(line)
    }
}

/// The state of one interactive session.
pub struct SessionState {
    pending_filename: String,
    registry: TableRegistry,
    command_log: Vec<String>,
}

impl SessionState {
    pub closed spec fn pending(&self) -> Seq<char> {
        self.pending_filename@
    }

    pub closed spec fn tables(&self) -> Map<Seq<char>, Table> {
        self.registry@
    }

    pub closed spec fn log(&self) -> Seq<Seq<char>> {
        self.command_log@.map_values(|s: String| s@)
    }

    pub closed spec fn wf(&self) -> bool {
        self.registry.wf()
    }

    /// A fresh session: no file remembered, no tables, no history.
    pub fn new() -> (r: SessionState)
        ensures
            r.wf(),
            r.pending() == Seq::<char>::empty(),
            r.tables() == Map::<Seq<char>, Table>::empty(),
            r.log() == Seq::<Seq<char>>::empty(),
    {
        let r = SessionState {
            pending_filename: String::new(),
            registry: TableRegistry::new(),
            command_log: Vec::new(),
        };
        assert(r.log() =~= Seq::<Seq<char>>::empty());
        r
    }

    /// Handles one command line: updates the remembered file name and the
    /// history, and says what is to be done. The tables change only through
    /// `register_table`.
    pub fn handle_line(&mut self, line: String) -> (r: Action)
        requires
            old(self).wf(),
        ensures
            final(self).wf(),
            r@ == action_spec(old(self).pending(), command_spec(line@)),
            final(self).pending() == pending_after(old(self).pending(), command_spec(line@)),
            final(self).log() == log_after(old(self).log(), line@),
            final(self).tables() == old(self).tables(),
    {
        let c = parse_command(line.as_str());
        let action = match c {
            Command::Malformed => {
                return Action::ReportUnknown;
            },
            Command::File(path) => {
                self.pending_filename = path;
                Action::Nothing
            },
            Command::TableName(name) => {
                if self.pending_filename.as_str().unicode_len() > 0 {
                    Action::Ingest { path: self.pending_filename.clone(), table_name: name }
                } else {
                    Action::Nothing
                }
            },
            Command::Query(q) => Action::RunQuery(q),
            Command::Unrecognized => Action::ReportUnknown,
        };
        let ghost old_log = self.command_log@;
        self.command_log.push(line);
        assert(self.log() =~= old_log.map_values(|s: String| s@).push(line@));
        action
    }

    /// Binds `name` to `table`, replacing any table of that name.
    pub fn register_table(&mut self, name: String, table: Table)
        requires
            old(self).wf(),
        ensures
            final(self).wf(),
            final(self).tables() == old(self).tables().insert(name@, table),
            final(self).pending() == old(self).pending(),
            final(self).log() == old(self).log(),
    {
        self.registry.register(name, table);
    }

    /// The remembered file name; empty when none was given.
    pub fn pending_filename(&self) -> (r: &String)
        ensures
            r@ == self.pending(),
    {
        &self.pending_filename
    }

    /// The registered tables.
    pub fn registry(&self) -> (r: &TableRegistry)
        ensures
            r.wf() == self.wf(),
            r@ == self.tables(),
    {
        &self.registry
    }

    /// The command history, oldest first.
    pub fn command_log(&self) -> (r: &Vec<String>)
        ensures
            r@.map_values(|s: String| s@) == self.log(),
    {
        &self.command_log
    }
}

} // verus!
