//! A `p4` command line: the connection it uses and the command it runs,
//! as the program and arguments to start; and what a failed run means.

use vstd::prelude::*;
use crate::perforce::types::{ChangeStatus, status_name};
use crate::text::{
    chars_of, decimal, decimal_string, line_bounds, lines_from, seq_starts_with, string_of,
    trim_bounds, trim_spec, starts_with,
};

verus! {

/// How a `p4` command exchanges data.
#[derive(Debug, Clone, Copy, PartialEq, Eq, Structural)]
pub enum CmdType {
    /// Reads a spec form on its input (`-i`).
    FormInput,
    /// Writes a spec form, as JSON (`-o`).
    FormOutput,
    /// Writes tagged JSON records.
    Query,
}

/// A `p4` run to start: program, arguments, what the command exchanges,
/// and what it reads on its input.
pub struct P4Invocation {
    pub program: String,
    pub args: Vec<String>,
    pub cmd_type: CmdType,
    pub stdin: Option<String>,
}

/// The arguments of an invocation.
pub open spec fn args_of(inv: P4Invocation) -> Seq<Seq<char>> {
    inv.args@.map_values(|a: String| a@)
}

/// A connection to a Perforce server through the `p4` program.
pub struct P4 {
    p4_path: String,
    port: Option<String>,
    user: Option<String>,
    password: Option<String>,
    client: Option<String>,
    retries: Option<usize>,
}

/// The mathematical form of a [`P4`].
pub struct P4View {
    pub p4_path: Seq<char>,
    pub port: Option<Seq<char>>,
    pub user: Option<Seq<char>>,
    pub password: Option<Seq<char>>,
    pub client: Option<Seq<char>>,
    pub retries: Option<usize>,
}

/// The view of an optional string.
pub open spec fn opt_view(s: Option<String>) -> Option<Seq<char>> {
    match s {
        Some(t) => Some(t@),
        None => None,
    }
}

impl Clone for P4 {
    fn clone(&self) -> (r: Self)
        ensures
            r@ == self@,
    {
        P4 {
            p4_path: self.p4_path.clone(),
            port: clone_opt(&self.port),
            user: clone_opt(&self.user),
            password: clone_opt(&self.password),
            client: clone_opt(&self.client),
            retries: self.retries,
        }
    }
}

fn clone_opt(s: &Option<String>) -> (r: Option<String>)
    ensures
        opt_view(r) == opt_view(*s),
{
    match s {
        Some(t) => Some(t.clone()),
        None => None,
    }
}

impl View for P4 {
    type V = P4View;

    closed spec fn view(&self) -> P4View {
        P4View {
            p4_path: self.p4_path@,
            port: opt_view(self.port),
            user: opt_view(self.user),
            password: opt_view(self.password),
            client: opt_view(self.client),
            retries: self.retries,
        }
    }
}

/// `[flag, value]` when `v` is set.
pub open spec fn opt_arg(flag: Seq<char>, v: Option<Seq<char>>) -> Seq<Seq<char>> {
    match v {
        Some(x) => seq![flag, x],
        None => Seq::empty(),
    }
}

/// The connection arguments every command starts with: client, port,
/// user and password, each only when set.
pub open spec fn global_args(p: P4View) -> Seq<Seq<char>> {
    opt_arg("-c"@, p.client) + opt_arg("-p"@, p.port) + opt_arg("-u"@, p.user) + opt_arg(
        "-P"@,
        p.password,
    )
}

/// The arguments that name the command `name`: a form input reads `-i`; a
/// form output and a query ask for tagged JSON (`-Mj -ztag`), the form
/// output with `-o`.
pub open spec fn command_args(name: Seq<char>, t: CmdType) -> Seq<Seq<char>> {
    match t {
        CmdType::FormOutput => seq!["-Mj"@, "-ztag"@, name, "-o"@],
        CmdType::FormInput => seq![name, "-i"@],
        CmdType::Query => seq!["-Mj"@, "-ztag"@, name],
    }
}

fn push_arg(args: &mut Vec<String>, a: &str)
    ensures
        final(args)@.map_values(|s: String| s@) == old(args)@.map_values(|s: String| s@).push(a@),
{
    let ghost before = args@.map_values(|s: String| s@);
    args.push(a.to_owned());
    assert(args@.map_values(|s: String| s@) =~= before.push(a@));
}

fn push_opt_arg(args: &mut Vec<String>, flag: &str, v: &Option<String>)
    ensures
        final(args)@.map_values(|s: String| s@) == old(args)@.map_values(|s: String| s@) + opt_arg(
            flag@,
            opt_view(*v),
        ),
{
    let ghost before = args@.map_values(|s: String| s@);
    match v {
        Some(x) => {
            push_arg(args, flag);
            push_arg(args, x.as_str());
            assert(args@.map_values(|s: String| s@) =~= before + opt_arg(flag@, opt_view(*v)));
        },
        None => {
            assert(args@.map_values(|s: String| s@) =~= before + opt_arg(flag@, opt_view(*v)));
        },
    }
}

impl P4 {
    /// A connection that runs `p4` from the `PATH` with the environment's
    /// settings.
    pub fn new() -> (r: Self)
        ensures
            r@ == (P4View {
                p4_path: "p4"@,
                port: None,
                user: None,
                password: None,
                client: None,
                retries: None,
            }),
    {
        P4 {
            p4_path: "p4".to_owned(),
            port: None,
            user: None,
            password: None,
            client: None,
            retries: None,
        }
    }

    /// Runs the `p4` program at `path`.
    pub fn p4_path(self, path: &str) -> (r: Self)
        ensures
            r@ == (P4View { p4_path: path@, ..self@ }),
    {
        P4 { p4_path: path.to_owned(), ..self }
    }

    /// Connects to the server at `port`.
    pub fn port(self, port: &str) -> (r: Self)
        ensures
            r@ == (P4View { port: Some(port@), ..self@ }),
    {
        P4 { port: Some(port.to_owned()), ..self }
    }

    /// Runs commands as `user`.
    pub fn p4_user(self, user: &str) -> (r: Self)
        ensures
            r@ == (P4View { user: Some(user@), ..self@ }),
    {
        P4 { user: Some(user.to_owned()), ..self }
    }

    /// Authenticates with `password` (or a ticket).
    pub fn password(self, password: &str) -> (r: Self)
        ensures
            r@ == (P4View { password: Some(password@), ..self@ }),
    {
        P4 { password: Some(password.to_owned()), ..self }
    }

    /// Works in the client workspace `client`.
    pub fn client_name(self, client: &str) -> (r: Self)
        ensures
            r@ == (P4View { client: Some(client@), ..self@ }),
    {
        P4 { client: Some(client.to_owned()), ..self }
    }

    /// Retries a failed command up to `retries` times.
    pub fn retries(self, retries: usize) -> (r: Self)
        ensures
            r@ == (P4View { retries: Some(retries), ..self@ }),
    {
        P4 { retries: Some(retries), ..self }
    }

    /// The run of the command `cmd_name`: the connection's arguments, then
    /// those that name the command.
    pub fn build_cmd(&self, cmd_name: &str, cmd_type: CmdType) -> (r: P4Invocation)
        ensures
            r.program@ == self@.p4_path,
            args_of(r) == global_args(self@) + command_args(cmd_name@, cmd_type),
            r.cmd_type == cmd_type,
            r.stdin is None,
    {
        let mut args: Vec<String> = Vec::new();
        push_opt_arg(&mut args, "-c", &self.client);
        push_opt_arg(&mut args, "-p", &self.port);
        push_opt_arg(&mut args, "-u", &self.user);
        push_opt_arg(&mut args, "-P", &self.password);
        let ghost g = args@.map_values(|s: String| s@);
        match cmd_type {
            CmdType::FormOutput => {
                push_arg(&mut args, "-Mj");
                push_arg(&mut args, "-ztag");
                push_arg(&mut args, cmd_name);
                push_arg(&mut args, "-o");
            },
            CmdType::FormInput => {
                push_arg(&mut args, cmd_name);
                push_arg(&mut args, "-i");
            },
            CmdType::Query => {
                push_arg(&mut args, "-Mj");
                push_arg(&mut args, "-ztag");
                push_arg(&mut args, cmd_name);
            },
        }
        assert(args@.map_values(|s: String| s@) =~= global_args(self@) + command_args(
            cmd_name@,
            cmd_type,
        ));
        P4Invocation { program: self.p4_path.clone(), args, cmd_type, stdin: None }
    }

    /// `p4 info`.
    pub fn info<'p>(&'p self) -> (r: InfoCommand<'p>)
        ensures
            r.p4 == self,
            !r.short,
    {
        InfoCommand::new(self)
    }

    /// `p4 changes` on `files`.
    pub fn changes<'p>(&'p self, files: &[&str]) -> (r: ChangesCommand<'p>)
        ensures
            r.p4 == self,
            r.files@.map_values(|f: String| f@) == files@.map_values(|f: &str| f@),
            r.flags_unset(),
    {
        ChangesCommand::new(self, files)
    }

    /// `p4 change -i`, writing `change_spec`.
    pub fn set_change<'p>(&'p self, change_spec: &ChangeSpec) -> (r: ChangeCommand<'p>)
        ensures
            r.p4 == self,
            r.action == ChangeAction::Write(*change_spec),
    {
        ChangeCommand { p4: self, action: ChangeAction::Write(change_spec.clone()) }
    }

    /// `p4 change -o`, reading the change `change`.
    pub fn get_change<'p>(&'p self, change: usize) -> (r: ChangeCommand<'p>)
        ensures
            r.p4 == self,
            r.action == ChangeAction::Read(change),
    {
        ChangeCommand { p4: self, action: ChangeAction::Read(change) }
    }
}

// ------------------------------------------------------------- commands

/// `p4 info`.
pub struct InfoCommand<'p> {
    pub p4: &'p P4,
    /// `-s`: leave out what needs a database lookup.
    pub short: bool,
}

impl<'p> InfoCommand<'p> {
    /// `p4 info` on `p4`, in full.
    pub fn new(p4: &'p P4) -> (r: Self)
        ensures
            r.p4 == p4,
            !r.short,
    {
        InfoCommand { p4, short: false }
    }

    /// Asks for the short form.
    pub fn short(self) -> (r: Self)
        ensures
            r.p4 == self.p4,
            r.short,
    {
        InfoCommand { short: true, ..self }
    }

    /// The run of this command.
    pub fn invocation(&self) -> (r: P4Invocation)
        ensures
            r.program@ == self.p4@.p4_path,
            args_of(r) == global_args(self.p4@) + command_args("info"@, CmdType::Query) + if self.short {
                seq!["-s"@]
            } else {
                Seq::empty()
            },
            r.cmd_type == CmdType::Query,
    {
        let mut inv = self.p4.build_cmd("info", CmdType::Query);
        let ghost before = args_of(inv);
        if self.short {
            push_arg(&mut inv.args, "-s");
        }
        assert(args_of(inv) =~= before + if self.short {
            seq!["-s"@]
        } else {
            Seq::empty()
        });
        inv
    }
}

/// `p4 changes`.
pub struct ChangesCommand<'p> {
    pub p4: &'p P4,
    pub files: Vec<String>,
    /// `-i`: include changes integrated into the files.
    pub include_integrated: bool,
    /// `-l`: full descriptions.
    pub long: bool,
    /// `-e`: only changes from this number on.
    pub since_changelist: Option<usize>,
    /// `-m`: at most this many changes.
    pub max_changes: Option<usize>,
    /// `-s`: only changes in this state.
    pub status: Option<ChangeStatus>,
    /// `-u`: only changes by this user.
    pub user: Option<String>,
    /// `-r`: oldest first.
    pub reverse: bool,
}

/// `[flag]` when `on`.
pub open spec fn flag_arg(on: bool, flag: Seq<char>) -> Seq<Seq<char>> {
    if on {
        seq![flag]
    } else {
        Seq::empty()
    }
}

/// `[flag, n]` when `v` is set.
pub open spec fn num_arg(flag: Seq<char>, v: Option<usize>) -> Seq<Seq<char>> {
    match v {
        Some(n) => seq![flag, decimal(n as nat)],
        None => Seq::empty(),
    }
}

fn push_flag(args: &mut Vec<String>, on: bool, flag: &str)
    ensures
        final(args)@.map_values(|s: String| s@) == old(args)@.map_values(|s: String| s@) + flag_arg(
            on,
            flag@,
        ),
{
    let ghost before = args@.map_values(|s: String| s@);
    if on {
        push_arg(args, flag);
    }
    assert(args@.map_values(|s: String| s@) =~= before + flag_arg(on, flag@));
}

fn push_num_arg(args: &mut Vec<String>, flag: &str, v: Option<usize>)
    ensures
        final(args)@.map_values(|s: String| s@) == old(args)@.map_values(|s: String| s@) + num_arg(
            flag@,
            v,
        ),
{
    let ghost before = args@.map_values(|s: String| s@);
    match v {
        Some(n) => {
            push_arg(args, flag);
            let d = decimal_string(n);
            push_arg(args, d.as_str());
        },
        None => {},
    }
    assert(args@.map_values(|s: String| s@) =~= before + num_arg(flag@, v));
}

fn push_all(args: &mut Vec<String>, files: &Vec<String>)
    ensures
        final(args)@.map_values(|s: String| s@) == old(args)@.map_values(|s: String| s@)
            + files@.map_values(|f: String| f@),
{
    let ghost before = args@.map_values(|s: String| s@);
    let ghost fs = files@.map_values(|f: String| f@);
    let mut k: usize = 0;
    while k < files.len()
        invariant
            k <= files@.len(),
            fs == files@.map_values(|f: String| f@),
            args@.map_values(|s: String| s@) == before + fs.take(k as int),
        decreases files.len() - k,
    {
        push_arg(args, files[k].as_str());
        assert(fs.take(k + 1) =~= fs.take(k as int).push(fs[k as int]));
        k = k + 1;
    }
    assert(fs.take(files@.len() as int) =~= fs);
}

impl<'p> ChangesCommand<'p> {
    /// Whether no option is set yet.
    pub open spec fn flags_unset(&self) -> bool {
        &&& !self.include_integrated
        &&& !self.long
        &&& self.since_changelist is None
        &&& self.max_changes is None
        &&& self.status is None
        &&& self.user is None
        &&& !self.reverse
    }

    /// `p4 changes` on `files`, with no option set.
    pub fn new(p4: &'p P4, files: &[&str]) -> (r: Self)
        ensures
            r.p4 == p4,
            r.files@.map_values(|f: String| f@) == files@.map_values(|f: &str| f@),
            r.flags_unset(),
    {
        let mut owned: Vec<String> = Vec::new();
        let mut k: usize = 0;
        while k < files.len()
            invariant
                k <= files@.len(),
                owned@.map_values(|f: String| f@) == files@.map_values(|f: &str| f@).take(k as int),
            decreases files.len() - k,
        {
            let ghost before = owned@.map_values(|f: String| f@);
            let f = files[k].to_owned();
            assert(f@ == files@[k as int]@);
            owned.push(f);
            assert(owned@.map_values(|f: String| f@) =~= before.push(files@[k as int]@));
            assert(files@.map_values(|f: &str| f@).take(k + 1) =~= files@.map_values(
                |f: &str| f@,
            ).take(k as int).push(files@[k as int]@));
            k = k + 1;
        }
        assert(files@.map_values(|f: &str| f@).take(files@.len() as int) =~= files@.map_values(
            |f: &str| f@,
        ));
        ChangesCommand {
            p4,
            files: owned,
            include_integrated: false,
            long: false,
            since_changelist: None,
            max_changes: None,
            status: None,
            user: None,
            reverse: false,
        }
    }

    /// Lists the oldest changes first.
    pub fn reverse(self) -> (r: Self)
        ensures
            r == (ChangesCommand { reverse: true, ..self }),
    {
        ChangesCommand { reverse: true, ..self }
    }

    /// Includes changes integrated into the files.
    pub fn include_integrated(self) -> (r: Self)
        ensures
            r == (ChangesCommand { include_integrated: true, ..self }),
    {
        ChangesCommand { include_integrated: true, ..self }
    }

    /// Asks for full descriptions.
    pub fn long(self) -> (r: Self)
        ensures
            r == (ChangesCommand { long: true, ..self }),
    {
        ChangesCommand { long: true, ..self }
    }

    /// Lists only changes from `change` on.
    pub fn since_changelist(self, change: usize) -> (r: Self)
        ensures
            r == (ChangesCommand { since_changelist: Some(change), ..self }),
    {
        ChangesCommand { since_changelist: Some(change), ..self }
    }

    /// Lists at most `max` changes.
    pub fn max_changes(self, max: usize) -> (r: Self)
        ensures
            r == (ChangesCommand { max_changes: Some(max), ..self }),
    {
        ChangesCommand { max_changes: Some(max), ..self }
    }

    /// Lists only changes in the state `status`.
    pub fn status(self, status: ChangeStatus) -> (r: Self)
        ensures
            r == (ChangesCommand { status: Some(status), ..self }),
    {
        ChangesCommand { status: Some(status), ..self }
    }

    /// Lists only changes by `user`.
    pub fn user(self, user: &str) -> (r: Self)
        ensures
            r.p4 == self.p4,
            r.files == self.files,
            r.include_integrated == self.include_integrated,
            r.long == self.long,
            r.since_changelist == self.since_changelist,
            r.max_changes == self.max_changes,
            r.status == self.status,
            r.reverse == self.reverse,
            opt_view(r.user) == Some(user@),
    {
        ChangesCommand { user: Some(user.to_owned()), ..self }
    }

    /// The run of this command: `changes`, then `-i`, `-l`, `-e`, `-m`,
    /// `-s`, `-u`, `-r` for the options set, then the files.
    pub fn invocation(&self) -> (r: P4Invocation)
        ensures
            r.program@ == self.p4@.p4_path,
            r.cmd_type == CmdType::Query,
            args_of(r) == global_args(self.p4@) + command_args("changes"@, CmdType::Query)
                + flag_arg(self.include_integrated, "-i"@) + flag_arg(self.long, "-l"@) + num_arg(
                "-e"@,
                self.since_changelist,
            ) + num_arg("-m"@, self.max_changes) + match self.status {
                Some(s) => seq!["-s"@, status_name(s)],
                None => Seq::empty(),
            } + opt_arg("-u"@, opt_view(self.user)) + flag_arg(self.reverse, "-r"@)
                + self.files@.map_values(|f: String| f@),
    {
        let mut inv = self.p4.build_cmd("changes", CmdType::Query);
        push_flag(&mut inv.args, self.include_integrated, "-i");
        push_flag(&mut inv.args, self.long, "-l");
        push_num_arg(&mut inv.args, "-e", self.since_changelist);
        push_num_arg(&mut inv.args, "-m", self.max_changes);
        let ghost before = args_of(inv);
        match self.status {
            Some(s) => {
                push_arg(&mut inv.args, "-s");
                push_arg(&mut inv.args, s.name());
            },
            None => {},
        }
        assert(args_of(inv) =~= before + match self.status {
            Some(s) => seq!["-s"@, status_name(s)],
            None => Seq::empty(),
        });
        push_opt_arg(&mut inv.args, "-u", &self.user);
        push_flag(&mut inv.args, self.reverse, "-r");
        push_all(&mut inv.args, &self.files);
        inv
    }
}

/// `p4 revert`.
pub struct RevertCommand<'p> {
    pub p4: &'p P4,
    pub files: Vec<String>,
    /// `-c`: only files open in this changelist.
    pub changelist: Option<usize>,
    /// `-k`: keep the workspace files as they are.
    pub keep: bool,
    /// `-n`: only say what would be reverted.
    pub preview: bool,
    /// `-a`: only files that are unchanged.
    pub unchanged: bool,
}

impl<'p> RevertCommand<'p> {
    /// `p4 revert` on `files`, with no option set.
    pub fn new(p4: &'p P4, files: Vec<String>) -> (r: Self)
        ensures
            r.p4 == p4,
            r.files == files,
            r.changelist is None,
            !r.keep && !r.preview && !r.unchanged,
    {
        RevertCommand { p4, files, changelist: None, keep: false, preview: false, unchanged: false }
    }

    /// The run of this command: `revert`, then `-c`, `-k`, `-n`, `-a` for
    /// the options set, then the files.
    pub fn invocation(&self) -> (r: P4Invocation)
        ensures
            r.program@ == self.p4@.p4_path,
            r.cmd_type == CmdType::Query,
            args_of(r) == global_args(self.p4@) + command_args("revert"@, CmdType::Query) + num_arg(
                "-c"@,
                self.changelist,
            ) + flag_arg(self.keep, "-k"@) + flag_arg(self.preview, "-n"@) + flag_arg(
                self.unchanged,
                "-a"@,
            ) + self.files@.map_values(|f: String| f@),
    {
        let mut inv = self.p4.build_cmd("revert", CmdType::Query);
        push_num_arg(&mut inv.args, "-c", self.changelist);
        push_flag(&mut inv.args, self.keep, "-k");
        push_flag(&mut inv.args, self.preview, "-n");
        push_flag(&mut inv.args, self.unchanged, "-a");
        push_all(&mut inv.args, &self.files);
        inv
    }
}

/// Which change a change spec describes.
#[derive(Debug, Clone, Copy, PartialEq, Eq, Structural)]
pub enum ChangeType {
    /// A new pending change.
    New,
    /// The change with this number.
    Number(usize),
}

/// A change spec: the change and its description.
pub struct ChangeSpec {
    pub change: ChangeType,
    pub description: String,
}

impl Clone for ChangeSpec {
    fn clone(&self) -> (r: Self)
        ensures
            r == *self,
    {
        ChangeSpec { change: self.change, description: self.description.clone() }
    }
}

impl ChangeSpec {
    /// A spec of `change` with an empty description.
    pub fn new(change: ChangeType) -> (r: Self)
        ensures
            r.change == change,
            r.description@ == Seq::<char>::empty(),
    {
        ChangeSpec { change, description: String::new() }
    }

    /// The spec with `description`.
    pub fn description(self, description: &str) -> (r: Self)
        ensures
            r.change == self.change,
            r.description@ == description@,
    {
        ChangeSpec { description: description.to_owned(), ..self }
    }
}

/// What a `p4 change` command does.
pub enum ChangeAction {
    /// Write this spec (`-i`).
    Write(ChangeSpec),
    /// Read the spec of this change (`-o`).
    Read(usize),
}

/// `p4 change`.
pub struct ChangeCommand<'p> {
    pub p4: &'p P4,
    pub action: ChangeAction,
}

/// The form `p4 change -i` reads: the change (`new` or its number), then
/// the description, each of its lines indented by a tab.
pub open spec fn change_form(spec: ChangeSpec) -> Seq<char> {
    "Change: "@ + match spec.change {
        ChangeType::New => "new"@,
        ChangeType::Number(n) => decimal(n as nat),
    } + "\n\nDescription:\n"@ + indented_lines(lines_from(spec.description@, 0))
}

/// Each of `ls` after a tab and before a newline.
pub open spec fn indented_lines(ls: Seq<Seq<char>>) -> Seq<char>
    decreases ls.len(),
{
    if ls.len() == 0 {
        Seq::empty()
    } else {
        indented_lines(ls.drop_last()) + "\t"@ + ls.last() + "\n"@
    }
}

fn append_indented_lines(form: &mut String, text: &str)
    ensures
        final(form)@ == old(form)@ + indented_lines(lines_from(text@, 0)),
{
    let cs = chars_of(text);
    let bounds = line_bounds(&cs);
    let ghost ls = lines_from(cs@, 0);
    let mut k: usize = 0;
    while k < bounds.len()
        invariant
            cs@ == text@,
            ls == lines_from(cs@, 0),
            bounds@.len() == ls.len(),
            forall|j: int|
                0 <= j < bounds@.len() ==> {
                    &&& #[trigger] bounds@[j].0 <= bounds@[j].1 <= cs@.len()
                    &&& cs@.subrange(bounds@[j].0 as int, bounds@[j].1 as int) == ls[j]
                },
            k <= bounds@.len(),
            form@ == old(form)@ + indented_lines(ls.take(k as int)),
        decreases bounds.len() - k,
    {
        let (a, b) = bounds[k];
        assert(bounds@[k as int].0 <= bounds@[k as int].1);
        form.append("\t");
        crate::text::append_chars(form, &cs, a, b);
        form.append("\n");
        proof {
            assert(ls.take(k + 1).drop_last() =~= ls.take(k as int));
            assert(ls.take(k + 1).last() == ls[k as int]);
            assert(form@ =~= old(form)@ + indented_lines(ls.take(k + 1)));
        }
        k = k + 1;
    }
    assert(ls.take(bounds@.len() as int) =~= ls);
}

impl<'p> ChangeCommand<'p> {
    /// The run of this command: a spec written as a form on the input, or
    /// the number of the change read.
    pub fn invocation(&self) -> (r: P4Invocation)
        ensures
            r.program@ == self.p4@.p4_path,
            match self.action {
                ChangeAction::Write(spec) => {
                    &&& r.cmd_type == CmdType::FormInput
                    &&& args_of(r) == global_args(self.p4@) + command_args("change"@, CmdType::FormInput)
                    &&& r.stdin matches Some(f) && f@ == change_form(spec)
                },
                ChangeAction::Read(n) => {
                    &&& r.cmd_type == CmdType::FormOutput
                    &&& args_of(r) == global_args(self.p4@) + command_args("change"@, CmdType::FormOutput)
                        + seq![decimal(n as nat)]
                    &&& r.stdin is None
                },
            },
    {
        match &self.action {
            ChangeAction::Write(spec) => {
                let mut inv = self.p4.build_cmd("change", CmdType::FormInput);
                let mut form = "Change: ".to_owned();
                match spec.change {
                    ChangeType::New => form.append("new"),
                    ChangeType::Number(n) => {
                        let d = decimal_string(n);
                        form.append(d.as_str());
                    },
                }
                form.append("\n\nDescription:\n");
                append_indented_lines(&mut form, spec.description.as_str());
                inv.stdin = Some(form);
                inv
            },
            ChangeAction::Read(n) => {
                let mut inv = self.p4.build_cmd("change", CmdType::FormOutput);
                let d = decimal_string(*n);
                push_arg(&mut inv.args, d.as_str());
                inv
            },
        }
    }
}

// ------------------------------------------------------------- failures

/// How a `p4` run failed.
#[derive(Debug)]
pub enum P4Error {
    /// The program could not be run or talked to.
    Io(String),
    /// Its output was not the JSON expected.
    Json(String),
    /// The command ran and failed, saying this.
    CommandFailed(String),
    /// The server could not be reached.
    ConnectionFailed,
    /// The client failed in another way, saying this.
    Unexpected(String),
}

/// Where the reason of a failed run is found.
#[derive(Debug)]
pub enum Failure {
    /// The failure is known from the error output alone.
    Known(P4Error),
    /// The reason is the `data` of the JSON record on the standard output.
    InOutput,
}

/// `Perforce client error:`
pub open spec fn client_error_prefix() -> Seq<char> {
    "Perforce client error:"@
}

/// The reason of a failed run, from its error output and the command's
/// type: a client error names a failed connection on its second line, or
/// is unexpected; a form input says why on its error output; any other
/// command says why in its JSON output.
pub open spec fn failure_spec(stderr: Seq<char>, cmd_type: CmdType) -> (FailureView) {
    if seq_starts_with(stderr, client_error_prefix()) {
        let ls = lines_from(stderr, 0);
        let second = if ls.len() > 1 {
            trim_spec(ls[1])
        } else {
            Seq::empty()
        };
        if second == "Connect to server failed; check $P4PORT."@ {
            FailureView::ConnectionFailed
        } else {
            FailureView::Unexpected(stderr)
        }
    } else if cmd_type == CmdType::FormInput {
        FailureView::CommandFailed(stderr)
    } else {
        FailureView::InOutput
    }
}

/// The mathematical form of a [`Failure`] that [`classify_failure`] gives.
pub enum FailureView {
    ConnectionFailed,
    Unexpected(Seq<char>),
    CommandFailed(Seq<char>),
    InOutput,
    Other,
}

/// The view of a failure.
pub open spec fn failure_view(f: Failure) -> FailureView {
    match f {
        Failure::Known(P4Error::ConnectionFailed) => FailureView::ConnectionFailed,
        Failure::Known(P4Error::Unexpected(s)) => FailureView::Unexpected(s@),
        Failure::Known(P4Error::CommandFailed(s)) => FailureView::CommandFailed(s@),
        Failure::InOutput => FailureView::InOutput,
        _ => FailureView::Other,
    }
}

/// Why a run with error output `stderr` failed.
pub fn classify_failure(stderr: &str, cmd_type: CmdType) -> (r: Failure)
    ensures
        failure_view(r) == failure_spec(stderr@, cmd_type),
{
    let cs = chars_of(stderr);
    let prefix = chars_of("Perforce client error:");
    if starts_with(&cs, &prefix) {
        let bounds = line_bounds(&cs);
        let second = if bounds.len() > 1 {
            let (a, b) = bounds[1];
            let (lo, hi) = trim_bounds(&cs, a, b);
            string_of(&cs, lo, hi)
        } else {
            String::new()
        };
        if second == "Connect to server failed; check $P4PORT.".to_owned() {
            Failure::Known(P4Error::ConnectionFailed)
        } else {
            Failure::Known(P4Error::Unexpected(stderr.to_owned()))
        }
    } else if cmd_type == CmdType::FormInput {
        Failure::Known(P4Error::CommandFailed(stderr.to_owned()))
    } else {
        Failure::InOutput
    }
}

// ------------------------------------------------------------- responses

/// The lines of a command's tagged JSON output, as one JSON array: the
/// lines trimmed, the empty ones left out, the rest joined by commas inside
/// brackets.
pub open spec fn json_array_spec(stdout: Seq<char>) -> Seq<char> {
    "["@ + joined_records(lines_from(stdout, 0)) + "]"@
}

/// The non-empty trimmed lines of `ls`, joined by commas.
pub open spec fn joined_records(ls: Seq<Seq<char>>) -> Seq<char>
    decreases ls.len(),
{
    if ls.len() == 0 {
        Seq::empty()
    } else {
        let prev = joined_records(ls.drop_last());
        let t = trim_spec(ls.last());
        if t.len() == 0 {
            prev
        } else if prev.len() == 0 {
            t
        } else {
            prev + ","@ + t
        }
    }
}

/// The multi-line output of a command as one JSON array text.
pub fn json_array_text(stdout: &str) -> (r: String)
    ensures
        r@ == json_array_spec(stdout@),
{
    let cs = chars_of(stdout);
    let bounds = line_bounds(&cs);
    let ghost ls = lines_from(cs@, 0);
    let mut body = String::new();
    let mut any = false;
    let mut k: usize = 0;
    while k < bounds.len()
        invariant
            any == (body@.len() > 0),
            cs@ == stdout@,
            ls == lines_from(cs@, 0),
            bounds@.len() == ls.len(),
            forall|j: int|
                0 <= j < bounds@.len() ==> {
                    &&& #[trigger] bounds@[j].0 <= bounds@[j].1 <= cs@.len()
                    &&& cs@.subrange(bounds@[j].0 as int, bounds@[j].1 as int) == ls[j]
                },
            k <= bounds@.len(),
            body@ == joined_records(ls.take(k as int)),
        decreases bounds.len() - k,
    {
        let (a, b) = bounds[k];
        assert(bounds@[k as int].0 <= bounds@[k as int].1);
        let (lo, hi) = trim_bounds(&cs, a, b);
        proof {
            assert(ls.take(k + 1).drop_last() =~= ls.take(k as int));
            assert(ls.take(k + 1).last() == ls[k as int]);
        }
        if lo < hi {
            if any {
                body.append(",");
            }
            crate::text::append_chars(&mut body, &cs, lo, hi);
            any = true;
        }
        k = k + 1;
    }
    assert(ls.take(bounds@.len() as int) =~= ls);
    let mut r = "[".to_owned();
    r.append(body.as_str());
    r.append("]");
    r
}

/// A change as `p4 changes` lists it.
#[derive(Debug)]
pub struct ChangeData {
    pub change: usize,
    /// The number the change had before it was renumbered on submit.
    pub old_change: Option<usize>,
    pub change_type: String,
    pub client: String,
    pub desc: String,
    pub path: Option<String>,
    pub status: ChangeStatus,
    pub time: String,
    pub user: String,
}

/// What `p4 info` reports.
#[derive(Debug)]
pub struct InfoResponse {
    pub server_id: String,
    pub client_name: String,
    pub client_root: Option<String>,
    pub client_cwd: String,
    pub client_host: String,
    pub server_version: String,
    pub user_name: String,
}

/// A file `p4 revert` reverted.
#[derive(Debug)]
pub struct RevertResult {
    pub depot_file: String,
    pub client_file: String,
    pub have_rev: Option<String>,
    pub old_action: Option<String>,
}

} // verus!
